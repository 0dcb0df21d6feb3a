use vstd::prelude::*;

verus! {

/// A repository-changing action that triggers a new layout computation.
#[derive(Clone, Copy, PartialEq, Eq, Structural, Debug)]
pub enum RepoOperation {
    RepositoryOpened,
    Checkout,
    CheckoutRemoteBranch,
    Fetch,
    Pull,
    Push,
    ForcePush,
    RefPointerChangedOnly,
    ManualRefresh,
}

/// The diff strategy chosen for one layout computation.
///
/// `RefChange` means no revision walk is needed at all: only ref label
/// placement is recomputed. The other variants are hints for the differ
/// about the expected shape of the change.
#[derive(Clone, Copy, PartialEq, Eq, Structural, Debug)]
pub enum GraphOps {
    /// A pure ref-pointer change: skip the walk, recompute labels only.
    RefChange,
    /// New commits are expected only on top of unchanged history.
    PrependOnly,
    /// The top of the history may have been rewritten.
    PossibleRewrite,
    /// Nothing is known about the shape of the change.
    Unknown,
}

/// Whether a strategy requires a revision walk at all.
pub open spec fn walk_required(ops: GraphOps) -> bool {
    !(ops is RefChange)
}

/// Maps a triggering action to a diff strategy.
///
/// Fetch and pull can only add commits on top; push and force-push may
/// rewrite the top of the history; opening, checking out or manually
/// refreshing says nothing about the shape of the change. A pure
/// ref-pointer change skips the revision walk entirely.
pub fn classify_operation(op: RepoOperation) -> (r: GraphOps)
    ensures
        r == classified(op),
{
    match op {
        RepoOperation::RefPointerChangedOnly => GraphOps::RefChange,
        RepoOperation::Fetch => GraphOps::PrependOnly,
        RepoOperation::Pull => GraphOps::PrependOnly,
        RepoOperation::Push => GraphOps::PossibleRewrite,
        RepoOperation::ForcePush => GraphOps::PossibleRewrite,
        RepoOperation::RepositoryOpened => GraphOps::Unknown,
        RepoOperation::Checkout => GraphOps::Unknown,
        RepoOperation::CheckoutRemoteBranch => GraphOps::Unknown,
        RepoOperation::ManualRefresh => GraphOps::Unknown,
    }
}

/// The strategy each action classifies to.
pub open spec fn classified(op: RepoOperation) -> GraphOps {
    match op {
        RepoOperation::RefPointerChangedOnly => GraphOps::RefChange,
        RepoOperation::Fetch => GraphOps::PrependOnly,
        RepoOperation::Pull => GraphOps::PrependOnly,
        RepoOperation::Push => GraphOps::PossibleRewrite,
        RepoOperation::ForcePush => GraphOps::PossibleRewrite,
        RepoOperation::RepositoryOpened => GraphOps::Unknown,
        RepoOperation::Checkout => GraphOps::Unknown,
        RepoOperation::CheckoutRemoteBranch => GraphOps::Unknown,
        RepoOperation::ManualRefresh => GraphOps::Unknown,
    }
}

} // verus!
