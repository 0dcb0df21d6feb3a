use vstd::prelude::*;
use crate::svg_row::CommitFact;

verus! {

/// What kind of ref the backend reported.
#[derive(Clone, Copy, PartialEq, Eq, Structural, Debug)]
pub enum RefKind {
    LocalBranch,
    RemoteBranch,
    Tag,
}

/// The raw facts the repository backend reports about one ref. Text
/// fields are `None` where the backend could not decode them; for a tag
/// the target oid is the tag peeled to its commit.
pub struct RefFact {
    pub shorthand: Option<String>,
    pub full_name: Option<String>,
    pub kind: RefKind,
    pub target_oid: Option<String>,
    pub is_head: bool,
    pub ahead: usize,
    pub behind: usize,
}

/// The mathematical content of a ref fact.
pub struct RefFactView {
    pub shorthand: Option<Seq<char>>,
    pub full_name: Option<Seq<char>>,
    pub kind: RefKind,
    pub target: Option<Seq<char>>,
    pub is_head: bool,
    pub ahead: int,
    pub behind: int,
}

impl View for RefFact {
    type V = RefFactView;

    open spec fn view(&self) -> RefFactView {
        RefFactView {
            shorthand: self.shorthand.deep_view(),
            full_name: self.full_name.deep_view(),
            kind: self.kind,
            target: self.target_oid.deep_view(),
            is_head: self.is_head,
            ahead: self.ahead as int,
            behind: self.behind as int,
        }
    }
}

/// The views of a list of ref facts.
pub open spec fn refs_view(s: Seq<RefFact>) -> Seq<RefFactView> {
    s.map_values(|r: RefFact| r@)
}

/// Every ref name the payload needs was decodable text.
pub open spec fn refs_decodable(rs: Seq<RefFactView>) -> bool {
    forall|i: int| 0 <= i < rs.len() ==> (#[trigger] rs[i]).shorthand is Some
}

/// The state the repository is in while an operation is in progress.
#[derive(Clone, Copy, PartialEq, Eq, Structural, Debug)]
pub enum RepoStateKind {
    Clean,
    Merge,
    Revert,
    CherryPick,
    Rebase,
    RebaseMerge,
    RebaseInteractive,
    Other,
}

/// One changed file of a working-tree diff: its status code and its
/// path, `None` where the path was not decodable text.
pub struct DiffDeltaFact {
    pub status: u8,
    pub path: Option<String>,
}

/// The mathematical content of a diff delta fact.
pub struct DiffDeltaFactView {
    pub status: u8,
    pub path: Option<Seq<char>>,
}

impl View for DiffDeltaFact {
    type V = DiffDeltaFactView;

    open spec fn view(&self) -> DiffDeltaFactView {
        DiffDeltaFactView { status: self.status, path: self.path.deep_view() }
    }
}

/// The views of a list of delta facts.
pub open spec fn deltas_view(s: Seq<DiffDeltaFact>) -> Seq<DiffDeltaFactView> {
    s.map_values(|d: DiffDeltaFact| d@)
}

/// Every path of the diff was decodable text.
pub open spec fn deltas_decodable(ds: Seq<DiffDeltaFactView>) -> bool {
    forall|i: int| 0 <= i < ds.len() ==> (#[trigger] ds[i]).path is Some
}

/// Everything one layout computation consumes from the repository
/// backend, as plain values: general flags, refs, remotes, the new
/// revision walk and the working-tree diff summaries.
pub struct RepoFacts {
    pub head_has_upstream: bool,
    pub repo_state: RepoStateKind,
    pub head_detached: bool,
    pub head_target_oid: Option<String>,
    pub refs: Vec<RefFact>,
    pub remote_names: Vec<Option<String>>,
    pub walk: Vec<CommitFact>,
    pub unstaged_deltas: Vec<DiffDeltaFact>,
    pub staged_deltas: Vec<DiffDeltaFact>,
}

} // verus!
