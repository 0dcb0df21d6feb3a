use vstd::prelude::*;
use crate::classifier::GraphOps;
use crate::classifier::walk_required;

verus! {

/// One row-level change: the commit `sha` gained or lost the row `index`.
#[derive(Debug)]
pub struct SHAChange {
    pub sha: String,
    pub index: usize,
}

impl View for SHAChange {
    type V = (Seq<char>, int);

    open spec fn view(&self) -> (Seq<char>, int) {
        (self.sha@, self.index as int)
    }
}

/// The minimal set of row-level changes between the previous walk and the
/// new one. If `clear_entire_old_graph` is set, `created` holds every row
/// of the new walk and `deleted` every row of the old walk: the caller
/// must discard and rebuild the whole visual graph instead of patching it.
#[derive(Debug)]
pub struct SHAChanges {
    pub created: Vec<SHAChange>,
    pub deleted: Vec<SHAChange>,
    pub clear_entire_old_graph: bool,
}

/// The list of changes covers exactly the first `count` rows of a walk,
/// each paired with its row index.
pub open spec fn row_changes_match(chs: Seq<SHAChange>, rows: Seq<Seq<char>>, count: int) -> bool {
    &&& chs.len() == count
    &&& forall|i: int| 0 <= i < chs.len() ==> (#[trigger] chs[i])@ == (rows[i], i)
}

/// Length of the longest common suffix of two walks: the shared ancestry
/// below the divergence point.
pub open spec fn spec_suffix_len(a: Seq<Seq<char>>, b: Seq<Seq<char>>) -> int
    decreases a.len(),
{
    if a.len() == 0 || b.len() == 0 {
        0
    } else if a.last() == b.last() {
        1 + spec_suffix_len(a.drop_last(), b.drop_last())
    } else {
        0
    }
}

/// How many rows at the bottom of both walks the chosen strategy treats
/// as unchanged. A prepend-only diff keeps the whole old walk when it
/// reappears as a suffix of the new one and escalates to a full reset
/// otherwise; a rewrite or unknown diff keeps the shared ancestry.
pub open spec fn spec_keep_len(ops: GraphOps, a: Seq<Seq<char>>, b: Seq<Seq<char>>) -> int {
    match ops {
        GraphOps::PrependOnly => if spec_suffix_len(a, b) == a.len() {
            a.len() as int
        } else {
            0
        },
        _ => spec_suffix_len(a, b),
    }
}

/// When the differ gives up on patching and asks for a full rebuild:
/// a prepend-only diff that found no stable match point, or any diff of
/// a non-empty old walk with no shared ancestry at all.
pub open spec fn spec_full_reset(ops: GraphOps, a: Seq<Seq<char>>, b: Seq<Seq<char>>) -> bool {
    match ops {
        GraphOps::PrependOnly => spec_suffix_len(a, b) != a.len(),
        GraphOps::RefChange => false,
        _ => a.len() > 0 && spec_suffix_len(a, b) == 0,
    }
}

/// The whole contract of a walk diff in one predicate: created rows are
/// the new walk above the kept region, deleted rows the old walk above
/// it, and the reset flag follows the strategy.
pub open spec fn diff_matches(
    ops: GraphOps,
    a: Seq<Seq<char>>,
    b: Seq<Seq<char>>,
    r: SHAChanges,
) -> bool {
    &&& row_changes_match(r.created@, b, b.len() - spec_keep_len(ops, a, b))
    &&& row_changes_match(r.deleted@, a, a.len() - spec_keep_len(ops, a, b))
    &&& r.clear_entire_old_graph == spec_full_reset(ops, a, b)
}

/// Relates the loop-style characterization of the common suffix to the
/// recursive definition.
proof fn lemma_suffix_len_characterized(a: Seq<Seq<char>>, b: Seq<Seq<char>>, s: int)
    requires
        0 <= s <= a.len(),
        s <= b.len(),
        forall|j: int| a.len() - s <= j < a.len() ==> #[trigger] a[j] == b[j - a.len() + b.len()],
        s < a.len() && s < b.len() ==> a[a.len() - 1 - s] != b[b.len() - 1 - s],
    ensures
        spec_suffix_len(a, b) == s,
    decreases s,
{
    if s == 0 {
        if a.len() == 0 || b.len() == 0 {
        } else {
            assert(a[a.len() - 1] != b[b.len() - 1]);
        }
    } else {
        assert(a[a.len() - 1] == b[b.len() - 1]);
        let a1 = a.drop_last();
        let b1 = b.drop_last();
        assert forall|j: int| a1.len() - (s - 1) <= j < a1.len() implies #[trigger] a1[j] == b1[j
            - a1.len() + b1.len()] by {
            assert(a[j] == b[j - a.len() + b.len()]);
        }
        if s - 1 < a1.len() && s - 1 < b1.len() {
            assert(a1[a1.len() - 1 - (s - 1)] == a[a.len() - 1 - s]);
            assert(b1[b1.len() - 1 - (s - 1)] == b[b.len() - 1 - s]);
        }
        lemma_suffix_len_characterized(a1, b1, s - 1);
    }
}

/// Computes the length of the longest common suffix of the two oid lists.
fn longest_common_suffix(old_oids: &Vec<String>, new_oids: &Vec<String>) -> (s: usize)
    ensures
        s <= old_oids@.len(),
        s <= new_oids@.len(),
        spec_suffix_len(old_oids.deep_view(), new_oids.deep_view()) == s,
{
    let la = old_oids.len();
    let lb = new_oids.len();
    let ghost a = old_oids.deep_view();
    let ghost b = new_oids.deep_view();
    let mut s: usize = 0;
    let mut stop = false;
    while s < la && s < lb && !stop
        invariant
            s <= la,
            s <= lb,
            la == a.len(),
            lb == b.len(),
            a == old_oids.deep_view(),
            b == new_oids.deep_view(),
            forall|j: int| a.len() - s <= j < a.len() ==> #[trigger] a[j] == b[j - a.len() + b.len()],
            stop ==> s < la && s < lb && a[a.len() - 1 - s] != b[b.len() - 1 - s],
        decreases la - s + if stop { 0int } else { 1int },
    {
        if old_oids[la - 1 - s] == new_oids[lb - 1 - s] {
            assert(a[la - 1 - s as int] == b[lb - 1 - s as int]);
            s = s + 1;
        } else {
            stop = true;
        }
    }
    proof {
        lemma_suffix_len_characterized(a, b, s as int);
    }
    s
}

/// The first `count` rows of `oids` as created or deleted row changes.
fn make_row_changes(oids: &Vec<String>, count: usize) -> (v: Vec<SHAChange>)
    requires
        count <= oids@.len(),
    ensures
        row_changes_match(v@, oids.deep_view(), count as int),
{
    let mut v: Vec<SHAChange> = Vec::new();
    let mut i: usize = 0;
    while i < count
        invariant
            i <= count,
            count <= oids@.len(),
            v@.len() == i,
            forall|j: int| 0 <= j < i ==> #[trigger] v@[j]@ == (oids.deep_view()[j], j),
        decreases count - i,
    {
        v.push(SHAChange { sha: oids[i].clone(), index: i });
        i = i + 1;
    }
    v
}

/// Diffs the new revision walk against the previously stored oid list.
///
/// Under a prepend-only hint the old walk must reappear unchanged as a
/// suffix of the new one; everything above it is created and nothing is
/// deleted. If it does not, or if a rewrite-style diff finds no shared
/// ancestry at all, the differ falls back to a full reset, which is not
/// an error: created then covers the whole new walk and deleted the
/// whole old walk.
pub fn diff_walk(commit_ops: GraphOps, old_oids: &Vec<String>, new_oids: &Vec<String>) -> (r:
    SHAChanges)
    requires
        walk_required(commit_ops),
    ensures
        diff_matches(commit_ops, old_oids.deep_view(), new_oids.deep_view(), r),
{
    let ghost a = old_oids.deep_view();
    let ghost b = new_oids.deep_view();
    let s = longest_common_suffix(old_oids, new_oids);
    let keep: usize = match commit_ops {
        GraphOps::PrependOnly => if s == old_oids.len() {
            s
        } else {
            0
        },
        _ => s,
    };
    assert(keep as int == spec_keep_len(commit_ops, a, b));
    let reset: bool = match commit_ops {
        GraphOps::PrependOnly => s != old_oids.len(),
        _ => old_oids.len() > 0 && s == 0,
    };
    assert(reset == spec_full_reset(commit_ops, a, b));
    let created = make_row_changes(new_oids, new_oids.len() - keep);
    let deleted = make_row_changes(old_oids, old_oids.len() - keep);
    SHAChanges { created, deleted, clear_entire_old_graph: reset }
}

/// The common suffix of a walk with itself is the whole walk.
proof fn lemma_suffix_self(v: Seq<Seq<char>>)
    ensures
        spec_suffix_len(v, v) == v.len(),
    decreases v.len(),
{
    if v.len() > 0 {
        lemma_suffix_self(v.drop_last());
    }
}

/// Appending a run of rows on top of an unchanged walk leaves the whole
/// old walk as common suffix.
proof fn lemma_suffix_of_append(added: Seq<Seq<char>>, base: Seq<Seq<char>>)
    ensures
        spec_suffix_len(base, added + base) == base.len(),
    decreases base.len(),
{
    if base.len() == 0 {
    } else {
        assert((added + base).last() == base.last());
        assert((added + base).drop_last() =~= added + base.drop_last());
        lemma_suffix_of_append(added, base.drop_last());
    }
}

/// Two walks that end in the same shared history but diverge right above
/// it have exactly that history as common suffix.
proof fn lemma_suffix_of_divergence(
    old_top: Seq<Seq<char>>,
    new_top: Seq<Seq<char>>,
    base: Seq<Seq<char>>,
)
    requires
        old_top.len() > 0,
        new_top.len() > 0,
        old_top.last() != new_top.last(),
    ensures
        spec_suffix_len(old_top + base, new_top + base) == base.len(),
    decreases base.len(),
{
    if base.len() == 0 {
        assert((old_top + base) =~= old_top);
        assert((new_top + base) =~= new_top);
    } else {
        assert((old_top + base).last() == base.last());
        assert((new_top + base).last() == base.last());
        assert((old_top + base).drop_last() =~= old_top + base.drop_last());
        assert((new_top + base).drop_last() =~= new_top + base.drop_last());
        lemma_suffix_of_divergence(old_top, new_top, base.drop_last());
    }
}

/// Law: diffing an unchanged walk against itself yields no created rows,
/// no deleted rows and no full reset, under every strategy that walks.
pub proof fn lemma_diff_unchanged(ops: GraphOps, v: Seq<Seq<char>>, r: SHAChanges)
    requires
        walk_required(ops),
        diff_matches(ops, v, v, r),
    ensures
        r.created@.len() == 0,
        r.deleted@.len() == 0,
        !r.clear_entire_old_graph,
{
    lemma_suffix_self(v);
}

/// Law: appending new rows on top of unchanged history, under the
/// prepend-only strategy, creates exactly the new rows, deletes nothing
/// and never resets.
pub proof fn lemma_diff_prepend(added: Seq<Seq<char>>, base: Seq<Seq<char>>, r: SHAChanges)
    requires
        diff_matches(GraphOps::PrependOnly, base, added + base, r),
    ensures
        r.created@.len() == added.len(),
        forall|i: int| 0 <= i < added.len() ==> (#[trigger] r.created@[i])@ == (added[i], i),
        r.deleted@.len() == 0,
        !r.clear_entire_old_graph,
{
    lemma_suffix_of_append(added, base);
    assert forall|i: int| 0 <= i < added.len() implies (#[trigger] r.created@[i])@ == (
        added[i],
        i,
    ) by {
        assert(r.created@[i]@ == ((added + base)[i], i));
        assert((added + base)[i] == added[i]);
    }
}

/// Law: a history rewrite that replaces the rows above an unchanged,
/// non-empty shared history deletes exactly the replaced rows, creates
/// exactly the replacement rows, and does not reset.
pub proof fn lemma_diff_rewrite(
    old_top: Seq<Seq<char>>,
    new_top: Seq<Seq<char>>,
    base: Seq<Seq<char>>,
    r: SHAChanges,
)
    requires
        old_top.len() > 0,
        new_top.len() > 0,
        old_top.last() != new_top.last(),
        base.len() > 0,
        diff_matches(GraphOps::PossibleRewrite, old_top + base, new_top + base, r),
    ensures
        r.created@.len() == new_top.len(),
        forall|i: int| 0 <= i < new_top.len() ==> (#[trigger] r.created@[i])@ == (new_top[i], i),
        r.deleted@.len() == old_top.len(),
        forall|i: int| 0 <= i < old_top.len() ==> (#[trigger] r.deleted@[i])@ == (old_top[i], i),
        !r.clear_entire_old_graph,
{
    lemma_suffix_of_divergence(old_top, new_top, base);
    assert forall|i: int| 0 <= i < new_top.len() implies (#[trigger] r.created@[i])@ == (
        new_top[i],
        i,
    ) by {
        assert(r.created@[i]@ == ((new_top + base)[i], i));
        assert((new_top + base)[i] == new_top[i]);
    }
    assert forall|i: int| 0 <= i < old_top.len() implies (#[trigger] r.deleted@[i])@ == (
        old_top[i],
        i,
    ) by {
        assert(r.deleted@[i]@ == ((old_top + base)[i], i));
        assert((old_top + base)[i] == old_top[i]);
    }
}

/// Law: switching to a walk with no shared ancestry yields a full reset
/// under the unknown strategy, with every new row created and every old
/// row deleted.
pub proof fn lemma_diff_unrelated(a: Seq<Seq<char>>, b: Seq<Seq<char>>, r: SHAChanges)
    requires
        a.len() > 0,
        b.len() > 0,
        a.last() != b.last(),
        diff_matches(GraphOps::Unknown, a, b, r),
    ensures
        r.clear_entire_old_graph,
        r.created@.len() == b.len(),
        r.deleted@.len() == a.len(),
{
}

/// Law: whenever the differ declares a full reset, nothing was kept:
/// created covers every row of the new walk and deleted every row of
/// the old walk.
pub proof fn lemma_full_reset_complete(
    ops: GraphOps,
    a: Seq<Seq<char>>,
    b: Seq<Seq<char>>,
    r: SHAChanges,
)
    requires
        walk_required(ops),
        diff_matches(ops, a, b, r),
        r.clear_entire_old_graph,
    ensures
        r.created@.len() == b.len(),
        forall|i: int| 0 <= i < b.len() ==> (#[trigger] r.created@[i])@ == (b[i], i),
        r.deleted@.len() == a.len(),
        forall|i: int| 0 <= i < a.len() ==> (#[trigger] r.deleted@[i])@ == (a[i], i),
{
}

} // verus!
