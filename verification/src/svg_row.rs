use vstd::prelude::*;
use crate::error::GraphError;

verus! {

/// The raw facts the repository backend reports about one commit of the
/// new walk, in walk order (newest first). A summary of `None` records
/// text that could not be decoded.
#[derive(Debug)]
pub struct CommitFact {
    pub oid: String,
    pub summary: Option<String>,
    pub parent_oids: Vec<String>,
}

/// The mathematical content of a commit fact.
pub struct CommitFactView {
    pub oid: Seq<char>,
    pub summary: Option<Seq<char>>,
    pub parents: Seq<Seq<char>>,
}

impl View for CommitFact {
    type V = CommitFactView;

    open spec fn view(&self) -> CommitFactView {
        CommitFactView {
            oid: self.oid@,
            summary: self.summary.deep_view(),
            parents: self.parent_oids.deep_view(),
        }
    }
}

/// The views of a whole walk of commit facts.
pub open spec fn walk_view(w: Seq<CommitFact>) -> Seq<CommitFactView> {
    w.map_values(|c: CommitFact| c@)
}

/// Every summary in the walk was decodable text.
pub open spec fn facts_decodable(w: Seq<CommitFactView>) -> bool {
    forall|i: int| 0 <= i < w.len() ==> (#[trigger] w[i]).summary is Some
}

/// One laid-out commit row: identity, text, resolved relations and its
/// position in the graph (lane `x`, row `y`).
#[derive(Debug)]
pub struct SVGRow {
    pub sha: String,
    pub summary: String,
    pub parent_oids: Vec<String>,
    pub child_oids: Vec<String>,
    pub x: usize,
    pub y: usize,
}

/// The mathematical content of a row.
pub struct SVGRowView {
    pub sha: Seq<char>,
    pub summary: Seq<char>,
    pub parents: Seq<Seq<char>>,
    pub children: Seq<Seq<char>>,
    pub x: int,
    pub y: int,
}

impl View for SVGRow {
    type V = SVGRowView;

    open spec fn view(&self) -> SVGRowView {
        SVGRowView {
            sha: self.sha@,
            summary: self.summary@,
            parents: self.parent_oids.deep_view(),
            children: self.child_oids.deep_view(),
            x: self.x as int,
            y: self.y as int,
        }
    }
}

/// The views of a list of rows.
pub open spec fn rows_view(s: Seq<SVGRow>) -> Seq<SVGRowView> {
    s.map_values(|r: SVGRow| r@)
}

impl SVGRow {
    pub fn new(
        sha: String,
        summary: String,
        parent_oids: Vec<String>,
        child_oids: Vec<String>,
        x: usize,
        y: usize,
    ) -> (r: SVGRow)
        ensures
            r@.sha == sha@,
            r@.summary == summary@,
            r@.parents == parent_oids.deep_view(),
            r@.children == child_oids.deep_view(),
            r@.x == x as int,
            r@.y == y as int,
    {
        SVGRow { sha, summary, parent_oids, child_oids, x, y }
    }
}

/// The child entries one commit contributes to `target`: its oid once for
/// every time `target` appears in its parent list.
pub open spec fn child_contribution(
    parents: Seq<Seq<char>>,
    target: Seq<char>,
    child: Seq<char>,
) -> Seq<Seq<char>>
    decreases parents.len(),
{
    if parents.len() == 0 {
        Seq::empty()
    } else {
        child_contribution(parents.drop_last(), target, child) + if parents.last() == target {
            seq![child]
        } else {
            Seq::empty()
        }
    }
}

/// The child-oid list of the commit `target`, discovered by
/// cross-referencing the parent lists of the whole walk in row order.
pub open spec fn spec_children(w: Seq<CommitFactView>, target: Seq<char>) -> Seq<Seq<char>>
    decreases w.len(),
{
    if w.len() == 0 {
        Seq::empty()
    } else {
        spec_children(w.drop_last(), target) + child_contribution(
            w.last().parents,
            target,
            w.last().oid,
        )
    }
}

/// Clones a list of oids.
pub fn clone_string_vec(v: &Vec<String>) -> (r: Vec<String>)
    ensures
        r.deep_view() == v.deep_view(),
{
    let mut r: Vec<String> = Vec::new();
    let mut i: usize = 0;
    while i < v.len()
        invariant
            i <= v@.len(),
            r@.len() == i,
            forall|j: int| 0 <= j < i ==> (#[trigger] r@[j])@ == v@[j]@,
        decreases v@.len() - i,
    {
        r.push(v[i].clone());
        i = i + 1;
    }
    proof {
        assert(r.deep_view() =~= v.deep_view());
    }
    r
}

/// Collects the children of `target` by scanning every commit's parent
/// list in row order.
fn children_of(walk: &Vec<CommitFact>, target: &String) -> (r: Vec<String>)
    ensures
        r.deep_view() == spec_children(walk_view(walk@), target@),
{
    let ghost w = walk_view(walk@);
    let mut r: Vec<String> = Vec::new();
    let mut i: usize = 0;
    while i < walk.len()
        invariant
            i <= walk@.len(),
            w == walk_view(walk@),
            r@.len() == spec_children(w.take(i as int), target@).len(),
            forall|j: int|
                0 <= j < r@.len() ==> (#[trigger] r@[j])@ == spec_children(
                    w.take(i as int),
                    target@,
                )[j],
        decreases walk@.len() - i,
    {
        let ghost done = spec_children(w.take(i as int), target@);
        let parents = &walk[i].parent_oids;
        let ghost ps = w[i as int].parents;
        assert(ps == parents.deep_view());
        let mut p: usize = 0;
        while p < parents.len()
            invariant
                p <= parents@.len(),
                i < walk@.len(),
                w == walk_view(walk@),
                ps == parents.deep_view(),
                parents@ == walk@[i as int].parent_oids@,
                w[i as int].oid == walk@[i as int].oid@,
                r@.len() == done.len() + child_contribution(
                    ps.take(p as int),
                    target@,
                    w[i as int].oid,
                ).len(),
                forall|j: int|
                    0 <= j < r@.len() ==> (#[trigger] r@[j])@ == (done + child_contribution(
                        ps.take(p as int),
                        target@,
                        w[i as int].oid,
                    ))[j],
            decreases parents@.len() - p,
        {
            let ghost before = done + child_contribution(ps.take(p as int), target@, w[i as int].oid);
            proof {
                let pt = ps.take(p + 1);
                assert(pt.drop_last() =~= ps.take(p as int));
                assert(pt.last() == ps[p as int]);
                assert(ps[p as int] == parents@[p as int]@);
            }
            if parents[p] == *target {
                r.push(walk[i].oid.clone());
                proof {
                    assert(done + child_contribution(ps.take(p + 1), target@, w[i as int].oid)
                        =~= before.push(w[i as int].oid));
                }
            } else {
                proof {
                    assert(done + child_contribution(ps.take(p + 1), target@, w[i as int].oid)
                        =~= before);
                }
            }
            p = p + 1;
        }
        proof {
            assert(ps.take(ps.len() as int) =~= ps);
            let wt = w.take(i + 1);
            assert(wt.drop_last() =~= w.take(i as int));
            assert(wt.last() == w[i as int]);
            assert(spec_children(w.take(i + 1), target@) =~= done + child_contribution(
                ps,
                target@,
                w[i as int].oid,
            ));
        }
        i = i + 1;
    }
    proof {
        assert(w.take(w.len() as int) =~= w);
        assert(r.deep_view() =~= spec_children(w, target@));
    }
    r
}

/// What the builder guarantees about one materialized row: identity,
/// summary and parent list taken from the walk entry at its index,
/// contiguous row index, lane not yet assigned, and the child list
/// discovered by cross-referencing the walk.
pub open spec fn built_row_ok(w: Seq<CommitFactView>, row: SVGRowView, i: int) -> bool {
    &&& row.sha == w[i].oid
    &&& w[i].summary == Some(row.summary)
    &&& row.parents == w[i].parents
    &&& row.children == spec_children(w, w[i].oid)
    &&& row.x == 0
    &&& row.y == i
}

/// Everything the builder guarantees about the rows it materializes.
pub open spec fn built_rows_ok(w: Seq<CommitFactView>, rows: Seq<SVGRowView>) -> bool {
    &&& rows.len() == w.len()
    &&& forall|i: int| 0 <= i < w.len() ==> built_row_ok(w, #[trigger] rows[i], i)
}

/// Materializes the rows of a walk into a linked node list: row index =
/// position in the walk, parent oids as reported, child oids discovered
/// by cross-referencing within the walk. Fails, without partial output,
/// when any commit summary was not decodable text.
pub fn get_commit_info_list(walk: &Vec<CommitFact>) -> (r: Result<Vec<SVGRow>, GraphError>)
    ensures
        r is Ok <==> facts_decodable(walk_view(walk@)),
        r matches Err(e) ==> e is NonUtf8Text,
        r matches Ok(rows) ==> built_rows_ok(walk_view(walk@), rows_view(rows@)),
{
    let ghost w = walk_view(walk@);
    let mut rows: Vec<SVGRow> = Vec::new();
    let mut i: usize = 0;
    while i < walk.len()
        invariant
            i <= walk@.len(),
            w == walk_view(walk@),
            rows@.len() == i,
            forall|j: int| 0 <= j < i ==> (#[trigger] w[j]).summary is Some,
            forall|j: int| 0 <= j < i ==> built_row_ok(w, (#[trigger] rows@[j])@, j),
        decreases walk@.len() - i,
    {
        let summary = match &walk[i].summary {
            Some(s) => s.clone(),
            None => {
                proof {
                    assert(w[i as int].summary is None);
                }
                return Err(GraphError::NonUtf8Text);
            },
        };
        let children = children_of(walk, &walk[i].oid);
        let parents = clone_string_vec(&walk[i].parent_oids);
        let row = SVGRow {
            sha: walk[i].oid.clone(),
            summary,
            parent_oids: parents,
            child_oids: children,
            x: 0,
            y: i,
        };
        proof {
            assert(built_row_ok(w, row@, i as int));
        }
        rows.push(row);
        i = i + 1;
    }
    proof {
        assert forall|j: int| 0 <= j < w.len() implies built_row_ok(
            w,
            #[trigger] rows_view(rows@)[j],
            j,
        ) by {
            assert(rows_view(rows@)[j] == rows@[j]@);
        }
    }
    Ok(rows)
}

/// Law: the rows built from a walk of N commits carry the row indices
/// 0 through N-1, each exactly once.
pub proof fn lemma_rows_contiguous(w: Seq<CommitFactView>, rows: Seq<SVGRowView>)
    requires
        built_rows_ok(w, rows),
    ensures
        forall|i: int, j: int| 0 <= i < j < rows.len() ==> rows[i].y != rows[j].y,
        rows.map_values(|r: SVGRowView| r.y).to_set() =~= Set::new(|k: int| 0 <= k < rows.len()),
{
    let ys = rows.map_values(|r: SVGRowView| r.y);
    let range = Set::new(|k0: int| 0 <= k0 < rows.len());
    assert forall|k: int| #[trigger] range.contains(k) implies ys.to_set().contains(k) by {
        assert(ys[k] == k);
    }
    assert forall|k: int| #[trigger] ys.to_set().contains(k) implies range.contains(k) by {
        let i = choose|i: int| 0 <= i < ys.len() && ys[i] == k;
        assert(rows[i].y == i);
    }
    assert(ys.to_set() =~= range);
}

/// One connector of a row: from the commit's own point down to one of
/// its parents. A straight connector keeps its lane; a bend changes it.
#[derive(Clone, Copy, PartialEq, Eq, Structural, Debug)]
pub struct Connector {
    pub start_lane: usize,
    pub start_row: usize,
    pub end_lane: usize,
    pub end_row: usize,
    pub is_bend: bool,
}

/// The draw properties of one row: its own point and one connector per
/// parent that is represented in the walk.
#[derive(Debug)]
pub struct RowDrawProperty {
    pub oid: String,
    pub lane: usize,
    pub row: usize,
    pub connectors: Vec<Connector>,
}

/// The first row at or after `i` whose commit is `oid`.
pub open spec fn find_row_from(rows: Seq<SVGRowView>, oid: Seq<char>, i: int) -> Option<int>
    decreases rows.len() - i when 0 <= i <= rows.len()
{
    if i < 0 || i >= rows.len() {
        None
    } else if rows[i].sha == oid {
        Some(i)
    } else {
        find_row_from(rows, oid, i + 1)
    }
}

proof fn lemma_find_row_skip(rows: Seq<SVGRowView>, oid: Seq<char>, i: int)
    requires
        0 <= i <= rows.len(),
        forall|j: int| 0 <= j < i ==> (#[trigger] rows[j]).sha != oid,
    ensures
        find_row_from(rows, oid, 0) == find_row_from(rows, oid, i),
    decreases i,
{
    if i > 0 {
        lemma_find_row_skip(rows, oid, i - 1);
    }
}

/// Finds the row of the commit `oid`, if it is represented in the walk.
fn find_row(rows: &Vec<SVGRow>, oid: &String) -> (r: Option<usize>)
    ensures
        match r {
            Some(i) => i < rows@.len() && find_row_from(rows_view(rows@), oid@, 0) == Some(
                i as int,
            ),
            None => find_row_from(rows_view(rows@), oid@, 0) is None,
        },
{
    let ghost rv = rows_view(rows@);
    let mut i: usize = 0;
    while i < rows.len()
        invariant
            i <= rows@.len(),
            rv == rows_view(rows@),
            forall|j: int| 0 <= j < i ==> (#[trigger] rv[j]).sha != oid@,
        decreases rows@.len() - i,
    {
        if rows[i].sha == *oid {
            proof {
                lemma_find_row_skip(rv, oid@, i as int);
            }
            return Some(i);
        }
        proof {
            assert(rv[i as int].sha == rows@[i as int].sha@);
        }
        i = i + 1;
    }
    proof {
        lemma_find_row_skip(rv, oid@, rows@.len() as int);
    }
    None
}

/// The connectors of row `r` for its first `k` parents: one connector per
/// parent represented in the walk, straight when the lanes agree and a
/// bend otherwise.
pub open spec fn spec_connectors_upto(rows: Seq<SVGRowView>, r: int, k: int) -> Seq<Connector>
    decreases k,
{
    if k <= 0 {
        Seq::empty()
    } else {
        spec_connectors_upto(rows, r, k - 1) + match find_row_from(rows, rows[r].parents[k - 1], 0) {
            Some(p) => seq![
                Connector {
                    start_lane: rows[r].x as usize,
                    start_row: rows[r].y as usize,
                    end_lane: rows[p].x as usize,
                    end_row: rows[p].y as usize,
                    is_bend: rows[r].x != rows[p].x,
                },
            ],
            None => Seq::empty(),
        }
    }
}

/// All connectors of row `r`.
pub open spec fn spec_connectors(rows: Seq<SVGRowView>, r: int) -> Seq<Connector> {
    spec_connectors_upto(rows, r, rows[r].parents.len() as int)
}

/// What the emitter guarantees about one row's draw property.
pub open spec fn draw_property_ok(rows: Seq<SVGRowView>, prop: RowDrawProperty, r: int) -> bool {
    &&& prop.oid@ == rows[r].sha
    &&& prop.lane as int == rows[r].x
    &&& prop.row as int == rows[r].y
    &&& prop.connectors@ == spec_connectors(rows, r)
}

/// Everything the emitter guarantees: one draw property per row, carrying
/// the row's identity and position, and exactly the connectors of
/// `spec_connectors`.
pub open spec fn draw_properties_ok(rows: Seq<SVGRowView>, props: Seq<RowDrawProperty>) -> bool {
    &&& props.len() == rows.len()
    &&& forall|r: int| 0 <= r < rows.len() ==> draw_property_ok(rows, #[trigger] props[r], r)
}

/// Emits the per-row draw properties: each commit's own (lane, row) point
/// and, for every parent represented in the walk, a connector to the
/// parent's point, marked as a bend when the lanes differ.
pub fn get_draw_properties(rows: &Vec<SVGRow>) -> (props: Vec<RowDrawProperty>)
    ensures
        draw_properties_ok(rows_view(rows@), props@),
{
    let ghost rv = rows_view(rows@);
    let mut props: Vec<RowDrawProperty> = Vec::new();
    let mut r: usize = 0;
    while r < rows.len()
        invariant
            r <= rows@.len(),
            rv == rows_view(rows@),
            props@.len() == r,
            forall|t: int| 0 <= t < r ==> draw_property_ok(rv, #[trigger] props@[t], t),
        decreases rows@.len() - r,
    {
        let mut connectors: Vec<Connector> = Vec::new();
        let pcount = rows[r].parent_oids.len();
        assert(pcount == rv[r as int].parents.len());
        let mut k: usize = 0;
        while k < pcount
            invariant
                k <= pcount,
                rv == rows_view(rows@),
                r < rows@.len(),
                pcount == rv[r as int].parents.len(),
                rows@[r as int].parent_oids@.len() == pcount,
                connectors@ == spec_connectors_upto(rv, r as int, k as int),
            decreases pcount - k,
        {
            let parent_oid = &rows[r].parent_oids[k];
            assert(parent_oid@ == rv[r as int].parents[k as int]);
            let ghost conn_old = connectors@;
            match find_row(rows, parent_oid) {
                Some(p) => {
                    let c = Connector {
                        start_lane: rows[r].x,
                        start_row: rows[r].y,
                        end_lane: rows[p].x,
                        end_row: rows[p].y,
                        is_bend: rows[r].x != rows[p].x,
                    };
                    proof {
                        assert(rv[p as int].x == rows@[p as int].x as int);
                    }
                    connectors.push(c);
                    proof {
                        assert(connectors@ =~= spec_connectors_upto(rv, r as int, k + 1));
                    }
                },
                None => {
                    proof {
                        assert(connectors@ =~= spec_connectors_upto(rv, r as int, k + 1));
                    }
                },
            }
            k = k + 1;
        }
        let prop = RowDrawProperty {
            oid: rows[r].sha.clone(),
            lane: rows[r].x,
            row: rows[r].y,
            connectors,
        };
        proof {
            assert(draw_property_ok(rv, prop, r as int));
        }
        props.push(prop);
        r = r + 1;
    }
    props
}

} // verus!
