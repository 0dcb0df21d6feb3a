use vstd::prelude::*;
use vstd::pervasive::VecAdditionalExecFns;
use vstd::seq_lib::seq_to_set_is_finite;
use vstd::set_lib::lemma_int_range;
use vstd::set_lib::lemma_len_subset;
use vstd::set_lib::set_int_range;
use crate::svg_row::SVGRow;
use crate::svg_row::SVGRowView;
use crate::svg_row::rows_view;

verus! {

/// One open lane reservation: the edge of a still-unreached parent
/// commit, travelling down the given lane until the row of `target`.
#[derive(Debug)]
pub struct LaneReservation {
    pub target: String,
    pub lane: usize,
}

/// The mathematical content of a reservation.
pub struct LaneReservationView {
    pub target: Seq<char>,
    pub lane: int,
}

impl View for LaneReservation {
    type V = LaneReservationView;

    open spec fn view(&self) -> LaneReservationView {
        LaneReservationView { target: self.target@, lane: self.lane as int }
    }
}

/// The views of a list of reservations.
pub open spec fn res_view(s: Seq<LaneReservation>) -> Seq<LaneReservationView> {
    s.map_values(|r: LaneReservation| r@)
}

/// One row of the occupied table: the reservations open before and
/// after the row's commit was placed.
#[derive(Debug)]
pub struct OccupiedRow {
    pub open_before: Vec<LaneReservation>,
    pub open_after: Vec<LaneReservation>,
}

/// The mathematical content of an occupied-table row.
pub struct OccupiedRowView {
    pub before: Seq<LaneReservationView>,
    pub after: Seq<LaneReservationView>,
}

impl View for OccupiedRow {
    type V = OccupiedRowView;

    open spec fn view(&self) -> OccupiedRowView {
        OccupiedRowView { before: res_view(self.open_before@), after: res_view(self.open_after@) }
    }
}

/// The views of the table rows.
pub open spec fn table_view(t: Seq<OccupiedRow>) -> Seq<OccupiedRowView> {
    t.map_values(|o: OccupiedRow| o@)
}

/// The occupied table: per row, the full set of lanes open before and
/// after processing, used to route connectors around other nodes and to
/// pick free lanes.
#[derive(Debug)]
pub struct OccupiedTable {
    pub rows: Vec<OccupiedRow>,
}

/// Some open reservation runs down `lane`.
pub open spec fn occupied(rs: Seq<LaneReservationView>, lane: int) -> bool {
    exists|i: int| 0 <= i < rs.len() && (#[trigger] rs[i]).lane == lane
}

/// Some open reservation is waiting for the commit `oid`.
pub open spec fn targets_oid(rs: Seq<LaneReservationView>, oid: Seq<char>) -> bool {
    exists|i: int| 0 <= i < rs.len() && (#[trigger] rs[i]).target == oid
}

/// No two distinct open reservations share a lane index.
pub open spec fn lanes_distinct(rs: Seq<LaneReservationView>) -> bool {
    forall|i: int, j: int|
        0 <= i < j < rs.len() ==> (#[trigger] rs[i]).lane != (#[trigger] rs[j]).lane
}

/// `lane` is the lowest lane index that no open reservation uses.
pub open spec fn is_min_free(rs: Seq<LaneReservationView>, lane: int) -> bool {
    &&& !occupied(rs, lane)
    &&& forall|k: int| 0 <= k < lane ==> occupied(rs, k)
}

/// Closing every reservation that waits for `oid`: the remaining
/// reservations, in order.
pub open spec fn spec_close(rs: Seq<LaneReservationView>, oid: Seq<char>) -> Seq<
    LaneReservationView,
>
    decreases rs.len(),
{
    if rs.len() == 0 {
        Seq::empty()
    } else {
        spec_close(rs.drop_last(), oid) + if rs.last().target != oid {
            seq![rs.last()]
        } else {
            Seq::empty()
        }
    }
}

/// The lane a commit is placed at: if reservations are already waiting
/// for it, the lowest lane among them (the others converge there);
/// otherwise it is a new branch tip and takes the lowest free lane.
pub open spec fn row_lane_ok(before: Seq<LaneReservationView>, sha: Seq<char>, lane: int) -> bool {
    if targets_oid(before, sha) {
        &&& exists|i: int|
            0 <= i < before.len() && (#[trigger] before[i]).target == sha && before[i].lane == lane
        &&& forall|i: int|
            0 <= i < before.len() && (#[trigger] before[i]).target == sha ==> before[i].lane
                >= lane
    } else {
        is_min_free(before, lane)
    }
}

/// The reservations open after a row: every reservation waiting for the
/// row's commit is closed, then one reservation is opened per parent, in
/// parent order, each at the lowest lane free at the moment of opening.
pub open spec fn row_after_ok(
    before: Seq<LaneReservationView>,
    after: Seq<LaneReservationView>,
    sha: Seq<char>,
    parents: Seq<Seq<char>>,
) -> bool {
    let closed = spec_close(before, sha);
    &&& after.len() == closed.len() + parents.len()
    &&& after.take(closed.len() as int) == closed
    &&& forall|j: int|
        0 <= j < parents.len() ==> {
            &&& (#[trigger] after[closed.len() + j]).target == parents[j]
            &&& is_min_free(after.take(closed.len() + j), after[closed.len() + j].lane)
        }
}

/// Everything the lane allocator guarantees about one table row.
pub open spec fn table_row_ok(rows: Seq<SVGRowView>, t: Seq<OccupiedRowView>, r: int) -> bool {
    &&& (r == 0 ==> t[r].before == Seq::<LaneReservationView>::empty())
    &&& (r > 0 ==> t[r].before == t[r - 1].after)
    &&& row_lane_ok(t[r].before, rows[r].sha, rows[r].x)
    &&& row_after_ok(t[r].before, t[r].after, rows[r].sha, rows[r].parents)
    &&& lanes_distinct(t[r].before)
    &&& lanes_distinct(t[r].after)
}

/// Everything the lane allocator guarantees about the whole table: rows
/// are processed newest to oldest starting from no open reservations,
/// each row's lane and reservation transition is pinned down, and at no
/// row do two open reservations share a lane.
pub open spec fn table_ok(rows: Seq<SVGRowView>, t: Seq<OccupiedRowView>) -> bool {
    &&& t.len() == rows.len()
    &&& forall|r: int| 0 <= r < rows.len() ==> #[trigger] table_row_ok(rows, t, r)
}

/// The lane assignment leaves every field of a row untouched except `x`.
pub open spec fn lane_only_update(a: SVGRowView, b: SVGRowView) -> bool {
    &&& b.sha == a.sha
    &&& b.summary == a.summary
    &&& b.parents == a.parents
    &&& b.children == a.children
    &&& b.y == a.y
}

/// Whether any open reservation uses `lane`.
fn has_lane(open: &Vec<LaneReservation>, lane: usize) -> (b: bool)
    ensures
        b == occupied(res_view(open@), lane as int),
{
    let ghost rv = res_view(open@);
    let mut i: usize = 0;
    while i < open.len()
        invariant
            i <= open@.len(),
            rv == res_view(open@),
            forall|j: int| 0 <= j < i ==> (#[trigger] rv[j]).lane != lane as int,
        decreases open@.len() - i,
    {
        if open[i].lane == lane {
            assert(rv[i as int].lane == lane as int);
            return true;
        }
        i = i + 1;
    }
    false
}

/// Pigeonhole: with distinct lanes, the reservations cannot occupy every
/// lane from 0 through their own count, so some lane in that range is
/// free.
proof fn lemma_some_lane_free(rs: Seq<LaneReservationView>)
    requires
        lanes_distinct(rs),
    ensures
        exists|k: int| 0 <= k <= rs.len() && !occupied(rs, k),
{
    if forall|k: int| 0 <= k <= rs.len() ==> occupied(rs, k) {
        let lanes = rs.map_values(|v: LaneReservationView| v.lane);
        assert(lanes.no_duplicates()) by {
            assert forall|i: int, j: int|
                0 <= i < lanes.len() && 0 <= j < lanes.len() && i != j implies lanes[i]
                != lanes[j] by {
                if i < j {
                    assert(rs[i].lane != rs[j].lane);
                } else {
                    assert(rs[j].lane != rs[i].lane);
                }
            }
        }
        lanes.unique_seq_to_set();
        let range = set_int_range(0, rs.len() as int + 1);
        lemma_int_range(0, rs.len() as int + 1);
        assert forall|k: int| #[trigger] range.contains(k) implies lanes.to_set().contains(k) by {
            assert(occupied(rs, k));
            let i = choose|i: int| 0 <= i < rs.len() && (#[trigger] rs[i]).lane == k;
            assert(lanes[i] == k);
            assert(lanes.contains(k));
        }
        seq_to_set_is_finite(lanes);
        lemma_len_subset(range, lanes.to_set());
    }
}

/// The lowest lane index not currently open: first fit over the
/// contiguous range of in-use lanes, extending the lane count by one
/// only when every existing lane is occupied.
fn lowest_free_lane(open: &Vec<LaneReservation>) -> (l: usize)
    requires
        lanes_distinct(res_view(open@)),
    ensures
        is_min_free(res_view(open@), l as int),
{
    let ghost rv = res_view(open@);
    let n = open.len();
    let mut cand: usize = 0;
    while cand < n
        invariant
            cand <= n,
            n == open@.len(),
            rv == res_view(open@),
            forall|k: int| 0 <= k < cand ==> occupied(rv, k),
        decreases n - cand,
    {
        if !has_lane(open, cand) {
            return cand;
        }
        cand = cand + 1;
    }
    proof {
        lemma_some_lane_free(rv);
        let k = choose|k: int| 0 <= k <= rv.len() && !occupied(rv, k);
        assert(k == rv.len() as int);
    }
    n
}

/// The lowest lane among the open reservations waiting for `oid`, if any.
fn min_target_lane(open: &Vec<LaneReservation>, oid: &String) -> (r: Option<usize>)
    ensures
        match r {
            Some(l) => {
                &&& exists|i: int|
                    0 <= i < open@.len() && (#[trigger] res_view(open@)[i]).target == oid@
                        && res_view(open@)[i].lane == l as int
                &&& forall|i: int|
                    0 <= i < open@.len() && (#[trigger] res_view(open@)[i]).target == oid@
                        ==> res_view(open@)[i].lane >= l as int
            },
            None => !targets_oid(res_view(open@), oid@),
        },
{
    let ghost rv = res_view(open@);
    let mut best: Option<usize> = None;
    let mut i: usize = 0;
    while i < open.len()
        invariant
            i <= open@.len(),
            rv == res_view(open@),
            match best {
                Some(b) => {
                    &&& exists|t: int|
                        0 <= t < i && (#[trigger] rv[t]).target == oid@ && rv[t].lane == b as int
                    &&& forall|t: int|
                        0 <= t < i && (#[trigger] rv[t]).target == oid@ ==> rv[t].lane >= b as int
                },
                None => forall|t: int| 0 <= t < i ==> (#[trigger] rv[t]).target != oid@,
            },
        decreases open@.len() - i,
    {
        if open[i].target == *oid {
            proof {
                assert(rv[i as int].target == oid@);
            }
            best = match best {
                None => Some(open[i].lane),
                Some(b) => if open[i].lane < b {
                    Some(open[i].lane)
                } else {
                    Some(b)
                },
            };
        } else {
            proof {
                assert(rv[i as int].target != oid@);
            }
        }
        i = i + 1;
    }
    best
}

/// Closing reservations never opens a lane that was not open before,
/// keeps lanes distinct, and leaves no reservation waiting for `oid`.
proof fn lemma_close_properties(rs: Seq<LaneReservationView>, oid: Seq<char>)
    requires
        lanes_distinct(rs),
    ensures
        lanes_distinct(spec_close(rs, oid)),
        forall|l: int| occupied(spec_close(rs, oid), l) ==> occupied(rs, l),
        !targets_oid(spec_close(rs, oid), oid),
    decreases rs.len(),
{
    if rs.len() > 0 {
        let prefix = rs.drop_last();
        lemma_close_properties(prefix, oid);
        let c = spec_close(rs, oid);
        let cp = spec_close(prefix, oid);
        let kept = if rs.last().target != oid {
            seq![rs.last()]
        } else {
            Seq::<LaneReservationView>::empty()
        };
        assert(c == cp + kept);
        assert(forall|i: int| 0 <= i < prefix.len() ==> #[trigger] prefix[i] == rs[i]);
        assert forall|l: int| occupied(c, l) implies occupied(rs, l) by {
            let i = choose|i: int| 0 <= i < c.len() && (#[trigger] c[i]).lane == l;
            if i < cp.len() {
                assert(cp[i].lane == l);
                assert(occupied(cp, l));
                assert(occupied(prefix, l));
                let t = choose|t: int| 0 <= t < prefix.len() && (#[trigger] prefix[t]).lane == l;
                assert(rs[t].lane == l);
            } else {
                assert(c[i] == rs.last());
                assert(rs[rs.len() - 1].lane == l);
            }
        }
        if rs.last().target != oid {
            assert(lanes_distinct(c)) by {
                assert forall|i: int, j: int| 0 <= i < j < c.len() implies (#[trigger] c[i]).lane
                    != (#[trigger] c[j]).lane by {
                    if j < cp.len() {
                        assert(cp[i].lane != cp[j].lane);
                    } else {
                        assert(c[j] == rs.last());
                        assert(cp[i].lane == c[i].lane);
                        assert(occupied(cp, c[i].lane));
                        assert(occupied(prefix, c[i].lane));
                        let t = choose|t: int|
                            0 <= t < prefix.len() && (#[trigger] prefix[t]).lane == c[i].lane;
                        assert(rs[t].lane != rs[rs.len() - 1].lane);
                    }
                }
            }
            assert(!targets_oid(c, oid)) by {
                if targets_oid(c, oid) {
                    let i = choose|i: int| 0 <= i < c.len() && (#[trigger] c[i]).target == oid;
                    if i < cp.len() {
                        assert(cp[i].target == oid);
                        assert(targets_oid(cp, oid));
                    } else {
                        assert(c[i] == rs.last());
                    }
                }
            }
        } else {
            assert(c =~= cp);
        }
    }
}

/// Removes every reservation waiting for `oid`; their lanes become free.
fn close_target(open: Vec<LaneReservation>, oid: &String) -> (r: Vec<LaneReservation>)
    ensures
        res_view(r@) == spec_close(res_view(open@), oid@),
{
    let ghost rv = res_view(open@);
    let mut r: Vec<LaneReservation> = Vec::new();
    let mut i: usize = 0;
    while i < open.len()
        invariant
            i <= open@.len(),
            rv == res_view(open@),
            res_view(r@) == spec_close(rv.take(i as int), oid@),
        decreases open@.len() - i,
    {
        let ghost before = res_view(r@);
        proof {
            let t1 = rv.take(i + 1);
            assert(t1.drop_last() =~= rv.take(i as int));
            assert(t1.last() == rv[i as int]);
        }
        if !(open[i].target == *oid) {
            let keep = LaneReservation { target: open[i].target.clone(), lane: open[i].lane };
            proof {
                assert(keep@ == rv[i as int]);
            }
            r.push(keep);
            proof {
                assert(res_view(r@) =~= before.push(rv[i as int]));
                assert(spec_close(rv.take(i + 1), oid@) =~= before.push(rv[i as int]));
            }
        } else {
            proof {
                assert(rv[i as int].target == oid@);
                assert(spec_close(rv.take(i + 1), oid@) =~= before);
            }
        }
        i = i + 1;
    }
    proof {
        assert(rv.take(rv.len() as int) =~= rv);
    }
    r
}

/// Clones a list of reservations.
fn clone_reservations(v: &Vec<LaneReservation>) -> (r: Vec<LaneReservation>)
    ensures
        res_view(r@) == res_view(v@),
{
    let ghost rv = res_view(v@);
    let mut r: Vec<LaneReservation> = Vec::new();
    let mut i: usize = 0;
    while i < v.len()
        invariant
            i <= v@.len(),
            rv == res_view(v@),
            r@.len() == i,
            forall|j: int| 0 <= j < i ==> (#[trigger] r@[j])@ == rv[j],
        decreases v@.len() - i,
    {
        let c = LaneReservation { target: v[i].target.clone(), lane: v[i].lane };
        proof {
            assert(c@ == rv[i as int]);
        }
        r.push(c);
        i = i + 1;
    }
    proof {
        assert(res_view(r@) =~= res_view(v@));
    }
    r
}

/// Assigns a lane to every row, newest to oldest, and records the open
/// reservations before and after each row.
///
/// A row inherits the lowest lane among the reservations waiting for it,
/// or takes the lowest free lane when it is a new branch tip. All
/// reservations waiting for it are then closed and one reservation is
/// opened per parent, each at the lowest lane free at that moment, so a
/// straight descending branch keeps its lane. At no point do two open
/// reservations share a lane.
pub fn get_occupied_table(rows: &mut Vec<SVGRow>) -> (table: OccupiedTable)
    ensures
        final(rows)@.len() == old(rows)@.len(),
        forall|i: int|
            0 <= i < old(rows)@.len() ==> lane_only_update(
                (#[trigger] old(rows)@[i])@,
                final(rows)@[i]@,
            ),
        table.rows@.len() == old(rows)@.len(),
        table_ok(rows_view(final(rows)@), table_view(table.rows@)),
{
    let n = rows.len();
    let mut open: Vec<LaneReservation> = Vec::new();
    let mut trows: Vec<OccupiedRow> = Vec::new();
    let mut r: usize = 0;
    while r < n
        invariant
            r <= n,
            n == rows@.len(),
            n == old(rows)@.len(),
            forall|i: int|
                0 <= i < n ==> lane_only_update((#[trigger] old(rows)@[i])@, rows@[i]@),
            trows@.len() == r,
            lanes_distinct(res_view(open@)),
            res_view(open@) == if r == 0 {
                Seq::<LaneReservationView>::empty()
            } else {
                table_view(trows@)[r - 1].after
            },
            forall|t: int| 0 <= t < r ==> #[trigger] table_row_ok(
                rows_view(rows@),
                table_view(trows@),
                t,
            ),
        decreases n - r,
    {
        let ghost rows_pre = rows@;
        let ghost before_view = res_view(open@);
        let before_vec = clone_reservations(&open);

        let lane = match min_target_lane(&open, &rows[r].sha) {
            Some(l) => l,
            None => lowest_free_lane(&open),
        };
        proof {
            assert(row_lane_ok(before_view, rows@[r as int]@.sha, lane as int));
        }

        let mut tmp = SVGRow {
            sha: String::new(),
            summary: String::new(),
            parent_oids: Vec::new(),
            child_oids: Vec::new(),
            x: 0,
            y: 0,
        };
        rows.set_and_swap(r, &mut tmp);
        tmp.x = lane;
        rows.set_and_swap(r, &mut tmp);
        proof {
            assert(rows@ =~= rows_pre.update(r as int, rows@[r as int]));
            assert(rows@[r as int]@.x == lane as int);
            assert(lane_only_update(rows_pre[r as int]@, rows@[r as int]@));
        }

        let sha_c = rows[r].sha.clone();
        let ghost sha_v = rows@[r as int]@.sha;
        open = close_target(open, &sha_c);
        let ghost closed_view = res_view(open@);
        proof {
            lemma_close_properties(before_view, sha_v);
            assert(closed_view == spec_close(before_view, sha_v));
        }

        let pcount = rows[r].parent_oids.len();
        let mut j: usize = 0;
        while j < pcount
            invariant
                j <= pcount,
                r < rows@.len(),
                pcount == rows@[r as int].parent_oids@.len(),
                pcount == rows@[r as int]@.parents.len(),
                open@.len() == closed_view.len() + j,
                res_view(open@).take(closed_view.len() as int) == closed_view,
                lanes_distinct(res_view(open@)),
                forall|t: int|
                    closed_view.len() <= t < open@.len() ==> {
                        &&& (#[trigger] res_view(open@)[t]).target == rows@[
                            r as int
                        ]@.parents[t - closed_view.len()]
                        &&& is_min_free(res_view(open@).take(t), res_view(open@)[t].lane)
                    },
            decreases pcount - j,
        {
            let ghost ov = res_view(open@);
            let l = lowest_free_lane(&open);
            let res = LaneReservation { target: rows[r].parent_oids[j].clone(), lane: l };
            proof {
                assert(res@.target == rows@[r as int]@.parents[j as int]);
            }
            open.push(res);
            proof {
                let nv = res_view(open@);
                assert(nv =~= ov.push(res@));
                assert(nv.take(closed_view.len() as int) =~= ov.take(closed_view.len() as int));
                assert forall|t: int|
                    closed_view.len() <= t < nv.len() implies {
                    &&& (#[trigger] nv[t]).target == rows@[r as int]@.parents[t
                        - closed_view.len()]
                    &&& is_min_free(nv.take(t), nv[t].lane)
                } by {
                    if t < ov.len() {
                        assert(nv[t] == ov[t]);
                        assert(nv.take(t) =~= ov.take(t));
                    } else {
                        assert(nv[t] == res@);
                        assert(nv.take(t) =~= ov);
                    }
                }
                assert(lanes_distinct(nv)) by {
                    assert forall|a: int, b: int| 0 <= a < b < nv.len() implies (#[trigger] nv[a]).lane
                        != (#[trigger] nv[b]).lane by {
                        if b < ov.len() {
                            assert(ov[a].lane != ov[b].lane);
                        } else {
                            assert(nv[b] == res@);
                            if nv[a].lane == l as int {
                                assert(ov[a].lane == l as int);
                                assert(occupied(ov, l as int));
                            }
                        }
                    }
                }
            }
            j = j + 1;
        }

        let after_vec = clone_reservations(&open);
        let ghost after_view = res_view(open@);
        proof {
            assert(row_after_ok(before_view, after_view, sha_v, rows@[r as int]@.parents));
        }
        let ghost trows_pre = trows@;
        trows.push(OccupiedRow { open_before: before_vec, open_after: after_vec });
        proof {
            let tv = table_view(trows@);
            assert(tv[r as int].before == before_view);
            assert(tv[r as int].after == after_view);
            assert(table_row_ok(rows_view(rows@), tv, r as int));
            assert forall|t: int| 0 <= t < r + 1 implies #[trigger] table_row_ok(
                rows_view(rows@),
                tv,
                t,
            ) by {
                if t < r {
                    assert(table_row_ok(rows_view(rows_pre), table_view(trows_pre), t));
                    assert(tv[t] == table_view(trows_pre)[t]);
                    assert(t > 0 ==> tv[t - 1] == table_view(trows_pre)[t - 1]);
                    assert(rows_view(rows@)[t] == rows_view(rows_pre)[t]);
                }
            }
        }
        r = r + 1;
    }
    OccupiedTable { rows: trows }
}

/// Law: at no row of the occupied table do two distinct open lane
/// reservations share a lane index.
pub proof fn lemma_no_lane_collision(
    rows: Seq<SVGRowView>,
    t: Seq<OccupiedRowView>,
    r: int,
    i: int,
    j: int,
)
    requires
        table_ok(rows, t),
        0 <= r < t.len(),
        0 <= i < j < t[r].after.len(),
    ensures
        t[r].after[i].lane != t[r].after[j].lane,
{
    assert(table_row_ok(rows, t, r));
}

/// Law: at every row of the occupied table, the number of distinct
/// lanes in use equals the number of open reservations — one per
/// concurrently live branch path — both before and after the row's
/// commit is placed. Lane usage never exceeds the number of live paths.
pub proof fn lemma_lane_usage_equals_live_paths(
    rows: Seq<SVGRowView>,
    t: Seq<OccupiedRowView>,
    r: int,
)
    requires
        table_ok(rows, t),
        0 <= r < t.len(),
    ensures
        t[r].before.map_values(|v: LaneReservationView| v.lane).to_set().len()
            == t[r].before.len(),
        t[r].after.map_values(|v: LaneReservationView| v.lane).to_set().len() == t[r].after.len(),
{
    assert(table_row_ok(rows, t, r));
    lemma_lanes_match_live_paths(t[r].before);
    lemma_lanes_match_live_paths(t[r].after);
}

/// Law: the number of distinct lanes held by reservations with pairwise
/// distinct lanes equals the number of reservations.
pub proof fn lemma_lanes_match_live_paths(rs: Seq<LaneReservationView>)
    requires
        lanes_distinct(rs),
    ensures
        rs.map_values(|v: LaneReservationView| v.lane).to_set().len() == rs.len(),
{
    let lanes = rs.map_values(|v: LaneReservationView| v.lane);
    assert(lanes.no_duplicates()) by {
        assert forall|i: int, j: int|
            0 <= i < lanes.len() && 0 <= j < lanes.len() && i != j implies lanes[i] != lanes[j] by {
            if i < j {
                assert(rs[i].lane != rs[j].lane);
            } else {
                assert(rs[j].lane != rs[i].lane);
            }
        }
    }
    lanes.unique_seq_to_set();
}

} // verus!
