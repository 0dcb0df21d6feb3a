use commit_graph::classifier::{classify_operation, GraphOps, RepoOperation};
use commit_graph::differ::diff_walk;
use commit_graph::occupied_table::get_occupied_table;
use commit_graph::svg_row::{get_commit_info_list, get_draw_properties, CommitFact};
use commit_graph::error::GraphError;

fn s(x: &str) -> String {
    String::from(x)
}

fn oids(xs: &[&str]) -> Vec<String> {
    xs.iter().map(|x| s(x)).collect()
}

fn fact(oid: &str, summary: &str, parents: &[&str]) -> CommitFact {
    CommitFact { oid: s(oid), summary: Some(s(summary)), parent_oids: oids(parents) }
}

#[test]
fn classifier_maps_every_operation() {
    assert_eq!(classify_operation(RepoOperation::RefPointerChangedOnly), GraphOps::RefChange);
    assert_eq!(classify_operation(RepoOperation::Fetch), GraphOps::PrependOnly);
    assert_eq!(classify_operation(RepoOperation::Pull), GraphOps::PrependOnly);
    assert_eq!(classify_operation(RepoOperation::Push), GraphOps::PossibleRewrite);
    assert_eq!(classify_operation(RepoOperation::ForcePush), GraphOps::PossibleRewrite);
    assert_eq!(classify_operation(RepoOperation::RepositoryOpened), GraphOps::Unknown);
    assert_eq!(classify_operation(RepoOperation::Checkout), GraphOps::Unknown);
    assert_eq!(classify_operation(RepoOperation::CheckoutRemoteBranch), GraphOps::Unknown);
    assert_eq!(classify_operation(RepoOperation::ManualRefresh), GraphOps::Unknown);
}

#[test]
fn diff_of_unchanged_history_is_empty() {
    let v = oids(&["c3", "c2", "c1"]);
    for ops in [GraphOps::PrependOnly, GraphOps::PossibleRewrite, GraphOps::Unknown] {
        let r = diff_walk(ops, &v, &v);
        assert_eq!(r.created.len(), 0);
        assert_eq!(r.deleted.len(), 0);
        assert!(!r.clear_entire_old_graph);
    }
}

#[test]
fn diff_of_three_appended_commits_creates_exactly_those_rows() {
    let old = oids(&["c3", "c2", "c1"]);
    let new = oids(&["c6", "c5", "c4", "c3", "c2", "c1"]);
    let r = diff_walk(GraphOps::PrependOnly, &old, &new);
    assert_eq!(r.created.len(), 3);
    assert_eq!(r.created[0].sha, "c6");
    assert_eq!(r.created[0].index, 0);
    assert_eq!(r.created[1].sha, "c5");
    assert_eq!(r.created[1].index, 1);
    assert_eq!(r.created[2].sha, "c4");
    assert_eq!(r.created[2].index, 2);
    assert_eq!(r.deleted.len(), 0);
    assert!(!r.clear_entire_old_graph);
}

#[test]
fn diff_of_empty_baseline_creates_all_rows() {
    let old: Vec<String> = Vec::new();
    let new = oids(&["c2", "c1"]);
    let r = diff_walk(GraphOps::Unknown, &old, &new);
    assert_eq!(r.created.len(), 2);
    assert_eq!(r.deleted.len(), 0);
    assert!(!r.clear_entire_old_graph);
}

#[test]
fn diff_of_rewritten_top_two_commits() {
    let old = oids(&["y2", "y1", "b2", "b1"]);
    let new = oids(&["r2", "r1", "b2", "b1"]);
    let r = diff_walk(GraphOps::PossibleRewrite, &old, &new);
    assert_eq!(r.deleted.len(), 2);
    assert_eq!(r.deleted[0].sha, "y2");
    assert_eq!(r.deleted[0].index, 0);
    assert_eq!(r.deleted[1].sha, "y1");
    assert_eq!(r.deleted[1].index, 1);
    assert_eq!(r.created.len(), 2);
    assert_eq!(r.created[0].sha, "r2");
    assert_eq!(r.created[1].sha, "r1");
    assert!(!r.clear_entire_old_graph);
}

#[test]
fn diff_of_unrelated_branch_is_a_full_reset() {
    let old = oids(&["a2", "a1"]);
    let new = oids(&["z3", "z2", "z1"]);
    let r = diff_walk(GraphOps::Unknown, &old, &new);
    assert!(r.clear_entire_old_graph);
    assert_eq!(r.created.len(), 3);
    assert_eq!(r.deleted.len(), 2);
}

#[test]
fn prepend_diff_without_stable_match_escalates_to_full_reset() {
    let old = oids(&["a2", "a1"]);
    let new = oids(&["b1", "a2"]);
    let r = diff_walk(GraphOps::PrependOnly, &old, &new);
    assert!(r.clear_entire_old_graph);
    assert_eq!(r.created.len(), 2);
    assert_eq!(r.deleted.len(), 2);
}

#[test]
fn built_rows_carry_contiguous_indices_and_children() {
    // D and C are children of B; B is a child of A.
    let walk = vec![
        fact("C", "third", &["B"]),
        fact("D", "feature", &["B"]),
        fact("B", "second", &["A"]),
        fact("A", "root", &[]),
    ];
    let rows = get_commit_info_list(&walk).unwrap();
    assert_eq!(rows.len(), 4);
    for (i, row) in rows.iter().enumerate() {
        assert_eq!(row.y, i);
        assert_eq!(row.x, 0);
    }
    assert_eq!(rows[0].sha, "C");
    assert_eq!(rows[0].summary, "third");
    assert_eq!(rows[2].child_oids, oids(&["C", "D"]));
    assert_eq!(rows[3].child_oids, oids(&["B"]));
    assert_eq!(rows[0].child_oids.len(), 0);
}

#[test]
fn builder_fails_on_undecodable_summary() {
    let walk = vec![
        fact("B", "ok", &["A"]),
        CommitFact { oid: s("A"), summary: None, parent_oids: Vec::new() },
    ];
    assert_eq!(get_commit_info_list(&walk).unwrap_err(), GraphError::NonUtf8Text);
}

#[test]
fn sibling_branches_occupy_two_lanes_until_they_converge() {
    // Root A; A->B; B->C (tip of "main"); B->D (tip of "feature").
    let walk = vec![
        fact("C", "main tip", &["B"]),
        fact("D", "feature tip", &["B"]),
        fact("B", "second", &["A"]),
        fact("A", "root", &[]),
    ];
    let mut rows = get_commit_info_list(&walk).unwrap();
    let table = get_occupied_table(&mut rows);
    // Lanes: the main line stays in lane 0, the sibling takes lane 1.
    assert_eq!(rows[0].x, 0); // C
    assert_eq!(rows[1].x, 1); // D
    assert_eq!(rows[2].x, 0); // B
    assert_eq!(rows[3].x, 0); // A
    // Between rows(C) and rows(B), exactly 2 lanes are open.
    let after_d = &table.rows[1].open_after;
    assert_eq!(after_d.len(), 2);
    let mut lanes: Vec<usize> = after_d.iter().map(|r| r.lane).collect();
    lanes.sort();
    assert_eq!(lanes, vec![0, 1]);
    assert!(after_d.iter().all(|r| r.target == "B"));
}

#[test]
fn open_reservations_never_share_a_lane() {
    // A DAG with branches and a merge: M merges F into C's line.
    let walk = vec![
        fact("M", "merge", &["C", "F"]),
        fact("C", "main", &["B"]),
        fact("F", "feature", &["B"]),
        fact("B", "base", &["A"]),
        fact("A", "root", &[]),
    ];
    let mut rows = get_commit_info_list(&walk).unwrap();
    let table = get_occupied_table(&mut rows);
    for row in &table.rows {
        for set in [&row.open_before, &row.open_after] {
            let mut lanes: Vec<usize> = set.iter().map(|r| r.lane).collect();
            let n = lanes.len();
            lanes.sort();
            lanes.dedup();
            // Lanes in use equal the number of live branch paths.
            assert_eq!(lanes.len(), n);
        }
    }
}

#[test]
fn merge_commit_opens_one_reservation_per_parent() {
    let walk = vec![
        fact("M", "merge", &["P1", "P2"]),
        fact("P1", "left", &[]),
        fact("P2", "right", &[]),
    ];
    let mut rows = get_commit_info_list(&walk).unwrap();
    let table = get_occupied_table(&mut rows);
    let after_m = &table.rows[0].open_after;
    assert_eq!(after_m.len(), 2);
    assert_eq!(after_m[0].target, "P1");
    assert_eq!(after_m[0].lane, 0);
    assert_eq!(after_m[1].target, "P2");
    assert_eq!(after_m[1].lane, 1);
    // P1 inherits lane 0, P2 inherits lane 1.
    assert_eq!(rows[1].x, 0);
    assert_eq!(rows[2].x, 1);
}

#[test]
fn straight_descent_keeps_its_lane_and_bends_are_marked() {
    let walk = vec![
        fact("C", "main tip", &["B"]),
        fact("D", "feature tip", &["B"]),
        fact("B", "second", &["A"]),
        fact("A", "root", &[]),
    ];
    let mut rows = get_commit_info_list(&walk).unwrap();
    let _table = get_occupied_table(&mut rows);
    let props = get_draw_properties(&rows);
    assert_eq!(props.len(), 4);
    // C -> B: straight in lane 0.
    assert_eq!(props[0].oid, "C");
    assert_eq!(props[0].lane, 0);
    assert_eq!(props[0].row, 0);
    assert_eq!(props[0].connectors.len(), 1);
    let c_to_b = props[0].connectors[0];
    assert_eq!(c_to_b.start_lane, 0);
    assert_eq!(c_to_b.end_lane, 0);
    assert_eq!(c_to_b.end_row, 2);
    assert!(!c_to_b.is_bend);
    // D -> B: bend from lane 1 to lane 0.
    let d_to_b = props[1].connectors[0];
    assert_eq!(d_to_b.start_lane, 1);
    assert_eq!(d_to_b.start_row, 1);
    assert_eq!(d_to_b.end_lane, 0);
    assert_eq!(d_to_b.end_row, 2);
    assert!(d_to_b.is_bend);
    // The root has no parents, hence no connectors.
    assert_eq!(props[3].connectors.len(), 0);
}

#[test]
fn walk_from_empty_baseline_emits_every_row_index_once() {
    let walk: Vec<CommitFact> = (0..7)
        .map(|i| {
            let oid = format!("c{}", i);
            let parent = format!("c{}", i + 1);
            if i == 6 {
                CommitFact { oid, summary: Some(s("root")), parent_oids: Vec::new() }
            } else {
                CommitFact { oid, summary: Some(s("step")), parent_oids: vec![parent] }
            }
        })
        .collect();
    let rows = get_commit_info_list(&walk).unwrap();
    let mut seen: Vec<usize> = rows.iter().map(|r| r.y).collect();
    seen.sort();
    assert_eq!(seen, (0..7).collect::<Vec<usize>>());
}

#[test]
fn random_dags_never_share_lanes_and_use_one_lane_per_live_path() {
    // A deterministic linear-congruential generator, so the DAGs are
    // reproducible.
    let mut state: u64 = 0x2545F4914F6CDD1D;
    let mut next = move || {
        state = state.wrapping_mul(6364136223846793005).wrapping_add(1442695040888963407);
        (state >> 33) as usize
    };
    for _round in 0..20 {
        let n = 3 + next() % 30;
        let mut walk: Vec<CommitFact> = Vec::new();
        for i in 0..n {
            let mut parents = Vec::new();
            if i + 1 < n {
                for _ in 0..next() % 3 {
                    let p = i + 1 + next() % (n - i - 1);
                    parents.push(format!("c{}", p));
                }
            }
            walk.push(CommitFact {
                oid: format!("c{}", i),
                summary: Some(s("node")),
                parent_oids: parents,
            });
        }
        let mut rows = get_commit_info_list(&walk).unwrap();
        let table = get_occupied_table(&mut rows);
        assert_eq!(table.rows.len(), n);
        for row in &table.rows {
            for open in [&row.open_before, &row.open_after] {
                let live_paths = open.len();
                let mut lanes: Vec<usize> = open.iter().map(|r| r.lane).collect();
                lanes.sort();
                lanes.dedup();
                // No two open reservations share a lane, so the lanes in
                // use are exactly one per live branch path.
                assert_eq!(lanes.len(), live_paths);
            }
        }
    }
}

#[test]
fn error_message_names_each_kind() {
    assert_eq!(GraphError::NoOpenRepository.message(), "no repository is open");
    assert_eq!(GraphError::NonUtf8Text.message(), "text was not valid utf-8");
    assert_eq!(GraphError::MissingObject.message(), "a commit object is missing or corrupt");
    assert_eq!(GraphError::BackendFailure.message(), "the repository backend failed");
}
