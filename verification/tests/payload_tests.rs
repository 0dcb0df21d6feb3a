use std::collections::VecDeque;
use commit_graph::classifier::GraphOps;
use commit_graph::error::GraphError;
use commit_graph::facts::{DiffDeltaFact, RefFact, RefKind, RepoFacts, RepoStateKind};
use commit_graph::parseable_info::{
    get_branch_draw_properties, get_branch_info_list, get_commit_info_entries,
    get_commit_svg_draw_properties_list, get_files_changed_info_list, get_general_info,
    get_oid_refs, get_parseable_diff_delta, get_parseable_repo_info, get_remote_info_list,
    BranchInfo, BranchInfoTreeNode, BranchNameAndType, RepoInfoValue, SVGCommitInfoValue,
};
use commit_graph::svg_row::{CommitFact, SVGRow};

fn s(x: &str) -> String {
    String::from(x)
}

fn branch_ref(shorthand: &str, kind: RefKind, target: &str, is_head: bool) -> RefFact {
    RefFact {
        shorthand: Some(s(shorthand)),
        full_name: Some(s(&format!(
            "refs/{}/{}",
            match kind {
                RefKind::LocalBranch => "heads",
                RefKind::RemoteBranch => "remotes",
                RefKind::Tag => "tags",
            },
            shorthand
        ))),
        kind,
        target_oid: Some(s(target)),
        is_head,
        ahead: 0,
        behind: 0,
    }
}

#[test]
fn general_info_reports_exact_flags() {
    let g = get_general_info(true, RepoStateKind::Rebase);
    assert!(g.head_has_upstream);
    assert!(g.is_rebasing);
    assert!(!g.is_merging);
    assert!(!g.is_cherrypicking);
    assert!(!g.is_reverting);
    let g = get_general_info(false, RepoStateKind::Merge);
    assert!(!g.head_has_upstream);
    assert!(g.is_merging);
    assert!(!g.is_rebasing);
}

#[test]
fn diff_deltas_convert_status_and_path() {
    let deltas = vec![
        DiffDeltaFact { status: 2, path: Some(s("src/lib.rs")) },
        DiffDeltaFact { status: 3, path: Some(s("README.md")) },
    ];
    let files = get_parseable_diff_delta(&deltas).unwrap();
    assert_eq!(files.len(), 2);
    assert_eq!(files[0].get_status(), 2);
    assert_eq!(files[0].get_path(), "src/lib.rs");
    assert_eq!(files[1].get_status(), 3);
    assert_eq!(files[1].get_path(), "README.md");
}

#[test]
fn diff_deltas_fail_on_undecodable_path() {
    let deltas = vec![DiffDeltaFact { status: 1, path: None }];
    assert_eq!(get_parseable_diff_delta(&deltas).unwrap_err(), GraphError::NonUtf8Text);
}

#[test]
fn files_changed_totals_both_sets() {
    let unstaged = vec![DiffDeltaFact { status: 2, path: Some(s("a.txt")) }];
    let staged = vec![
        DiffDeltaFact { status: 1, path: Some(s("b.txt")) },
        DiffDeltaFact { status: 4, path: Some(s("c.txt")) },
    ];
    let f = get_files_changed_info_list(&unstaged, &staged).unwrap();
    assert_eq!(f.files_changed, 3);
    assert_eq!(f.unstaged_files.len(), 1);
    assert_eq!(f.staged_files.len(), 2);
}

#[test]
fn remote_list_converts_names_and_rejects_bad_ones() {
    let names = vec![Some(s("origin")), Some(s("upstream"))];
    let v = get_remote_info_list(&names).unwrap();
    assert_eq!(v, vec![s("origin"), s("upstream")]);
    let bad = vec![Some(s("origin")), None];
    assert_eq!(get_remote_info_list(&bad).unwrap_err(), GraphError::NonUtf8Text);
}

#[test]
fn oid_refs_group_by_target_and_mark_the_head() {
    let refs = vec![
        branch_ref("main", RefKind::LocalBranch, "o1", true),
        branch_ref("dev", RefKind::LocalBranch, "o2", false),
        branch_ref("origin/main", RefKind::RemoteBranch, "o1", false),
        branch_ref("v1.0", RefKind::Tag, "o2", false),
    ];
    let groups = get_oid_refs(&refs, false, &None).unwrap();
    assert_eq!(groups.len(), 2);
    assert_eq!(groups[0].oid, "o1");
    assert_eq!(groups[0].refs.len(), 2);
    assert_eq!(groups[0].refs[0].borrow_shorthand(), "* main");
    assert_eq!(groups[0].refs[0].borrow_branch_type(), "local");
    assert_eq!(groups[0].refs[1].borrow_shorthand(), "origin/main");
    assert_eq!(groups[0].refs[1].borrow_branch_type(), "remote");
    assert_eq!(groups[1].oid, "o2");
    assert_eq!(groups[1].refs[0].borrow_shorthand(), "dev");
    assert_eq!(groups[1].refs[1].borrow_shorthand(), "v1.0");
    assert_eq!(groups[1].refs[1].borrow_branch_type(), "tag");
}

#[test]
fn detached_head_gets_its_own_marker() {
    let refs = vec![branch_ref("main", RefKind::LocalBranch, "o1", false)];
    let groups = get_oid_refs(&refs, true, &Some(s("o9"))).unwrap();
    assert_eq!(groups.len(), 2);
    assert_eq!(groups[1].oid, "o9");
    assert_eq!(groups[1].refs[0].borrow_shorthand(), "* HEAD");
    assert_eq!(groups[1].refs[0].borrow_branch_type(), "local");
}

#[test]
fn oid_refs_fail_on_undecodable_name() {
    let mut bad = branch_ref("main", RefKind::LocalBranch, "o1", false);
    bad.shorthand = None;
    assert_eq!(get_oid_refs(&vec![bad], false, &None).unwrap_err(), GraphError::NonUtf8Text);
}

#[test]
fn labels_stack_head_local_remote_tag_in_order() {
    let refs = vec![
        BranchNameAndType::new(s("v1.0"), s("tag")),
        BranchNameAndType::new(s("dev"), s("local")),
        BranchNameAndType::new(s("origin/main"), s("remote")),
        BranchNameAndType::new(s("* main"), s("local")),
    ];
    let props = get_branch_draw_properties(&refs);
    assert_eq!(props.len(), 4);
    // The checked-out head comes first even though the backend listed
    // it last.
    assert_eq!(props[0].label, "* main");
    assert_eq!(props[0].ref_type, "local");
    assert_eq!(props[1].label, "dev");
    assert_eq!(props[2].label, "origin/main");
    assert_eq!(props[3].label, "v1.0");
    for (i, p) in props.iter().enumerate() {
        assert_eq!(p.offset, i);
    }
}

#[test]
fn tree_insert_splits_on_slash_and_shares_prefixes() {
    let mut root = BranchInfoTreeNode::new(s(""), None);
    let info_foo = BranchInfo::new(s("feature/foo"), s("refs/heads/feature/foo"), false, s("local"), 0, 0);
    let info_bar = BranchInfo::new(s("feature/bar"), s("refs/heads/feature/bar"), false, s("local"), 1, 2);
    root.insert_split_shorthand(VecDeque::from(vec![s("feature"), s("foo")]), info_foo);
    root.insert_split_shorthand(VecDeque::from(vec![s("feature"), s("bar")]), info_bar);
    assert_eq!(root.children.len(), 1);
    let feature = &root.children[0];
    assert_eq!(feature.text, "feature");
    assert!(feature.branch_info.is_none());
    assert_eq!(feature.children.len(), 2);
    assert_eq!(feature.children[0].text, "foo");
    assert!(feature.children[0].branch_info.is_some());
    assert_eq!(feature.children[1].text, "bar");
    let bar_info = feature.children[1].branch_info.as_ref().unwrap();
    assert_eq!(bar_info.ahead, 1);
    assert_eq!(bar_info.behind, 2);
}

#[test]
fn existing_paths_are_not_duplicated() {
    let mut root = BranchInfoTreeNode::new(s(""), None);
    let info = BranchInfo::new(s("main"), s("refs/heads/main"), true, s("local"), 0, 0);
    root.insert_split_shorthand(VecDeque::from(vec![s("main")]), info.clone());
    root.insert_split_shorthand(VecDeque::from(vec![s("main")]), info);
    assert_eq!(root.children.len(), 1);
    assert_eq!(root.children[0].text, "main");
}

#[test]
fn branch_trees_sort_refs_by_category_and_skip_remote_heads() {
    let refs = vec![
        branch_ref("main", RefKind::LocalBranch, "o1", true),
        branch_ref("feature/x", RefKind::LocalBranch, "o2", false),
        branch_ref("origin/HEAD", RefKind::RemoteBranch, "o1", false),
        branch_ref("origin/main", RefKind::RemoteBranch, "o1", false),
        branch_ref("v1.0", RefKind::Tag, "o2", false),
    ];
    let remotes = vec![s("origin")];
    let b = get_branch_info_list(&refs, &remotes).unwrap();
    assert_eq!(b.local_branch_info_tree.children.len(), 2);
    assert_eq!(b.local_branch_info_tree.children[0].text, "main");
    assert_eq!(b.local_branch_info_tree.children[1].text, "feature");
    assert_eq!(b.local_branch_info_tree.children[1].children[0].text, "x");
    // origin/HEAD is excluded: only origin/main remains.
    assert_eq!(b.remote_branch_info_tree.children.len(), 1);
    let origin = &b.remote_branch_info_tree.children[0];
    assert_eq!(origin.text, "origin");
    assert_eq!(origin.children.len(), 1);
    assert_eq!(origin.children[0].text, "main");
    assert_eq!(b.tag_branch_info_tree.children.len(), 1);
    assert_eq!(b.tag_branch_info_tree.children[0].text, "v1.0");
    let head_info = b.local_branch_info_tree.children[0].branch_info.as_ref().unwrap();
    assert!(head_info.is_head);
    assert_eq!(head_info.branch_type, "local");
}

#[test]
fn commit_layout_section_walks_diffs_and_places_labels() {
    let walk = vec![
        CommitFact { oid: s("B"), summary: Some(s("tip")), parent_oids: vec![s("A")] },
        CommitFact { oid: s("A"), summary: Some(s("root")), parent_oids: Vec::new() },
    ];
    let refs = vec![branch_ref("main", RefKind::LocalBranch, "B", true)];
    let prev: Vec<String> = Vec::new();
    let ci = get_commit_svg_draw_properties_list(
        GraphOps::Unknown,
        &prev,
        &walk,
        &refs,
        false,
        &None,
    )
    .unwrap();
    assert_eq!(ci.deleted_sha_changes.len(), 0);
    assert!(!ci.clear_entire_old_graph);
    assert_eq!(ci.svg_row_draw_properties.len(), 2);
    assert_eq!(ci.svg_row_draw_properties[0].oid, "B");
    assert_eq!(ci.svg_row_draw_properties[0].lane, 0);
    assert_eq!(ci.branch_draw_properties.len(), 1);
    assert_eq!(ci.branch_draw_properties[0].oid, "B");
    assert_eq!(ci.branch_draw_properties[0].labels[0].label, "* main");
}

#[test]
fn ref_change_skips_the_walk_but_keeps_labels() {
    let walk: Vec<CommitFact> = Vec::new();
    let refs = vec![branch_ref("main", RefKind::LocalBranch, "B", true)];
    let prev = vec![s("B"), s("A")];
    let ci = get_commit_svg_draw_properties_list(
        GraphOps::RefChange,
        &prev,
        &walk,
        &refs,
        false,
        &None,
    )
    .unwrap();
    assert_eq!(ci.svg_row_draw_properties.len(), 0);
    assert_eq!(ci.deleted_sha_changes.len(), 0);
    assert!(!ci.clear_entire_old_graph);
    assert_eq!(ci.branch_draw_properties.len(), 1);
}

#[test]
fn repo_info_has_five_keyed_sections() {
    let facts = RepoFacts {
        head_has_upstream: true,
        repo_state: RepoStateKind::Clean,
        head_detached: false,
        head_target_oid: Some(s("B")),
        refs: vec![branch_ref("main", RefKind::LocalBranch, "B", true)],
        remote_names: vec![Some(s("origin"))],
        walk: vec![
            CommitFact { oid: s("B"), summary: Some(s("tip")), parent_oids: vec![s("A")] },
            CommitFact { oid: s("A"), summary: Some(s("root")), parent_oids: Vec::new() },
        ],
        unstaged_deltas: vec![DiffDeltaFact { status: 2, path: Some(s("a.txt")) }],
        staged_deltas: Vec::new(),
    };
    let prev: Vec<String> = Vec::new();
    let v = get_parseable_repo_info(&facts, GraphOps::Unknown, &prev).unwrap();
    assert_eq!(v.len(), 5);
    assert_eq!(v[0].key, "general_info");
    assert!(matches!(v[0].value, RepoInfoValue::SomeGeneralInfo(ref g) if g.head_has_upstream));
    assert_eq!(v[1].key, "commit_info_list");
    assert!(matches!(v[1].value, RepoInfoValue::SomeCommitInfo(_)));
    assert_eq!(v[2].key, "branch_info_list");
    assert!(matches!(v[2].value, RepoInfoValue::SomeBranchInfo(_)));
    assert_eq!(v[3].key, "remote_info_list");
    assert!(
        matches!(v[3].value, RepoInfoValue::SomeRemoteInfo(ref names) if names == &vec![s("origin")])
    );
    assert_eq!(v[4].key, "files_changed_info_list");
    assert!(
        matches!(v[4].value, RepoInfoValue::SomeFilesChangedInfo(ref f) if f.files_changed == 1)
    );
}

#[test]
fn undecodable_facts_abort_the_whole_payload() {
    let facts = RepoFacts {
        head_has_upstream: false,
        repo_state: RepoStateKind::Clean,
        head_detached: false,
        head_target_oid: None,
        refs: Vec::new(),
        remote_names: vec![None],
        walk: Vec::new(),
        unstaged_deltas: Vec::new(),
        staged_deltas: Vec::new(),
    };
    let prev: Vec<String> = Vec::new();
    assert_eq!(
        get_parseable_repo_info(&facts, GraphOps::Unknown, &prev).unwrap_err(),
        GraphError::NonUtf8Text
    );
}

#[test]
fn commit_info_entries_carry_the_wire_shape() {
    let row = SVGRow::new(s("B"), s("tip"), vec![s("A")], vec![s("C")], 1, 2);
    let entries = get_commit_info_entries(&row);
    assert_eq!(entries.len(), 6);
    assert_eq!(entries[0].key, "oid");
    assert!(matches!(entries[0].value, SVGCommitInfoValue::SomeString(ref v) if v == "B"));
    assert_eq!(entries[1].key, "summary");
    assert!(matches!(entries[1].value, SVGCommitInfoValue::SomeString(ref v) if v == "tip"));
    assert_eq!(entries[2].key, "parent_oids");
    assert!(
        matches!(entries[2].value, SVGCommitInfoValue::SomeStringVec(ref v) if v == &vec![s("A")])
    );
    assert_eq!(entries[3].key, "child_oids");
    assert!(
        matches!(entries[3].value, SVGCommitInfoValue::SomeStringVec(ref v) if v == &vec![s("C")])
    );
    assert_eq!(entries[4].key, "x");
    assert!(matches!(entries[4].value, SVGCommitInfoValue::SomeInt(1)));
    assert_eq!(entries[5].key, "y");
    assert!(matches!(entries[5].value, SVGCommitInfoValue::SomeInt(2)));
}
