use std::collections::VecDeque;
use vstd::prelude::*;
use vstd::pervasive::VecAdditionalExecFns;
use vstd::string::StringExecFns;
use crate::differ::SHAChange;
use crate::error::GraphError;
use crate::facts::DiffDeltaFact;
use crate::facts::RefFact;
use crate::facts::RefFactView;
use crate::facts::RefKind;
use crate::facts::RepoFacts;
use crate::facts::RepoStateKind;
use crate::facts::deltas_decodable;
use crate::facts::deltas_view;
use crate::facts::refs_decodable;
use crate::facts::refs_view;
use crate::svg_row::CommitFact;
use crate::svg_row::RowDrawProperty;
use crate::svg_row::SVGRow;

verus! {

/// One value of the per-commit section of the payload: the tagged union
/// behind the wire shape, one serialization rule per variant.
#[derive(Clone, Debug)]
pub enum SVGCommitInfoValue {
    SomeString(String),
    SomeStringVec(Vec<String>),
    SomeInt(isize),
}

/// One keyed entry of the per-commit payload section.
#[derive(Debug)]
pub struct CommitInfoEntry {
    pub key: String,
    pub value: SVGCommitInfoValue,
}

/// The general flags of the payload: upstream presence and which
/// operation, if any, is in progress.
#[derive(Clone, Copy, PartialEq, Eq, Structural, Debug)]
pub struct GeneralInfo {
    pub head_has_upstream: bool,
    pub is_cherrypicking: bool,
    pub is_reverting: bool,
    pub is_merging: bool,
    pub is_rebasing: bool,
}

/// What the general flags promise.
pub open spec fn general_info_ok(
    head_has_upstream: bool,
    repo_state: RepoStateKind,
    r: GeneralInfo,
) -> bool {
    &&& r.head_has_upstream == head_has_upstream
    &&& r.is_cherrypicking == (repo_state is CherryPick)
    &&& r.is_reverting == (repo_state is Revert)
    &&& r.is_merging == (repo_state is Merge)
    &&& r.is_rebasing == (repo_state is Rebase || repo_state is RebaseMerge
        || repo_state is RebaseInteractive)
}

/// Reports the general flags: whether HEAD has an upstream and which
/// conflict-prone operation is in progress.
pub fn get_general_info(head_has_upstream: bool, repo_state: RepoStateKind) -> (r: GeneralInfo)
    ensures
        general_info_ok(head_has_upstream, repo_state, r),
{
    GeneralInfo {
        head_has_upstream,
        is_cherrypicking: matches!(repo_state, RepoStateKind::CherryPick),
        is_reverting: matches!(repo_state, RepoStateKind::Revert),
        is_merging: matches!(repo_state, RepoStateKind::Merge),
        is_rebasing: matches!(
            repo_state,
            RepoStateKind::Rebase | RepoStateKind::RebaseMerge | RepoStateKind::RebaseInteractive
        ),
    }
}

/// One changed file of the working tree, ready for the payload.
#[derive(Clone, Debug)]
pub struct ParseableDiffDelta {
    pub status: u8,
    pub path: String,
}

impl ParseableDiffDelta {
    pub fn new(status: u8, path: String) -> (r: ParseableDiffDelta)
        ensures
            r.status == status,
            r.path@ == path@,
    {
        ParseableDiffDelta { status, path }
    }

    pub fn get_status(&self) -> (r: u8)
        ensures
            r == self.status,
    {
        self.status
    }

    pub fn get_path(&self) -> (r: &String)
        ensures
            r@ == self.path@,
    {
        &self.path
    }
}

/// What a converted diff promises: one entry per delta, in order, with
/// the status code and the decoded path.
pub open spec fn diff_delta_ok(
    ds: Seq<crate::facts::DiffDeltaFactView>,
    files: Seq<ParseableDiffDelta>,
) -> bool {
    &&& files.len() == ds.len()
    &&& forall|i: int|
        0 <= i < ds.len() ==> {
            &&& (#[trigger] files[i]).status == ds[i].status
            &&& files[i].path@ == ds[i].path->Some_0
        }
}

/// Converts the raw diff deltas of one working-tree diff into payload
/// entries. Fails, without partial output, when any path was not
/// decodable text.
pub fn get_parseable_diff_delta(deltas: &Vec<DiffDeltaFact>) -> (r: Result<
    Vec<ParseableDiffDelta>,
    GraphError,
>)
    ensures
        r is Ok <==> deltas_decodable(deltas_view(deltas@)),
        r matches Err(e) ==> e is NonUtf8Text,
        r matches Ok(files) ==> diff_delta_ok(deltas_view(deltas@), files@),
{
    let ghost ds = deltas_view(deltas@);
    let mut files: Vec<ParseableDiffDelta> = Vec::new();
    let mut i: usize = 0;
    while i < deltas.len()
        invariant
            i <= deltas@.len(),
            ds == deltas_view(deltas@),
            files@.len() == i,
            forall|j: int| 0 <= j < i ==> (#[trigger] ds[j]).path is Some,
            forall|j: int|
                0 <= j < i ==> {
                    &&& (#[trigger] files@[j]).status == ds[j].status
                    &&& files@[j].path@ == ds[j].path->Some_0
                },
        decreases deltas@.len() - i,
    {
        let path = match &deltas[i].path {
            Some(p) => p.clone(),
            None => {
                proof {
                    assert(ds[i as int].path is None);
                }
                return Err(GraphError::NonUtf8Text);
            },
        };
        files.push(ParseableDiffDelta { status: deltas[i].status, path });
        i = i + 1;
    }
    Ok(files)
}

/// The working-tree change summary of the payload: the total number of
/// changed files and the unstaged and staged sets separately.
#[derive(Clone, Debug)]
pub struct FilesChangedInfo {
    pub files_changed: usize,
    pub unstaged_files: Vec<ParseableDiffDelta>,
    pub staged_files: Vec<ParseableDiffDelta>,
}

impl FilesChangedInfo {
    pub fn new(
        files_changed: usize,
        unstaged_files: Vec<ParseableDiffDelta>,
        staged_files: Vec<ParseableDiffDelta>,
    ) -> (r: FilesChangedInfo)
        ensures
            r.files_changed == files_changed,
            r.unstaged_files@ == unstaged_files@,
            r.staged_files@ == staged_files@,
    {
        FilesChangedInfo { files_changed, unstaged_files, staged_files }
    }
}

/// What the change summary promises: the total is the number of changed
/// files across both sets, and each set converts its diff exactly.
pub open spec fn files_changed_ok(
    unstaged: Seq<crate::facts::DiffDeltaFactView>,
    staged: Seq<crate::facts::DiffDeltaFactView>,
    f: FilesChangedInfo,
) -> bool {
    &&& f.files_changed == unstaged.len() + staged.len()
    &&& diff_delta_ok(unstaged, f.unstaged_files@)
    &&& diff_delta_ok(staged, f.staged_files@)
}

/// Builds the working-tree change summary from the unstaged and staged
/// diffs. Fails when any path was not decodable text.
pub fn get_files_changed_info_list(
    unstaged_deltas: &Vec<DiffDeltaFact>,
    staged_deltas: &Vec<DiffDeltaFact>,
) -> (r: Result<FilesChangedInfo, GraphError>)
    requires
        unstaged_deltas@.len() + staged_deltas@.len() <= usize::MAX,
    ensures
        r is Ok <==> (deltas_decodable(deltas_view(unstaged_deltas@)) && deltas_decodable(
            deltas_view(staged_deltas@),
        )),
        r matches Err(e) ==> e is NonUtf8Text,
        r matches Ok(f) ==> files_changed_ok(
            deltas_view(unstaged_deltas@),
            deltas_view(staged_deltas@),
            f,
        ),
{
    let unstaged_files = match get_parseable_diff_delta(unstaged_deltas) {
        Ok(v) => v,
        Err(e) => {
            return Err(e);
        },
    };
    let staged_files = match get_parseable_diff_delta(staged_deltas) {
        Ok(v) => v,
        Err(e) => {
            return Err(e);
        },
    };
    let files_changed = unstaged_deltas.len() + staged_deltas.len();
    Ok(FilesChangedInfo { files_changed, unstaged_files, staged_files })
}

/// The views of a list of possibly undecodable names.
pub open spec fn names_view(s: Seq<Option<String>>) -> Seq<Option<Seq<char>>> {
    s.map_values(|o: Option<String>| o.deep_view())
}

/// Every name in the list was decodable text.
pub open spec fn names_decodable(ns: Seq<Option<Seq<char>>>) -> bool {
    forall|i: int| 0 <= i < ns.len() ==> (#[trigger] ns[i]) is Some
}

/// Converts the backend's remote name list for the payload. Fails when
/// any remote name was not decodable text.
pub fn get_remote_info_list(remote_names: &Vec<Option<String>>) -> (r: Result<
    Vec<String>,
    GraphError,
>)
    ensures
        r is Ok <==> names_decodable(names_view(remote_names@)),
        r matches Err(e) ==> e is NonUtf8Text,
        r matches Ok(v) ==> {
            &&& v@.len() == remote_names@.len()
            &&& forall|i: int|
                0 <= i < v@.len() ==> (#[trigger] v@[i])@ == names_view(remote_names@)[i]->Some_0
        },
{
    let ghost ns = names_view(remote_names@);
    let mut v: Vec<String> = Vec::new();
    let mut i: usize = 0;
    while i < remote_names.len()
        invariant
            i <= remote_names@.len(),
            ns == names_view(remote_names@),
            v@.len() == i,
            forall|j: int| 0 <= j < i ==> (#[trigger] ns[j]) is Some,
            forall|j: int| 0 <= j < i ==> (#[trigger] v@[j])@ == ns[j]->Some_0,
        decreases remote_names@.len() - i,
    {
        match &remote_names[i] {
            Some(name) => {
                v.push(name.clone());
            },
            None => {
                proof {
                    assert(ns[i as int] is None);
                }
                return Err(GraphError::NonUtf8Text);
            },
        }
        i = i + 1;
    }
    Ok(v)
}

/// One branch of the payload's ref tree, with its metadata.
#[derive(Clone, Debug)]
pub struct BranchInfo {
    pub branch_shorthand: String,
    pub full_branch_name: String,
    pub is_head: bool,
    pub branch_type: String,
    pub ahead: usize,
    pub behind: usize,
}

impl BranchInfo {
    pub fn new(
        branch_shorthand: String,
        full_branch_name: String,
        is_head: bool,
        branch_type: String,
        ahead: usize,
        behind: usize,
    ) -> (r: BranchInfo)
        ensures
            r.branch_shorthand@ == branch_shorthand@,
            r.full_branch_name@ == full_branch_name@,
            r.is_head == is_head,
            r.branch_type@ == branch_type@,
            r.ahead == ahead,
            r.behind == behind,
    {
        BranchInfo { branch_shorthand, full_branch_name, is_head, branch_type, ahead, behind }
    }
}

/// A decorated ref label: the text shown beside a commit and whether it
/// is a local branch, a remote branch or a tag.
#[derive(Clone, Debug)]
pub struct BranchNameAndType {
    pub shorthand: String,
    pub branch_type: String,
}

/// The mathematical content of a decorated ref label.
pub struct BntView {
    pub shorthand: Seq<char>,
    pub branch_type: Seq<char>,
}

impl View for BranchNameAndType {
    type V = BntView;

    open spec fn view(&self) -> BntView {
        BntView { shorthand: self.shorthand@, branch_type: self.branch_type@ }
    }
}

/// The views of a list of decorated ref labels.
pub open spec fn bnts_view(s: Seq<BranchNameAndType>) -> Seq<BntView> {
    s.map_values(|b: BranchNameAndType| b@)
}

impl BranchNameAndType {
    pub fn new(shorthand: String, branch_type: String) -> (r: BranchNameAndType)
        ensures
            r@.shorthand == shorthand@,
            r@.branch_type == branch_type@,
    {
        BranchNameAndType { shorthand, branch_type }
    }

    pub fn borrow_shorthand(&self) -> (r: &String)
        ensures
            r@ == self@.shorthand,
    {
        &self.shorthand
    }

    pub fn borrow_branch_type(&self) -> (r: &String)
        ensures
            r@ == self@.branch_type,
    {
        &self.branch_type
    }
}

/// One placed ref label: its text, its ref type and its stacking offset,
/// so overlapping labels never print on top of one another. The label's
/// lane is the commit's own lane.
#[derive(Clone, Debug)]
pub struct RefLabelProperty {
    pub label: String,
    pub ref_type: String,
    pub offset: usize,
}

/// The placed ref labels of one commit oid.
#[derive(Clone, Debug)]
pub struct BranchDrawProperty {
    pub oid: String,
    pub labels: Vec<RefLabelProperty>,
}

/// The commit-layout section of the payload: the rows to delete, whether
/// the whole old graph must be discarded, the placed ref labels per oid,
/// and the draw properties of every row of the new walk.
#[derive(Debug)]
pub struct CommitsInfo {
    pub deleted_sha_changes: Vec<SHAChange>,
    pub clear_entire_old_graph: bool,
    pub branch_draw_properties: Vec<BranchDrawProperty>,
    pub svg_row_draw_properties: Vec<RowDrawProperty>,
}

impl CommitsInfo {
    pub fn new(
        deleted_sha_changes: Vec<SHAChange>,
        clear_entire_old_graph: bool,
        branch_draw_properties: Vec<BranchDrawProperty>,
        svg_row_draw_properties: Vec<RowDrawProperty>,
    ) -> (r: CommitsInfo)
        ensures
            r.deleted_sha_changes@ == deleted_sha_changes@,
            r.clear_entire_old_graph == clear_entire_old_graph,
            r.branch_draw_properties@ == branch_draw_properties@,
            r.svg_row_draw_properties@ == svg_row_draw_properties@,
    {
        CommitsInfo {
            deleted_sha_changes,
            clear_entire_old_graph,
            branch_draw_properties,
            svg_row_draw_properties,
        }
    }
}

/// One node of the hierarchical ref name tree: branch names are split on
/// `/` and each segment becomes a level; a leaf carries the branch's
/// metadata.
#[derive(Debug)]
pub struct BranchInfoTreeNode {
    pub text: String,
    pub branch_info: Option<BranchInfo>,
    pub children: Vec<BranchInfoTreeNode>,
}

/// The hierarchical name trees of the payload, one per ref category.
#[derive(Debug)]
pub struct BranchesInfo {
    pub local_branch_info_tree: BranchInfoTreeNode,
    pub remote_branch_info_tree: BranchInfoTreeNode,
    pub tag_branch_info_tree: BranchInfoTreeNode,
}

impl BranchesInfo {
    pub fn new(
        local_branch_info_tree: BranchInfoTreeNode,
        remote_branch_info_tree: BranchInfoTreeNode,
        tag_branch_info_tree: BranchInfoTreeNode,
    ) -> (r: BranchesInfo)
        ensures
            r.local_branch_info_tree == local_branch_info_tree,
            r.remote_branch_info_tree == remote_branch_info_tree,
            r.tag_branch_info_tree == tag_branch_info_tree,
    {
        BranchesInfo { local_branch_info_tree, remote_branch_info_tree, tag_branch_info_tree }
    }
}

/// One keyed section of the payload.
#[derive(Debug)]
pub enum RepoInfoValue {
    SomeCommitInfo(CommitsInfo),
    SomeBranchInfo(BranchesInfo),
    SomeRemoteInfo(Vec<String>),
    SomeGeneralInfo(GeneralInfo),
    SomeFilesChangedInfo(FilesChangedInfo),
}

/// One entry of the push-style payload, keyed by logical section.
#[derive(Debug)]
pub struct RepoInfoEntry {
    pub key: String,
    pub value: RepoInfoValue,
}

/// The keyed per-commit payload entries of one row, in the wire shape
/// the presentation layer parses: oid, summary, parent and child oids,
/// lane and row.
pub fn get_commit_info_entries(row: &SVGRow) -> (r: Vec<CommitInfoEntry>)
    requires
        row@.x <= isize::MAX as int,
        row@.y <= isize::MAX as int,
    ensures
        r@.len() == 6,
        r@[0].key@ == "oid"@ && (r@[0].value matches SVGCommitInfoValue::SomeString(s) && s@
            == row@.sha),
        r@[1].key@ == "summary"@ && (r@[1].value matches SVGCommitInfoValue::SomeString(s) && s@
            == row@.summary),
        r@[2].key@ == "parent_oids"@ && (r@[2].value matches SVGCommitInfoValue::SomeStringVec(v)
            && v.deep_view() == row@.parents),
        r@[3].key@ == "child_oids"@ && (r@[3].value matches SVGCommitInfoValue::SomeStringVec(v)
            && v.deep_view() == row@.children),
        r@[4].key@ == "x"@ && (r@[4].value matches SVGCommitInfoValue::SomeInt(i) && i as int
            == row@.x),
        r@[5].key@ == "y"@ && (r@[5].value matches SVGCommitInfoValue::SomeInt(i) && i as int
            == row@.y),
{
    let mut r: Vec<CommitInfoEntry> = Vec::new();
    r.push(
        CommitInfoEntry {
            key: String::from_str("oid"),
            value: SVGCommitInfoValue::SomeString(row.sha.clone()),
        },
    );
    r.push(
        CommitInfoEntry {
            key: String::from_str("summary"),
            value: SVGCommitInfoValue::SomeString(row.summary.clone()),
        },
    );
    r.push(
        CommitInfoEntry {
            key: String::from_str("parent_oids"),
            value: SVGCommitInfoValue::SomeStringVec(crate::svg_row::clone_string_vec(
                &row.parent_oids,
            )),
        },
    );
    r.push(
        CommitInfoEntry {
            key: String::from_str("child_oids"),
            value: SVGCommitInfoValue::SomeStringVec(crate::svg_row::clone_string_vec(
                &row.child_oids,
            )),
        },
    );
    r.push(
        CommitInfoEntry { key: String::from_str("x"), value: SVGCommitInfoValue::SomeInt(row.x as isize) },
    );
    r.push(
        CommitInfoEntry { key: String::from_str("y"), value: SVGCommitInfoValue::SomeInt(row.y as isize) },
    );
    r
}

/// The ref labels attached to one commit oid.
#[derive(Debug)]
pub struct OidRefs {
    pub oid: String,
    pub refs: Vec<BranchNameAndType>,
}

/// The mathematical content of one oid's ref group.
pub struct OidRefsView {
    pub oid: Seq<char>,
    pub refs: Seq<BntView>,
}

impl View for OidRefs {
    type V = OidRefsView;

    open spec fn view(&self) -> OidRefsView {
        OidRefsView { oid: self.oid@, refs: bnts_view(self.refs@) }
    }
}

/// The views of a list of ref groups.
pub open spec fn groups_view(s: Seq<OidRefs>) -> Seq<OidRefsView> {
    s.map_values(|g: OidRefs| g@)
}

/// The first group at or after `i` that collects refs of `oid`.
pub open spec fn find_group(gs: Seq<OidRefsView>, oid: Seq<char>, i: int) -> Option<int>
    decreases gs.len() - i when 0 <= i <= gs.len()
{
    if i < 0 || i >= gs.len() {
        None
    } else if gs[i].oid == oid {
        Some(i)
    } else {
        find_group(gs, oid, i + 1)
    }
}

/// Appends one decorated label to the group of its target oid, opening a
/// new group at the end when the oid has none yet.
pub open spec fn spec_add_ref(gs: Seq<OidRefsView>, oid: Seq<char>, b: BntView) -> Seq<
    OidRefsView,
> {
    match find_group(gs, oid, 0) {
        Some(j) => gs.update(j, OidRefsView { oid: gs[j].oid, refs: gs[j].refs.push(b) }),
        None => gs.push(OidRefsView { oid, refs: seq![b] }),
    }
}

/// The label text of a branch ref: the shorthand, marked when it is the
/// checked-out head.
pub open spec fn head_marked(short: Seq<char>, is_head: bool) -> Seq<char> {
    if is_head {
        "* "@ + short
    } else {
        short
    }
}

/// The decorated label of a branch ref.
pub open spec fn branch_label(r: RefFactView) -> BntView {
    BntView {
        shorthand: head_marked(r.shorthand->Some_0, r.is_head),
        branch_type: if r.kind is RemoteBranch {
            "remote"@
        } else {
            "local"@
        },
    }
}

/// The groups after the branch pass over the first `i` refs.
pub open spec fn spec_branch_groups(rs: Seq<RefFactView>, i: int) -> Seq<OidRefsView>
    decreases i,
{
    if i <= 0 {
        Seq::empty()
    } else {
        let g = spec_branch_groups(rs, i - 1);
        let r = rs[i - 1];
        if (r.kind is LocalBranch || r.kind is RemoteBranch) && r.target is Some {
            spec_add_ref(g, r.target->Some_0, branch_label(r))
        } else {
            g
        }
    }
}

/// The groups after adding the detached-head marker, when HEAD points at
/// a commit without a branch.
pub open spec fn spec_head_group(
    g: Seq<OidRefsView>,
    head_detached: bool,
    head_target: Option<Seq<char>>,
) -> Seq<OidRefsView> {
    if head_detached && head_target is Some {
        spec_add_ref(
            g,
            head_target->Some_0,
            BntView { shorthand: "* HEAD"@, branch_type: "local"@ },
        )
    } else {
        g
    }
}

/// The groups after the tag pass over the first `i` refs.
pub open spec fn spec_tag_groups(g0: Seq<OidRefsView>, rs: Seq<RefFactView>, i: int) -> Seq<
    OidRefsView,
>
    decreases i,
{
    if i <= 0 {
        g0
    } else {
        let g = spec_tag_groups(g0, rs, i - 1);
        let r = rs[i - 1];
        if r.kind is Tag && r.target is Some {
            spec_add_ref(
                g,
                r.target->Some_0,
                BntView { shorthand: r.shorthand->Some_0, branch_type: "tag"@ },
            )
        } else {
            g
        }
    }
}

/// All ref labels grouped by target oid: branches first (head-marked),
/// then the detached HEAD marker, then tags.
pub open spec fn spec_oid_refs(
    rs: Seq<RefFactView>,
    head_detached: bool,
    head_target: Option<Seq<char>>,
) -> Seq<OidRefsView> {
    spec_tag_groups(
        spec_head_group(spec_branch_groups(rs, rs.len() as int), head_detached, head_target),
        rs,
        rs.len() as int,
    )
}

proof fn lemma_find_group_skip(gs: Seq<OidRefsView>, oid: Seq<char>, i: int)
    requires
        0 <= i <= gs.len(),
        forall|j: int| 0 <= j < i ==> (#[trigger] gs[j]).oid != oid,
    ensures
        find_group(gs, oid, 0) == find_group(gs, oid, i),
    decreases i,
{
    if i > 0 {
        lemma_find_group_skip(gs, oid, i - 1);
    }
}

/// Finds the group of `oid`, if one is open.
fn find_group_idx(gs: &Vec<OidRefs>, oid: &String) -> (r: Option<usize>)
    ensures
        match r {
            Some(j) => j < gs@.len() && find_group(groups_view(gs@), oid@, 0) == Some(j as int),
            None => find_group(groups_view(gs@), oid@, 0) is None,
        },
{
    let ghost gv = groups_view(gs@);
    let mut i: usize = 0;
    while i < gs.len()
        invariant
            i <= gs@.len(),
            gv == groups_view(gs@),
            forall|j: int| 0 <= j < i ==> (#[trigger] gv[j]).oid != oid@,
        decreases gs@.len() - i,
    {
        if gs[i].oid == *oid {
            proof {
                lemma_find_group_skip(gv, oid@, i as int);
            }
            return Some(i);
        }
        proof {
            assert(gv[i as int].oid == gs@[i as int].oid@);
        }
        i = i + 1;
    }
    proof {
        lemma_find_group_skip(gv, oid@, gs@.len() as int);
    }
    None
}

/// Files one decorated label under its target oid.
fn add_ref_to_groups(gs: &mut Vec<OidRefs>, oid: &String, bnt: BranchNameAndType)
    ensures
        groups_view(final(gs)@) == spec_add_ref(groups_view(old(gs)@), oid@, bnt@),
{
    let ghost gv = groups_view(gs@);
    match find_group_idx(gs, oid) {
        Some(j) => {
            let mut tmp = OidRefs { oid: String::new(), refs: Vec::new() };
            gs.set_and_swap(j, &mut tmp);
            tmp.refs.push(bnt);
            gs.set_and_swap(j, &mut tmp);
            proof {
                assert(bnts_view(gs@[j as int].refs@) =~= gv[j as int].refs.push(bnt@));
                assert(gs@[j as int]@ == OidRefsView {
                    oid: gv[j as int].oid,
                    refs: gv[j as int].refs.push(bnt@),
                });
                assert(groups_view(gs@) =~= spec_add_ref(gv, oid@, bnt@));
            }
        },
        None => {
            let mut refs: Vec<BranchNameAndType> = Vec::new();
            refs.push(bnt);
            let g = OidRefs { oid: oid.clone(), refs };
            proof {
                assert(bnts_view(g.refs@) =~= seq![bnt@]);
            }
            gs.push(g);
            proof {
                assert(groups_view(gs@) =~= spec_add_ref(gv, oid@, bnt@));
            }
        },
    }
}

/// Groups every ref label under the commit oid it points at: local and
/// remote branches first, with the checked-out branch marked; then a
/// marker when HEAD is detached; then tags, peeled to their commits.
/// Fails, without partial output, when any ref name was not decodable.
pub fn get_oid_refs(
    refs: &Vec<RefFact>,
    head_detached: bool,
    head_target: &Option<String>,
) -> (r: Result<Vec<OidRefs>, GraphError>)
    ensures
        r is Ok <==> refs_decodable(refs_view(refs@)),
        r matches Err(e) ==> e is NonUtf8Text,
        r matches Ok(gs) ==> groups_view(gs@) == spec_oid_refs(
            refs_view(refs@),
            head_detached,
            head_target.deep_view(),
        ),
{
    let ghost rv = refs_view(refs@);
    let mut gs: Vec<OidRefs> = Vec::new();
    let mut i: usize = 0;
    while i < refs.len()
        invariant
            i <= refs@.len(),
            rv == refs_view(refs@),
            groups_view(gs@) == spec_branch_groups(rv, i as int),
            forall|j: int|
                0 <= j < i && !((#[trigger] rv[j]).kind is Tag) ==> rv[j].shorthand is Some,
        decreases refs@.len() - i,
    {
        let rf = &refs[i];
        match rf.kind {
            RefKind::LocalBranch | RefKind::RemoteBranch => {
                let short = match &rf.shorthand {
                    Some(s) => s,
                    None => {
                        proof {
                            assert(rv[i as int].shorthand is None);
                        }
                        return Err(GraphError::NonUtf8Text);
                    },
                };
                let mut label = String::new();
                if rf.is_head {
                    label.append("* ");
                }
                label.append(short.as_str());
                proof {
                    assert(label@ =~= head_marked(rv[i as int].shorthand->Some_0, rv[
                        i as int
                    ].is_head));
                }
                let branch_type = if matches!(rf.kind, RefKind::RemoteBranch) {
                    String::from_str("remote")
                } else {
                    String::from_str("local")
                };
                let bnt = BranchNameAndType { shorthand: label, branch_type };
                proof {
                    assert(bnt@ == branch_label(rv[i as int]));
                }
                match &rf.target_oid {
                    Some(t) => {
                        add_ref_to_groups(&mut gs, t, bnt);
                        proof {
                            assert(rv[i as int].target == Some(t@));
                        }
                    },
                    None => {
                        proof {
                            assert(rv[i as int].target is None);
                        }
                    },
                }
            },
            RefKind::Tag => {
            },
        }
        i = i + 1;
    }
    proof {
        assert(groups_view(gs@) == spec_branch_groups(rv, rv.len() as int));
    }

    if head_detached {
        match head_target {
            Some(t) => {
                let bnt = BranchNameAndType {
                    shorthand: String::from_str("* HEAD"),
                    branch_type: String::from_str("local"),
                };
                add_ref_to_groups(&mut gs, t, bnt);
            },
            None => {
            },
        }
    }
    let ghost g1 = spec_head_group(
        spec_branch_groups(rv, rv.len() as int),
        head_detached,
        head_target.deep_view(),
    );
    proof {
        assert(groups_view(gs@) == g1);
    }

    let mut i: usize = 0;
    while i < refs.len()
        invariant
            i <= refs@.len(),
            rv == refs_view(refs@),
            g1 == spec_head_group(
                spec_branch_groups(rv, rv.len() as int),
                head_detached,
                head_target.deep_view(),
            ),
            groups_view(gs@) == spec_tag_groups(g1, rv, i as int),
            forall|j: int|
                0 <= j < rv.len() && !((#[trigger] rv[j]).kind is Tag) ==> rv[j].shorthand is Some,
            forall|j: int|
                0 <= j < i && (#[trigger] rv[j]).kind is Tag ==> rv[j].shorthand is Some,
        decreases refs@.len() - i,
    {
        let rf = &refs[i];
        match rf.kind {
            RefKind::Tag => {
                let short = match &rf.shorthand {
                    Some(s) => s,
                    None => {
                        proof {
                            assert(rv[i as int].shorthand is None);
                        }
                        return Err(GraphError::NonUtf8Text);
                    },
                };
                let bnt = BranchNameAndType {
                    shorthand: short.clone(),
                    branch_type: String::from_str("tag"),
                };
                match &rf.target_oid {
                    Some(t) => {
                        add_ref_to_groups(&mut gs, t, bnt);
                        proof {
                            assert(rv[i as int].target == Some(t@));
                        }
                    },
                    None => {
                        proof {
                            assert(rv[i as int].target is None);
                        }
                    },
                }
            },
            RefKind::LocalBranch | RefKind::RemoteBranch => {
            },
        }
        i = i + 1;
    }
    proof {
        assert(refs_decodable(rv));
    }
    Ok(gs)
}

/// Whether a label carries the checked-out head's `* ` marker.
pub open spec fn is_head_marked(t: Seq<char>) -> bool {
    t.len() >= 2 && t[0] == '*' && t[1] == ' '
}

/// The stacking rank of one label: the current head ref first, then
/// local branches, then remote branches, then tags.
pub open spec fn label_priority(b: BntView) -> int {
    if is_head_marked(b.shorthand) {
        0
    } else if b.branch_type == "local"@ {
        1
    } else if b.branch_type == "remote"@ {
        2
    } else if b.branch_type == "tag"@ {
        3
    } else {
        4
    }
}

/// The labels of one priority, in their incoming order.
pub open spec fn bucket(s: Seq<BntView>, p: int) -> Seq<BntView>
    decreases s.len(),
{
    if s.len() == 0 {
        Seq::empty()
    } else {
        bucket(s.drop_last(), p) + if label_priority(s.last()) == p {
            seq![s.last()]
        } else {
            Seq::empty()
        }
    }
}

/// The stacking order of a commit's labels: the priority groups
/// concatenated, each keeping its incoming order.
pub open spec fn spec_label_order(s: Seq<BntView>) -> Seq<BntView> {
    bucket(s, 0) + bucket(s, 1) + bucket(s, 2) + bucket(s, 3) + bucket(s, 4)
}

/// What label placement promises: one placed label per incoming label,
/// in stacking order, each carrying its position as offset.
pub open spec fn labels_ok(props: Seq<RefLabelProperty>, ordered: Seq<BntView>) -> bool {
    &&& props.len() == ordered.len()
    &&& forall|k: int|
        0 <= k < props.len() ==> {
            &&& (#[trigger] props[k]).label@ == ordered[k].shorthand
            &&& props[k].ref_type@ == ordered[k].branch_type
            &&& props[k].offset == k
        }
}

/// Whether a label text begins with the head marker `* `.
fn has_head_marker(s: &String) -> (b: bool)
    ensures
        b == is_head_marked(s@),
{
    let st = s.as_str();
    if st.unicode_len() >= 2 {
        st.get_char(0) == '*' && st.get_char(1) == ' '
    } else {
        false
    }
}

/// The stacking rank of one decorated label.
fn priority_of(b: &BranchNameAndType) -> (p: usize)
    ensures
        p as int == label_priority(b@),
{
    let local = String::from_str("local");
    let remote = String::from_str("remote");
    let tag = String::from_str("tag");
    if has_head_marker(&b.shorthand) {
        0
    } else if b.branch_type == local {
        1
    } else if b.branch_type == remote {
        2
    } else if b.branch_type == tag {
        3
    } else {
        4
    }
}

/// Appends the labels of one priority group, placing each at the next
/// free offset.
fn append_bucket(out: &mut Vec<RefLabelProperty>, refs: &Vec<BranchNameAndType>, p: usize)
    ensures
        final(out)@.len() == old(out)@.len() + bucket(bnts_view(refs@), p as int).len(),
        forall|k: int| 0 <= k < old(out)@.len() ==> final(out)@[k] == old(out)@[k],
        forall|k: int|
            0 <= k < bucket(bnts_view(refs@), p as int).len() ==> {
                &&& final(out)@[old(out)@.len() + k].label@ == (#[trigger] bucket(
                    bnts_view(refs@),
                    p as int,
                )[k]).shorthand
                &&& final(out)@[old(out)@.len() + k].ref_type@ == bucket(
                    bnts_view(refs@),
                    p as int,
                )[k].branch_type
                &&& final(out)@[old(out)@.len() + k].offset == old(out)@.len() + k
            },
{
    let ghost bv = bnts_view(refs@);
    let ghost base = out@.len();
    let ghost out0 = out@;
    let mut i: usize = 0;
    while i < refs.len()
        invariant
            i <= refs@.len(),
            bv == bnts_view(refs@),
            out@.len() == base + bucket(bv.take(i as int), p as int).len(),
            base == out0.len(),
            forall|k: int| 0 <= k < base ==> out@[k] == out0[k],
            forall|k: int|
                0 <= k < bucket(bv.take(i as int), p as int).len() ==> {
                    &&& (#[trigger] out@[base + k]).label@ == bucket(
                        bv.take(i as int),
                        p as int,
                    )[k].shorthand
                    &&& out@[base + k].ref_type@ == bucket(bv.take(i as int), p as int)[
                        k
                    ].branch_type
                    &&& out@[base + k].offset == base + k
                },
        decreases refs@.len() - i,
    {
        proof {
            let t1 = bv.take(i + 1);
            assert(t1.drop_last() =~= bv.take(i as int));
            assert(t1.last() == bv[i as int]);
        }
        if priority_of(&refs[i]) == p {
            let prop = RefLabelProperty {
                label: refs[i].shorthand.clone(),
                ref_type: refs[i].branch_type.clone(),
                offset: out.len(),
            };
            proof {
                assert(bucket(bv.take(i + 1), p as int) =~= bucket(bv.take(i as int), p as int)
                    .push(bv[i as int]));
            }
            out.push(prop);
        } else {
            proof {
                assert(bucket(bv.take(i + 1), p as int) =~= bucket(bv.take(i as int), p as int));
            }
        }
        i = i + 1;
    }
    proof {
        assert(bv.take(bv.len() as int) =~= bv);
    }
}

/// Places the labels of one commit's refs: the current head's marked
/// label first, then local branches, then remote branches, then tags,
/// each group in the
/// order the backend reported, stacked at increasing offsets so that
/// overlapping labels never print on top of one another.
pub fn get_branch_draw_properties(refs: &Vec<BranchNameAndType>) -> (props: Vec<RefLabelProperty>)
    ensures
        labels_ok(props@, spec_label_order(bnts_view(refs@))),
{
    let ghost bv = bnts_view(refs@);
    let mut out: Vec<RefLabelProperty> = Vec::new();
    append_bucket(&mut out, refs, 0);
    let ghost o1 = out@;
    append_bucket(&mut out, refs, 1);
    let ghost o2 = out@;
    append_bucket(&mut out, refs, 2);
    let ghost o3 = out@;
    append_bucket(&mut out, refs, 3);
    let ghost o4 = out@;
    append_bucket(&mut out, refs, 4);
    proof {
        let ordered = spec_label_order(bv);
        let b0 = bucket(bv, 0);
        let b1 = bucket(bv, 1);
        let b2 = bucket(bv, 2);
        let b3 = bucket(bv, 3);
        let b4 = bucket(bv, 4);
        assert(out@.len() == ordered.len());
        assert forall|k: int| 0 <= k < out@.len() implies {
            &&& (#[trigger] out@[k]).label@ == ordered[k].shorthand
            &&& out@[k].ref_type@ == ordered[k].branch_type
            &&& out@[k].offset == k
        } by {
            if k < b0.len() {
                assert(out@[k] == o4[k]);
                assert(o4[k] == o3[k]);
                assert(o3[k] == o2[k]);
                assert(o2[k] == o1[k]);
                assert(o1[k].label@ == b0[k].shorthand);
                assert(ordered[k] == b0[k]);
            } else if k < b0.len() + b1.len() {
                assert(out@[k] == o4[k]);
                assert(o4[k] == o3[k]);
                assert(o3[k] == o2[k]);
                assert(o2[o1.len() + (k - b0.len())].label@ == b1[k - b0.len()].shorthand);
                assert(ordered[k] == b1[k - b0.len()]);
            } else if k < b0.len() + b1.len() + b2.len() {
                assert(out@[k] == o4[k]);
                assert(o4[k] == o3[k]);
                assert(o3[o2.len() + (k - b0.len() - b1.len())].label@ == b2[k - b0.len()
                    - b1.len()].shorthand);
                assert(ordered[k] == b2[k - b0.len() - b1.len()]);
            } else if k < b0.len() + b1.len() + b2.len() + b3.len() {
                assert(out@[k] == o4[k]);
                assert(o4[o3.len() + (k - b0.len() - b1.len() - b2.len())].label@ == b3[k
                    - b0.len() - b1.len() - b2.len()].shorthand);
                assert(ordered[k] == b3[k - b0.len() - b1.len() - b2.len()]);
            } else {
                assert(out@[o4.len() + (k - b0.len() - b1.len() - b2.len() - b3.len())].label@
                    == b4[k - b0.len() - b1.len() - b2.len() - b3.len()].shorthand);
                assert(ordered[k] == b4[k - b0.len() - b1.len() - b2.len() - b3.len()]);
            }
        }
    }
    out
}

/// The mathematical content of a branch's metadata.
pub struct BranchInfoView {
    pub shorthand: Seq<char>,
    pub full_name: Seq<char>,
    pub is_head: bool,
    pub branch_type: Seq<char>,
    pub ahead: int,
    pub behind: int,
}

impl View for BranchInfo {
    type V = BranchInfoView;

    open spec fn view(&self) -> BranchInfoView {
        BranchInfoView {
            shorthand: self.branch_shorthand@,
            full_name: self.full_branch_name@,
            is_head: self.is_head,
            branch_type: self.branch_type@,
            ahead: self.ahead as int,
            behind: self.behind as int,
        }
    }
}

/// The mathematical content of a name-tree node.
pub struct TreeView {
    pub text: Seq<char>,
    pub info: Option<BranchInfoView>,
    pub children: Seq<TreeView>,
}

broadcast use vstd::std_specs::vec::group_vec_axioms;

/// The mathematical content of a whole name tree.
pub open spec fn tree_view(n: BranchInfoTreeNode) -> TreeView
    decreases n,
{
    TreeView {
        text: n.text@,
        info: match n.branch_info {
            Some(b) => Some(b@),
            None => None,
        },
        children: Seq::new(
            n.children@.len(),
            |i: int|
                if 0 <= i < n.children@.len() {
                    tree_view(n.children@[i])
                } else {
                    TreeView { text: Seq::empty(), info: None, children: Seq::empty() }
                },
        ),
    }
}

/// The views of a list of name segments.
pub open spec fn segs_view(s: Seq<String>) -> Seq<Seq<char>> {
    s.map_values(|x: String| x@)
}

/// The first child at or after `i` whose text is `text`.
pub open spec fn find_child(cs: Seq<TreeView>, text: Seq<char>, i: int) -> Option<int>
    decreases cs.len() - i when 0 <= i <= cs.len()
{
    if i < 0 || i >= cs.len() {
        None
    } else if cs[i].text == text {
        Some(i)
    } else {
        find_child(cs, text, i + 1)
    }
}

/// The fresh chain of nodes for the remaining segments of a new branch
/// path: one node per segment, the leaf carrying the branch's metadata.
pub open spec fn spec_chain(segs: Seq<Seq<char>>, info: BranchInfoView) -> TreeView
    decreases segs.len(),
{
    if segs.len() <= 1 {
        TreeView { text: segs[0], info: Some(info), children: Seq::empty() }
    } else {
        TreeView { text: segs[0], info: None, children: seq![spec_chain(segs.skip(1), info)] }
    }
}

/// Inserting one split branch name into a name tree: descend along
/// matching children, append a fresh chain where the path diverges. The
/// metadata lands on the leaf only when that leaf is newly created.
pub open spec fn spec_insert(t: TreeView, segs: Seq<Seq<char>>, info: BranchInfoView) -> TreeView
    decreases segs.len(),
{
    if segs.len() == 0 {
        t
    } else {
        match find_child(t.children, segs[0], 0) {
            Some(j) => TreeView {
                text: t.text,
                info: t.info,
                children: t.children.update(j, spec_insert(t.children[j], segs.skip(1), info)),
            },
            None => TreeView {
                text: t.text,
                info: t.info,
                children: t.children.push(spec_chain(segs, info)),
            },
        }
    }
}

impl BranchInfoTreeNode {
    pub fn new(text: String, branch_info: Option<BranchInfo>) -> (r: BranchInfoTreeNode)
        ensures
            tree_view(r) == (TreeView {
                text: text@,
                info: match branch_info {
                    Some(b) => Some(b@),
                    None => None,
                },
                children: Seq::<TreeView>::empty(),
            }),
    {
        let r = BranchInfoTreeNode { text, branch_info, children: Vec::new() };
        proof {
            assert(tree_view(r).children =~= Seq::<TreeView>::empty());
        }
        r
    }

    /// Inserts one branch, its shorthand already split on `/`, into the
    /// tree. The receiver must be the root node.
    pub fn insert_split_shorthand(
        &mut self,
        split_shorthand: VecDeque<String>,
        branch_info: BranchInfo,
    )
        requires
            old(self).text@.len() == 0,
        ensures
            tree_view(*final(self)) == spec_insert(
                tree_view(*old(self)),
                segs_view(split_shorthand@),
                branch_info@,
            ),
    {
        let ghost all = segs_view(split_shorthand@);
        let mut vd = split_shorthand;
        let mut segs: Vec<String> = Vec::new();
        while vd.len() > 0
            invariant
                segs_view(segs@) + segs_view(vd@) =~= all,
            decreases vd@.len(),
        {
            let ghost segs_pre = segs@;
            let ghost vd_pre = vd@;
            match vd.pop_front() {
                Some(s) => {
                    segs.push(s);
                    proof {
                        assert(segs_view(segs@) =~= segs_view(segs_pre).push(vd_pre[0]@));
                        assert(segs_view(vd@) =~= segs_view(vd_pre).skip(1));
                        assert(segs_view(segs@) + segs_view(vd@) =~= all);
                    }
                },
                None => {
                },
            }
        }
        proof {
            assert(segs_view(segs@) =~= all);
        }
        insert_segments(self, &segs, 0, branch_info);
        proof {
            assert(segs_view(segs@).skip(0) =~= all);
        }
    }
}

proof fn lemma_find_child_skip(cs: Seq<TreeView>, text: Seq<char>, i: int)
    requires
        0 <= i <= cs.len(),
        forall|j: int| 0 <= j < i ==> (#[trigger] cs[j]).text != text,
    ensures
        find_child(cs, text, 0) == find_child(cs, text, i),
    decreases i,
{
    if i > 0 {
        lemma_find_child_skip(cs, text, i - 1);
    }
}

/// Builds the fresh chain of nodes for the segments from `at` on.
fn build_chain(segs: &Vec<String>, at: usize, info: BranchInfo) -> (n: BranchInfoTreeNode)
    requires
        at < segs@.len(),
    ensures
        tree_view(n) == spec_chain(segs_view(segs@).skip(at as int), info@),
    decreases segs@.len() - at,
{
    let ghost sv = segs_view(segs@);
    if at == segs.len() - 1 {
        let n = BranchInfoTreeNode {
            text: segs[at].clone(),
            branch_info: Some(info),
            children: Vec::new(),
        };
        proof {
            assert(sv.skip(at as int).len() == 1);
            assert(sv.skip(at as int)[0] == sv[at as int]);
            assert(tree_view(n).children =~= Seq::<TreeView>::empty());
        }
        n
    } else {
        let child = build_chain(segs, at + 1, info);
        let mut children: Vec<BranchInfoTreeNode> = Vec::new();
        children.push(child);
        let n = BranchInfoTreeNode { text: segs[at].clone(), branch_info: None, children };
        proof {
            assert(sv.skip(at as int).len() >= 2);
            assert(sv.skip(at as int)[0] == sv[at as int]);
            assert(sv.skip(at as int).skip(1) =~= sv.skip(at + 1));
            assert(tree_view(n).children =~= seq![spec_chain(sv.skip(at + 1), info@)]);
        }
        n
    }
}

/// Inserts the segments from `at` on under `node`.
fn insert_segments(node: &mut BranchInfoTreeNode, segs: &Vec<String>, at: usize, info: BranchInfo)
    requires
        at <= segs@.len(),
    ensures
        tree_view(*final(node)) == spec_insert(
            tree_view(*old(node)),
            segs_view(segs@).skip(at as int),
            info@,
        ),
    decreases segs@.len() - at,
{
    let ghost t0 = tree_view(*node);
    let ghost sv = segs_view(segs@);
    let ghost rest = sv.skip(at as int);
    if at == segs.len() {
        proof {
            assert(rest.len() == 0);
        }
        return ;
    }
    proof {
        assert(rest[0] == sv[at as int]);
    }
    let seg = &segs[at];
    let mut j: usize = 0;
    let mut found: Option<usize> = None;
    while j < node.children.len() && found.is_none()
        invariant
            j <= node.children@.len(),
            tree_view(*node) == t0,
            t0.children.len() == node.children@.len(),
            forall|k: int| 0 <= k < node.children@.len() ==> t0.children[k] == tree_view(
                #[trigger] node.children@[k],
            ),
            match found {
                Some(f) => f < node.children@.len() && f == j && t0.children[f as int].text
                    == seg@ && (forall|k: int|
                    0 <= k < f ==> (#[trigger] t0.children[k]).text != seg@),
                None => forall|k: int| 0 <= k < j ==> (#[trigger] t0.children[k]).text != seg@,
            },
        decreases node.children@.len() - j + if found is Some { 0int } else { 1int },
    {
        if node.children[j].text == *seg {
            proof {
                assert(t0.children[j as int].text == seg@);
            }
            found = Some(j);
        } else {
            proof {
                assert(t0.children[j as int].text != seg@);
            }
            j = j + 1;
        }
    }
    match found {
        Some(f) => {
            proof {
                lemma_find_child_skip(t0.children, seg@, f as int);
                assert(find_child(t0.children, seg@, 0) == Some(f as int));
            }
            let mut tmp = BranchInfoTreeNode {
                text: String::new(),
                branch_info: None,
                children: Vec::new(),
            };
            node.children.set_and_swap(f, &mut tmp);
            let ghost child0 = tree_view(tmp);
            proof {
                assert(child0 == t0.children[f as int]);
            }
            insert_segments(&mut tmp, segs, at + 1, info);
            node.children.set_and_swap(f, &mut tmp);
            proof {
                assert(sv.skip(at + 1) =~= rest.skip(1));
                assert(tree_view(*node).children =~= t0.children.update(
                    f as int,
                    spec_insert(child0, rest.skip(1), info@),
                ));
                assert(tree_view(*node) == spec_insert(t0, rest, info@));
            }
        },
        None => {
            proof {
                lemma_find_child_skip(t0.children, seg@, t0.children.len() as int);
                assert(find_child(t0.children, seg@, 0) is None);
            }
            let chain = build_chain(segs, at, info);
            proof {
                assert(tree_view(chain) == spec_chain(rest, info@));
            }
            node.children.push(chain);
            proof {
                assert(tree_view(*node).children =~= t0.children.push(spec_chain(rest, info@)));
                assert(tree_view(*node) == spec_insert(t0, rest, info@));
            }
        },
    }
}

/// The scanning state after the first `i` characters of a split: the
/// finished segments and the running one.
pub open spec fn split_state(s: Seq<char>, sep: char, i: int) -> (Seq<Seq<char>>, Seq<char>)
    decreases i,
{
    if i <= 0 {
        (Seq::empty(), Seq::empty())
    } else {
        let (d, c) = split_state(s, sep, i - 1);
        if s[i - 1] == sep {
            (d.push(c), Seq::empty())
        } else {
            (d, c.push(s[i - 1]))
        }
    }
}

/// A name split on a separator: always at least one segment, separators
/// not kept.
pub open spec fn spec_split(s: Seq<char>, sep: char) -> Seq<Seq<char>> {
    split_state(s, sep, s.len() as int).0.push(split_state(s, sep, s.len() as int).1)
}

/// Splits a branch shorthand on `/` into its name segments.
pub fn split_shorthand(s: &String) -> (segs: Vec<String>)
    ensures
        segs_view(segs@) == spec_split(s@, '/'),
        segs@.len() >= 1,
{
    let st = s.as_str();
    let n = st.unicode_len();
    let mut segs: Vec<String> = Vec::new();
    let mut start: usize = 0;
    let mut i: usize = 0;
    while i < n
        invariant
            start <= i <= n,
            n == s@.len(),
            st@ == s@,
            segs_view(segs@) =~= split_state(s@, '/', i as int).0,
            split_state(s@, '/', i as int).1 =~= s@.subrange(start as int, i as int),
        decreases n - i,
    {
        let c = st.get_char(i);
        if c == '/' {
            let seg = String::from_str(st.substring_char(start, i));
            segs.push(seg);
            proof {
                assert(segs_view(segs@) =~= split_state(s@, '/', i + 1).0);
                assert(split_state(s@, '/', i + 1).1 =~= s@.subrange(i + 1, i + 1));
            }
            start = i + 1;
        } else {
            proof {
                assert(split_state(s@, '/', i + 1).0 =~= split_state(s@, '/', i as int).0);
                assert(split_state(s@, '/', i + 1).1 =~= s@.subrange(start as int, i + 1));
            }
        }
        i = i + 1;
    }
    let last = String::from_str(st.substring_char(start, n));
    segs.push(last);
    proof {
        assert(segs_view(segs@) =~= spec_split(s@, '/'));
    }
    segs
}

/// The remote-head names to exclude from the ref trees: one
/// `<remote>/HEAD` entry per remote.
pub open spec fn spec_remote_heads(remotes: Seq<Seq<char>>) -> Seq<Seq<char>> {
    remotes.map_values(|r: Seq<char>| r + "/HEAD"@)
}

/// Whether a name occurs in a list of names.
pub open spec fn seq_contains_name(names: Seq<Seq<char>>, n: Seq<char>) -> bool {
    exists|i: int| 0 <= i < names.len() && names[i] == n
}

/// Whether a shorthand is one of the excluded remote heads.
fn contains_name(names: &Vec<String>, s: &String) -> (b: bool)
    ensures
        b == seq_contains_name(segs_view(names@), s@),
{
    let mut i: usize = 0;
    while i < names.len()
        invariant
            i <= names@.len(),
            forall|j: int| 0 <= j < i ==> segs_view(names@)[j] != s@,
        decreases names@.len() - i,
    {
        if names[i] == *s {
            assert(segs_view(names@)[i as int] == s@);
            return true;
        }
        proof {
            assert(segs_view(names@)[i as int] != s@);
        }
        i = i + 1;
    }
    false
}

/// The payload name of a ref kind.
pub open spec fn branch_type_name(k: RefKind) -> Seq<char> {
    match k {
        RefKind::LocalBranch => "local"@,
        RefKind::RemoteBranch => "remote"@,
        RefKind::Tag => "tag"@,
    }
}

/// The metadata a decodable ref contributes to its tree leaf.
pub open spec fn ref_branch_info(r: RefFactView) -> BranchInfoView {
    BranchInfoView {
        shorthand: r.shorthand->Some_0,
        full_name: r.full_name->Some_0,
        is_head: r.is_head,
        branch_type: branch_type_name(r.kind),
        ahead: r.ahead,
        behind: r.behind,
    }
}

/// An empty tree root.
pub open spec fn empty_tree() -> TreeView {
    TreeView { text: Seq::empty(), info: None, children: Seq::empty() }
}

/// The three name trees after filing the first `i` refs, skipping the
/// excluded remote heads.
pub open spec fn spec_forest(rs: Seq<RefFactView>, i: int, excl: Seq<Seq<char>>) -> (
    TreeView,
    TreeView,
    TreeView,
)
    decreases i,
{
    if i <= 0 {
        (empty_tree(), empty_tree(), empty_tree())
    } else {
        let (l, rr, t) = spec_forest(rs, i - 1, excl);
        let rf = rs[i - 1];
        if seq_contains_name(excl, rf.shorthand->Some_0) {
            (l, rr, t)
        } else {
            let segs = spec_split(rf.shorthand->Some_0, '/');
            let info = ref_branch_info(rf);
            match rf.kind {
                RefKind::LocalBranch => (spec_insert(l, segs, info), rr, t),
                RefKind::RemoteBranch => (l, spec_insert(rr, segs, info), t),
                RefKind::Tag => (l, rr, spec_insert(t, segs, info)),
            }
        }
    }
}

/// Every ref name the tree pass reads was decodable: each shorthand,
/// and the full name of every ref that is not an excluded remote head.
pub open spec fn branch_refs_decodable(rs: Seq<RefFactView>, excl: Seq<Seq<char>>) -> bool {
    forall|i: int|
        0 <= i < rs.len() ==> {
            &&& (#[trigger] rs[i]).shorthand is Some
            &&& (!seq_contains_name(excl, rs[i].shorthand->Some_0) ==> rs[i].full_name is Some)
        }
}

/// Builds the hierarchical name tree of each ref category: shorthand
/// names split on `/`, one level per segment, the leaf carrying the
/// branch metadata; remote `HEAD` pointers are left out. Fails, without
/// partial output, when a name was not decodable text.
pub fn get_branch_info_list(refs: &Vec<RefFact>, remotes: &Vec<String>) -> (r: Result<
    BranchesInfo,
    GraphError,
>)
    ensures
        r is Ok <==> branch_refs_decodable(
            refs_view(refs@),
            spec_remote_heads(segs_view(remotes@)),
        ),
        r matches Err(e) ==> e is NonUtf8Text,
        r matches Ok(b) ==> {
            let (l, rr, t) = spec_forest(
                refs_view(refs@),
                refs@.len() as int,
                spec_remote_heads(segs_view(remotes@)),
            );
            &&& tree_view(b.local_branch_info_tree) == l
            &&& tree_view(b.remote_branch_info_tree) == rr
            &&& tree_view(b.tag_branch_info_tree) == t
        },
{
    let ghost rv = refs_view(refs@);
    let ghost excl = spec_remote_heads(segs_view(remotes@));

    let mut remote_heads: Vec<String> = Vec::new();
    let mut i: usize = 0;
    while i < remotes.len()
        invariant
            i <= remotes@.len(),
            remote_heads@.len() == i,
            forall|j: int|
                0 <= j < i ==> (#[trigger] remote_heads@[j])@ == spec_remote_heads(
                    segs_view(remotes@),
                )[j],
        decreases remotes@.len() - i,
    {
        let mut h = remotes[i].clone();
        h.append("/HEAD");
        remote_heads.push(h);
        i = i + 1;
    }
    proof {
        assert(segs_view(remote_heads@) =~= excl);
    }

    let mut local_tree = BranchInfoTreeNode::new(String::new(), None);
    let mut remote_tree = BranchInfoTreeNode::new(String::new(), None);
    let mut tag_tree = BranchInfoTreeNode::new(String::new(), None);

    let mut i: usize = 0;
    while i < refs.len()
        invariant
            i <= refs@.len(),
            rv == refs_view(refs@),
            excl == spec_remote_heads(segs_view(remotes@)),
            segs_view(remote_heads@) == excl,
            local_tree.text@.len() == 0,
            remote_tree.text@.len() == 0,
            tag_tree.text@.len() == 0,
            (tree_view(local_tree), tree_view(remote_tree), tree_view(tag_tree)) == spec_forest(
                rv,
                i as int,
                excl,
            ),
            forall|j: int|
                0 <= j < i ==> {
                    &&& (#[trigger] rv[j]).shorthand is Some
                    &&& (!seq_contains_name(excl, rv[j].shorthand->Some_0) ==> rv[
                        j
                    ].full_name is Some)
                },
        decreases refs@.len() - i,
    {
        let ghost forest_pre = spec_forest(rv, i as int, excl);
        let rf = &refs[i];
        let shorthand = match &rf.shorthand {
            Some(s) => s.clone(),
            None => {
                proof {
                    assert(rv[i as int].shorthand is None);
                }
                return Err(GraphError::NonUtf8Text);
            },
        };
        if contains_name(&remote_heads, &shorthand) {
            proof {
                assert(seq_contains_name(excl, rv[i as int].shorthand->Some_0));
                assert(spec_forest(rv, i + 1, excl) == forest_pre);
            }
            i = i + 1;
            continue ;
        }
        let full_name = match &rf.full_name {
            Some(s) => s.clone(),
            None => {
                proof {
                    assert(rv[i as int].full_name is None);
                    assert(!seq_contains_name(excl, rv[i as int].shorthand->Some_0));
                }
                return Err(GraphError::NonUtf8Text);
            },
        };
        let branch_type = match rf.kind {
            RefKind::LocalBranch => String::from_str("local"),
            RefKind::RemoteBranch => String::from_str("remote"),
            RefKind::Tag => String::from_str("tag"),
        };
        let segs = split_shorthand(&shorthand);
        let mut split_deque: VecDeque<String> = VecDeque::new();
        let mut k: usize = 0;
        while k < segs.len()
            invariant
                k <= segs@.len(),
                segs_view(split_deque@) =~= segs_view(segs@).take(k as int),
            decreases segs@.len() - k,
        {
            let seg = segs[k].clone();
            proof {
                assert(seg@ == segs@[k as int]@);
            }
            let ghost dq_pre = split_deque@;
            split_deque.push_back(seg);
            proof {
                assert(split_deque@ == dq_pre.push(seg));
                assert(segs_view(dq_pre).len() == dq_pre.len());
                assert(segs_view(dq_pre).len() == k);
                assert forall|j: int| 0 <= j < k + 1 implies segs_view(split_deque@)[j]
                    == segs_view(segs@).take(k + 1)[j] by {
                    if j < k {
                        assert(segs_view(dq_pre)[j] == segs_view(segs@).take(k as int)[j]);
                        assert(dq_pre.push(seg)[j] == dq_pre[j]);
                    } else {
                        assert(dq_pre.push(seg)[j] == seg);
                    }
                }
                assert(segs_view(split_deque@) =~= segs_view(segs@).take(k + 1));
            }
            k = k + 1;
        }
        proof {
            assert(segs_view(split_deque@) =~= segs_view(segs@));
        }
        let branch_info = BranchInfo::new(
            shorthand,
            full_name,
            rf.is_head,
            branch_type,
            rf.ahead,
            rf.behind,
        );
        proof {
            assert(branch_info@ == ref_branch_info(rv[i as int]));
        }
        match rf.kind {
            RefKind::LocalBranch => {
                local_tree.insert_split_shorthand(split_deque, branch_info);
            },
            RefKind::RemoteBranch => {
                remote_tree.insert_split_shorthand(split_deque, branch_info);
            },
            RefKind::Tag => {
                tag_tree.insert_split_shorthand(split_deque, branch_info);
            },
        }
        proof {
            assert((tree_view(local_tree), tree_view(remote_tree), tree_view(tag_tree))
                == spec_forest(rv, i + 1, excl));
        }
        i = i + 1;
    }
    Ok(BranchesInfo { local_branch_info_tree: local_tree, remote_branch_info_tree: remote_tree, tag_branch_info_tree: tag_tree })
}

/// The oids of a walk, in row order.
pub open spec fn walk_oids(w: Seq<crate::svg_row::CommitFactView>) -> Seq<Seq<char>> {
    w.map_values(|c: crate::svg_row::CommitFactView| c.oid)
}

/// The oid list of the new walk, the caller's next snapshot.
pub fn walk_oid_vec(walk: &Vec<CommitFact>) -> (v: Vec<String>)
    ensures
        v.deep_view() == walk_oids(crate::svg_row::walk_view(walk@)),
{
    let mut v: Vec<String> = Vec::new();
    let mut i: usize = 0;
    while i < walk.len()
        invariant
            i <= walk@.len(),
            v@.len() == i,
            forall|j: int| 0 <= j < i ==> (#[trigger] v@[j])@ == walk@[j].oid@,
        decreases walk@.len() - i,
    {
        v.push(walk[i].oid.clone());
        i = i + 1;
    }
    proof {
        assert(v.deep_view() =~= walk_oids(crate::svg_row::walk_view(walk@)));
    }
    v
}

/// The rows the layout carries for a walk: one per commit, identity,
/// summary, parents, children and row index as the builder produced
/// them, with some lane assignment.
pub open spec fn laid_out_rows(
    w: Seq<crate::svg_row::CommitFactView>,
    rows: Seq<crate::svg_row::SVGRowView>,
) -> bool {
    &&& rows.len() == w.len()
    &&& forall|i: int|
        0 <= i < w.len() ==> {
            &&& (#[trigger] rows[i]).sha == w[i].oid
            &&& w[i].summary == Some(rows[i].summary)
            &&& rows[i].parents == w[i].parents
            &&& rows[i].children == crate::svg_row::spec_children(w, w[i].oid)
            &&& rows[i].y == i
        }
}

/// What the per-oid label placement of the payload promises.
pub open spec fn branch_props_ok(
    props: Seq<BranchDrawProperty>,
    groups: Seq<OidRefsView>,
) -> bool {
    &&& props.len() == groups.len()
    &&& forall|k: int|
        0 <= k < groups.len() ==> {
            &&& (#[trigger] props[k]).oid@ == groups[k].oid
            &&& labels_ok(props[k].labels@, spec_label_order(groups[k].refs))
        }
}

/// What the commit-layout section promises when it is produced: the
/// deleted rows and reset flag follow the differ; the draw properties
/// describe rows built from the walk whose lanes come from an occupied
/// table satisfying the lane-allocation contract; the ref labels are
/// grouped by oid and placed in stacking order. A pure ref-pointer
/// change carries no rows and no deletions.
pub open spec fn commits_payload_ok(
    ops: crate::classifier::GraphOps,
    prev: Seq<Seq<char>>,
    w: Seq<crate::svg_row::CommitFactView>,
    rs: Seq<RefFactView>,
    head_detached: bool,
    head_target: Option<Seq<char>>,
    ci: CommitsInfo,
) -> bool {
    &&& branch_props_ok(
        ci.branch_draw_properties@,
        spec_oid_refs(rs, head_detached, head_target),
    )
    &&& if crate::classifier::walk_required(ops) {
        &&& crate::differ::row_changes_match(
            ci.deleted_sha_changes@,
            prev,
            prev.len() - crate::differ::spec_keep_len(ops, prev, walk_oids(w)),
        )
        &&& ci.clear_entire_old_graph == crate::differ::spec_full_reset(ops, prev, walk_oids(w))
        &&& exists|
            rows: Seq<crate::svg_row::SVGRowView>,
            t: Seq<crate::occupied_table::OccupiedRowView>,
        |
            {
                &&& #[trigger] crate::occupied_table::table_ok(rows, t)
                &&& laid_out_rows(w, rows)
                &&& crate::svg_row::draw_properties_ok(rows, ci.svg_row_draw_properties@)
            }
    } else {
        &&& ci.deleted_sha_changes@.len() == 0
        &&& !ci.clear_entire_old_graph
        &&& ci.svg_row_draw_properties@.len() == 0
    }
}

/// Computes the commit-layout section for one triggering action: diffs
/// the new walk against the previous snapshot, materializes the rows,
/// assigns lanes through the occupied table, emits the per-row draw
/// properties and places the ref labels. A pure ref-pointer change
/// skips the walk and only recomputes label placement. Any undecodable
/// text aborts the whole computation without partial output.
pub fn get_commit_svg_draw_properties_list(
    commit_ops: crate::classifier::GraphOps,
    prev_oids: &Vec<String>,
    walk: &Vec<CommitFact>,
    refs: &Vec<RefFact>,
    head_detached: bool,
    head_target: &Option<String>,
) -> (r: Result<CommitsInfo, GraphError>)
    ensures
        r is Ok <==> (refs_decodable(refs_view(refs@)) && (crate::classifier::walk_required(
            commit_ops,
        ) ==> crate::svg_row::facts_decodable(crate::svg_row::walk_view(walk@)))),
        r matches Err(e) ==> e is NonUtf8Text,
        r matches Ok(ci) ==> commits_payload_ok(
            commit_ops,
            prev_oids.deep_view(),
            crate::svg_row::walk_view(walk@),
            refs_view(refs@),
            head_detached,
            head_target.deep_view(),
            ci,
        ),
{
    let ghost w = crate::svg_row::walk_view(walk@);
    let ghost rs = refs_view(refs@);
    let mut deleted: Vec<SHAChange> = Vec::new();
    let mut clear = false;
    let mut row_props: Vec<RowDrawProperty> = Vec::new();
    if !matches!(commit_ops, crate::classifier::GraphOps::RefChange) {
        let new_oids = walk_oid_vec(walk);
        let sha_changes = crate::differ::diff_walk(commit_ops, prev_oids, &new_oids);
        let mut rows = match crate::svg_row::get_commit_info_list(walk) {
            Ok(rows) => rows,
            Err(e) => {
                return Err(e);
            },
        };
        let ghost rv0 = crate::svg_row::rows_view(rows@);
        let table = crate::occupied_table::get_occupied_table(&mut rows);
        row_props = crate::svg_row::get_draw_properties(&rows);
        deleted = sha_changes.deleted;
        clear = sha_changes.clear_entire_old_graph;
        proof {
            let rv = crate::svg_row::rows_view(rows@);
            let tv = crate::occupied_table::table_view(table.rows@);
            assert forall|i: int| 0 <= i < w.len() implies {
                &&& (#[trigger] rv[i]).sha == w[i].oid
                &&& w[i].summary == Some(rv[i].summary)
                &&& rv[i].parents == w[i].parents
                &&& rv[i].children == crate::svg_row::spec_children(w, w[i].oid)
                &&& rv[i].y == i
            } by {
                assert(crate::svg_row::built_row_ok(w, rv0[i], i));
                assert(crate::occupied_table::lane_only_update(rv0[i], rv[i]));
            }
            assert(laid_out_rows(w, rv));
            assert(crate::occupied_table::table_ok(rv, tv));
            assert(crate::svg_row::draw_properties_ok(rv, row_props@));
        }
    }
    let oid_groups = match get_oid_refs(refs, head_detached, head_target) {
        Ok(g) => g,
        Err(e) => {
            return Err(e);
        },
    };
    let mut branch_props: Vec<BranchDrawProperty> = Vec::new();
    let mut k: usize = 0;
    while k < oid_groups.len()
        invariant
            k <= oid_groups@.len(),
            branch_props@.len() == k,
            forall|j: int|
                0 <= j < k ==> {
                    &&& (#[trigger] branch_props@[j]).oid@ == groups_view(oid_groups@)[j].oid
                    &&& labels_ok(
                        branch_props@[j].labels@,
                        spec_label_order(groups_view(oid_groups@)[j].refs),
                    )
                },
        decreases oid_groups@.len() - k,
    {
        let labels = get_branch_draw_properties(&oid_groups[k].refs);
        proof {
            assert(bnts_view(oid_groups@[k as int].refs@) == groups_view(oid_groups@)[
                k as int
            ].refs);
        }
        branch_props.push(BranchDrawProperty { oid: oid_groups[k].oid.clone(), labels });
        k = k + 1;
    }
    Ok(
        CommitsInfo {
            deleted_sha_changes: deleted,
            clear_entire_old_graph: clear,
            branch_draw_properties: branch_props,
            svg_row_draw_properties: row_props,
        },
    )
}

/// The decoded values of a list of names known to be decodable.
pub open spec fn decoded_names(ns: Seq<Option<Seq<char>>>) -> Seq<Seq<char>> {
    ns.map_values(|o: Option<Seq<char>>| o->Some_0)
}

/// Every text fact a full payload reads was decodable.
pub open spec fn repo_facts_decodable(
    ops: crate::classifier::GraphOps,
    facts: RepoFacts,
) -> bool {
    &&& refs_decodable(refs_view(facts.refs@))
    &&& (crate::classifier::walk_required(ops) ==> crate::svg_row::facts_decodable(
        crate::svg_row::walk_view(facts.walk@),
    ))
    &&& names_decodable(names_view(facts.remote_names@))
    &&& branch_refs_decodable(
        refs_view(facts.refs@),
        spec_remote_heads(decoded_names(names_view(facts.remote_names@))),
    )
    &&& deltas_decodable(deltas_view(facts.unstaged_deltas@))
    &&& deltas_decodable(deltas_view(facts.staged_deltas@))
}

/// What the aggregated payload promises: five sections, keyed by name
/// and in order, each carrying exactly what its component computes.
pub open spec fn repo_info_ok(
    ops: crate::classifier::GraphOps,
    prev: Seq<Seq<char>>,
    facts: RepoFacts,
    v: Seq<RepoInfoEntry>,
) -> bool {
    let rs = refs_view(facts.refs@);
    let w = crate::svg_row::walk_view(facts.walk@);
    let nv = names_view(facts.remote_names@);
    &&& v.len() == 5
    &&& v[0].key@ == "general_info"@
    &&& (v[0].value matches RepoInfoValue::SomeGeneralInfo(g) && general_info_ok(
        facts.head_has_upstream,
        facts.repo_state,
        g,
    ))
    &&& v[1].key@ == "commit_info_list"@
    &&& (v[1].value matches RepoInfoValue::SomeCommitInfo(ci) && commits_payload_ok(
        ops,
        prev,
        w,
        rs,
        facts.head_detached,
        facts.head_target_oid.deep_view(),
        ci,
    ))
    &&& v[2].key@ == "branch_info_list"@
    &&& (v[2].value matches RepoInfoValue::SomeBranchInfo(b) && {
        let (l, rr, t) = spec_forest(
            rs,
            rs.len() as int,
            spec_remote_heads(decoded_names(nv)),
        );
        &&& tree_view(b.local_branch_info_tree) == l
        &&& tree_view(b.remote_branch_info_tree) == rr
        &&& tree_view(b.tag_branch_info_tree) == t
    })
    &&& v[3].key@ == "remote_info_list"@
    &&& (v[3].value matches RepoInfoValue::SomeRemoteInfo(names) && {
        &&& names@.len() == nv.len()
        &&& forall|i: int| 0 <= i < nv.len() ==> (#[trigger] names@[i])@ == nv[i]->Some_0
    })
    &&& v[4].key@ == "files_changed_info_list"@
    &&& (v[4].value matches RepoInfoValue::SomeFilesChangedInfo(f) && files_changed_ok(
        deltas_view(facts.unstaged_deltas@),
        deltas_view(facts.staged_deltas@),
        f,
    ))
}

/// Aggregates one triggering action's whole payload, keyed by logical
/// section: general flags, the commit-layout delta, the ref name trees,
/// the remote names and the working-tree change summary. Any failure
/// aborts the whole computation and surfaces a single error; the caller
/// then keeps its previous snapshot.
pub fn get_parseable_repo_info(
    facts: &RepoFacts,
    commit_ops: crate::classifier::GraphOps,
    prev_oids: &Vec<String>,
) -> (r: Result<Vec<RepoInfoEntry>, GraphError>)
    requires
        facts.unstaged_deltas@.len() + facts.staged_deltas@.len() <= usize::MAX,
    ensures
        r is Ok <==> repo_facts_decodable(commit_ops, *facts),
        r matches Err(e) ==> e is NonUtf8Text,
        r matches Ok(v) ==> repo_info_ok(commit_ops, prev_oids.deep_view(), *facts, v@),
{
    let general = get_general_info(facts.head_has_upstream, facts.repo_state);
    let commits = match get_commit_svg_draw_properties_list(
        commit_ops,
        prev_oids,
        &facts.walk,
        &facts.refs,
        facts.head_detached,
        &facts.head_target_oid,
    ) {
        Ok(c) => c,
        Err(e) => {
            return Err(e);
        },
    };
    let remotes = match get_remote_info_list(&facts.remote_names) {
        Ok(v) => v,
        Err(e) => {
            return Err(e);
        },
    };
    proof {
        assert(segs_view(remotes@) =~= decoded_names(names_view(facts.remote_names@)));
    }
    let branches = match get_branch_info_list(&facts.refs, &remotes) {
        Ok(b) => b,
        Err(e) => {
            return Err(e);
        },
    };
    let files = match get_files_changed_info_list(&facts.unstaged_deltas, &facts.staged_deltas) {
        Ok(f) => f,
        Err(e) => {
            return Err(e);
        },
    };
    let mut v: Vec<RepoInfoEntry> = Vec::new();
    v.push(
        RepoInfoEntry {
            key: String::from_str("general_info"),
            value: RepoInfoValue::SomeGeneralInfo(general),
        },
    );
    v.push(
        RepoInfoEntry {
            key: String::from_str("commit_info_list"),
            value: RepoInfoValue::SomeCommitInfo(commits),
        },
    );
    v.push(
        RepoInfoEntry {
            key: String::from_str("branch_info_list"),
            value: RepoInfoValue::SomeBranchInfo(branches),
        },
    );
    v.push(
        RepoInfoEntry {
            key: String::from_str("remote_info_list"),
            value: RepoInfoValue::SomeRemoteInfo(remotes),
        },
    );
    v.push(
        RepoInfoEntry {
            key: String::from_str("files_changed_info_list"),
            value: RepoInfoValue::SomeFilesChangedInfo(files),
        },
    );
    Ok(v)
}

} // verus!
