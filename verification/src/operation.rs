//! In-progress operations (merge, rebase, cherry-pick, revert): describing
//! them to the frontend, and the git command-line invocations Trunk runs for
//! them with the decision it takes on each outcome.

use vstd::prelude::*;
use vstd::string::*;
use crate::error::TrunkError;
use crate::history::{GraphCommit, RefLabel};
use crate::text::{
    append_str, chars_of, contains, contains_str, find_chars, first_occurrence, lowercase_of,
    matches_at, push_char, starts_with, starts_with_str, string_from_chars, suffix_chars, to_lowercase,
    trim, trim_str,
};
use crate::review_doc::str_eq;
use crate::git;
use crate::repo_ops::{git_op_outcome, lemma_codes_differ_from_not_open, open_repo_from_state};
use crate::repo_read::{branch_for_oid_text, branch_targets, resolved_branch, BranchTarget};
use crate::state::RepoRegistry;

verus! {

/// The prefix of a local merge's `MERGE_MSG`.
pub open spec fn merge_branch_prefix() -> Seq<char> {
    "Merge branch '"@
}

/// The prefix of a remote-tracking merge's `MERGE_MSG`.
pub open spec fn merge_remote_prefix() -> Seq<char> {
    "Merge remote-tracking branch '"@
}

/// `s` up to (not including) its first `'`, or all of `s`.
pub open spec fn upto_quote(s: Seq<char>) -> Seq<char> {
    match first_occurrence(s, seq!['\'']) {
        Some(j) => s.subrange(0, j),
        None => s,
    }
}

/// The branch a merge message names: the quoted name after `Merge branch '`
/// or `Merge remote-tracking branch '`; `None` for any other message.
pub open spec fn merge_source_spec(msg: Option<Seq<char>>) -> Option<Seq<char>> {
    match msg {
        None => None,
        Some(m) => if starts_with(m, merge_branch_prefix()) {
            Some(upto_quote(m.subrange(merge_branch_prefix().len() as int, m.len() as int)))
        } else if starts_with(m, merge_remote_prefix()) {
            Some(upto_quote(m.subrange(merge_remote_prefix().len() as int, m.len() as int)))
        } else {
            None
        },
    }
}

/// The text of `v[from..]` up to its first `'`.
fn quoted_name(v: &Vec<char>, from: usize) -> (r: String)
    requires
        from <= v@.len(),
    ensures
        r@ == upto_quote(v@.subrange(from as int, v@.len() as int)),
{
    let rest = suffix_chars(v, from);
    let mut quote: Vec<char> = Vec::new();
    quote.push('\'');
    assert(quote@ == seq!['\'']);
    match find_chars(&rest, &quote) {
        Some(j) => string_from_chars(&rest, 0, j),
        None => string_from_chars(&rest, 0, rest.len()),
    }
}

/// Reads the source branch out of a merge message, if it has a known shape.
pub fn extract_merge_source(merge_msg: Option<&str>) -> (r: Option<String>)
    ensures
        match r {
            Some(b) => merge_source_spec(crate::messages::opt_view(merge_msg)) == Some(b@),
            None => merge_source_spec(crate::messages::opt_view(merge_msg)) is None,
        },
{
    let msg = match merge_msg {
        Some(m) => m,
        None => return None,
    };
    let v = chars_of(msg);
    let p1 = chars_of("Merge branch '");
    if matches_at(&v, &p1, 0) {
        return Some(quoted_name(&v, p1.len()));
    }
    let p2 = chars_of("Merge remote-tracking branch '");
    if matches_at(&v, &p2, 0) {
        return Some(quoted_name(&v, p2.len()));
    }
    None
}

/// A local merge's message names the merged branch: for a branch name with
/// no `'`, `Merge branch '<name>'` followed by anything gives back the name.
pub proof fn lemma_merge_source_roundtrip(name: Seq<char>, rest: Seq<char>)
    requires
        forall|k: int| 0 <= k < name.len() ==> name[k] != '\'',
    ensures
        merge_source_spec(Some(merge_branch_prefix() + name + seq!['\''] + rest)) == Some(name),
{
    let m = merge_branch_prefix() + name + seq!['\''] + rest;
    let after = name + seq!['\''] + rest;
    assert(m == merge_branch_prefix() + after);
    assert(m.subrange(0, merge_branch_prefix().len() as int) == merge_branch_prefix());
    assert(m.subrange(merge_branch_prefix().len() as int, m.len() as int) == after);
    crate::text::lemma_first_char_after(name, '\'', rest);
    assert(after.subrange(0, name.len() as int) == name);
}

/// The color of the first ref label named `name` (by short name).
pub open spec fn color_in_refs(refs: Seq<RefLabel>, name: Seq<char>) -> Option<usize>
    decreases refs.len(),
{
    if refs.len() == 0 {
        None
    } else if refs[0].short_name@ == name {
        Some(refs[0].color_index)
    } else {
        color_in_refs(refs.drop_first(), name)
    }
}

/// The color of the first ref label named `name` in graph order.
pub open spec fn branch_color(commits: Seq<GraphCommit>, name: Seq<char>) -> Option<usize>
    decreases commits.len(),
{
    if commits.len() == 0 {
        None
    } else {
        match color_in_refs(commits[0].refs@, name) {
            Some(c) => Some(c),
            None => branch_color(commits.drop_first(), name),
        }
    }
}

/// Finds the color of ref labels named `name` within one commit.
fn find_color_in_refs(refs: &Vec<RefLabel>, name: &str) -> (r: Option<usize>)
    ensures
        r == color_in_refs(refs@, name@),
{
    let mut i: usize = 0;
    assert(refs@.subrange(0, refs@.len() as int) == refs@);
    while i < refs.len()
        invariant
            i <= refs@.len(),
            color_in_refs(refs@, name@) == color_in_refs(
                refs@.subrange(i as int, refs@.len() as int),
                name@,
            ),
        decreases refs.len() - i,
    {
        let ghost rest = refs@.subrange(i as int, refs@.len() as int);
        assert(rest[0] == refs@[i as int]);
        assert(rest.drop_first() == refs@.subrange(i + 1, refs@.len() as int));
        if str_eq(refs[i].short_name.as_str(), name) {
            return Some(refs[i].color_index);
        }
        i += 1;
    }
    None
}

/// Finds a branch's color index by searching the ref labels of the graph in
/// order; the first label whose short name is `branch_name` gives it.
pub fn find_branch_color(commits: &Vec<GraphCommit>, branch_name: &str) -> (r: Option<usize>)
    ensures
        r == branch_color(commits@, branch_name@),
{
    let mut i: usize = 0;
    assert(commits@.subrange(0, commits@.len() as int) == commits@);
    while i < commits.len()
        invariant
            i <= commits@.len(),
            branch_color(commits@, branch_name@) == branch_color(
                commits@.subrange(i as int, commits@.len() as int),
                branch_name@,
            ),
        decreases commits.len() - i,
    {
        let ghost rest = commits@.subrange(i as int, commits@.len() as int);
        assert(rest[0] == commits@[i as int]);
        assert(rest.drop_first() == commits@.subrange(i + 1, commits@.len() as int));
        match find_color_in_refs(&commits[i].refs, branch_name) {
            Some(c) => return Some(c),
            None => {},
        }
        i += 1;
    }
    None
}

/// `s` with every occurrence of the non-empty `pat` removed, scanning left
/// to right as `str::replace(pat, "")` does.
pub open spec fn remove_all(s: Seq<char>, pat: Seq<char>) -> Seq<char>
    recommends
        pat.len() > 0,
    decreases s.len(),
{
    if s.len() == 0 || pat.len() == 0 {
        s
    } else if starts_with(s, pat) {
        remove_all(s.subrange(pat.len() as int, s.len() as int), pat)
    } else {
        seq![s[0]] + remove_all(s.drop_first(), pat)
    }
}

/// Removes every occurrence of `pat` from `s`.
pub fn remove_all_str(s: &str, pat: &str) -> (r: String)
    requires
        pat@.len() > 0,
    ensures
        r@ == remove_all(s@, pat@),
{
    let v = chars_of(s);
    let p = chars_of(pat);
    let mut out = String::new();
    let mut i: usize = 0;
    assert(v@.subrange(0, v@.len() as int) == v@);
    assert(out@ + remove_all(v@, p@) == remove_all(v@, p@));
    while i < v.len()
        invariant
            i <= v@.len(),
            v@ == s@,
            p@ == pat@,
            p@.len() > 0,
            out@ + remove_all(v@.subrange(i as int, v@.len() as int), p@) == remove_all(v@, p@),
        decreases v.len() - i,
    {
        let ghost rest = v@.subrange(i as int, v@.len() as int);
        if matches_at(&v, &p, i) {
            assert(rest.subrange(0, p@.len() as int) == v@.subrange(i as int, i + p@.len()));
            assert(rest.subrange(p@.len() as int, rest.len() as int) == v@.subrange(
                i + p@.len(),
                v@.len() as int,
            ));
            i += p.len();
        } else {
            assert(!starts_with(rest, p@)) by {
                if rest.len() >= p@.len() {
                    assert(rest.subrange(0, p@.len() as int) == v@.subrange(
                        i as int,
                        i + p@.len(),
                    ));
                }
            }
            assert(rest.drop_first() == v@.subrange(i + 1, v@.len() as int));
            let ghost before = out@;
            push_char(&mut out, v[i]);
            assert(out@ == before + seq![rest[0]]);
            assert(out@ + remove_all(rest.drop_first(), p@) == before + (seq![rest[0]]
                + remove_all(rest.drop_first(), p@)));
            i += 1;
        }
    }
    assert(v@.subrange(v@.len() as int, v@.len() as int) == Seq::<char>::empty());
    assert(out@ + Seq::<char>::empty() == out@);
    out
}

/// The kind of operation a repository is in the middle of.
#[derive(PartialEq, Eq, Structural, Clone, Copy, Debug)]
pub enum OperationType {
    /// No operation is in progress.
    Idle,
    Merge,
    Rebase,
    CherryPick,
    Revert,
}

/// The state git reports for a repository.
#[derive(PartialEq, Eq, Structural, Clone, Copy, Debug)]
pub enum RepoState {
    Clean,
    Merge,
    Revert,
    RevertSequence,
    CherryPick,
    CherryPickSequence,
    Bisect,
    Rebase,
    RebaseInteractive,
    RebaseMerge,
    ApplyMailbox,
    ApplyMailboxOrRebase,
}

/// What the frontend shows about an operation in progress.
#[derive(Debug)]
pub struct OperationInfo {
    pub op_type: OperationType,
    pub source_branch: Option<String>,
    pub target_branch: Option<String>,
    pub progress: Option<String>,
    pub source_color_index: Option<usize>,
    pub target_color_index: Option<usize>,
    pub rebase_message: Option<String>,
}

/// What Trunk read about an operation in progress: for a merge the
/// `MERGE_MSG` file and HEAD's shorthand; for a rebase the `head-name`,
/// `msgnum`, `end` and `message` files of the rebase directory and the branch
/// its `onto` oid resolves to.
#[derive(Debug)]
pub struct OperationFiles {
    pub merge_msg: Option<String>,
    pub head_shorthand: Option<String>,
    pub head_name: Option<String>,
    pub onto_branch: Option<String>,
    pub msgnum: Option<String>,
    pub end: Option<String>,
    pub message: Option<String>,
}

/// The operation type of a repository state.
pub open spec fn operation_type_of(state: RepoState) -> OperationType {
    match state {
        RepoState::Merge => OperationType::Merge,
        RepoState::Rebase | RepoState::RebaseInteractive | RepoState::RebaseMerge => OperationType::Rebase,
        RepoState::CherryPick | RepoState::CherryPickSequence => OperationType::CherryPick,
        RepoState::Revert | RepoState::RevertSequence => OperationType::Revert,
        _ => OperationType::Idle,
    }
}

/// The view of an optional string.
pub open spec fn opt_string(s: Option<String>) -> Option<Seq<char>> {
    match s {
        Some(t) => Some(t@),
        None => None,
    }
}

/// The rebase's branch from the `head-name` file: trimmed, with every
/// `refs/heads/` removed.
pub open spec fn rebase_branch_name(head_name: Seq<char>) -> Seq<char> {
    remove_all(trim(head_name), "refs/heads/"@)
}

/// The rebase progress `msgnum/end`, both trimmed, when both files were read.
pub open spec fn rebase_progress(msgnum: Option<Seq<char>>, end: Option<Seq<char>>) -> Option<Seq<char>> {
    match (msgnum, end) {
        (Some(m), Some(e)) => Some(trim(m) + "/"@ + trim(e)),
        _ => None,
    }
}

/// Maps an optional string through `trim`.
pub open spec fn opt_trim(s: Option<Seq<char>>) -> Option<Seq<char>> {
    match s {
        Some(t) => Some(trim(t)),
        None => None,
    }
}

/// What is reported for a repository in `state`, given what was read.
/// A merge names the branch its message merges and HEAD's branch; a rebase
/// names its branch, the branch it rebases onto, its progress and the
/// message of the commit being applied; cherry-picks and reverts report
/// only their type. No color is set here.
pub open spec fn operation_info_ok(state: RepoState, files: OperationFiles, info: OperationInfo) -> bool {
    &&& info.op_type == operation_type_of(state)
    &&& info.source_color_index is None
    &&& info.target_color_index is None
    &&& match operation_type_of(state) {
        OperationType::Merge => {
            &&& opt_string(info.source_branch) == merge_source_spec(opt_string(files.merge_msg))
            &&& opt_string(info.target_branch) == opt_string(files.head_shorthand)
            &&& info.progress is None
            &&& info.rebase_message is None
        },
        OperationType::Rebase => {
            &&& opt_string(info.source_branch) == match files.head_name {
                Some(h) => Some(rebase_branch_name(h@)),
                None => None,
            }
            &&& opt_string(info.target_branch) == opt_string(files.onto_branch)
            &&& opt_string(info.progress) == rebase_progress(
                opt_string(files.msgnum),
                opt_string(files.end),
            )
            &&& opt_string(info.rebase_message) == opt_trim(opt_string(files.message))
        },
        _ => {
            &&& info.source_branch is None
            &&& info.target_branch is None
            &&& info.progress is None
            &&& info.rebase_message is None
        },
    }
}

/// Trims an optional string.
fn trim_opt(s: &Option<String>) -> (r: Option<String>)
    ensures
        opt_string(r) == opt_trim(opt_string(*s)),
{
    match s {
        Some(t) => Some(trim_str(t.as_str())),
        None => None,
    }
}

/// Describes the operation a repository in `state` is in (see
/// `operation_info_ok`).
pub fn operation_info(state: RepoState, files: OperationFiles) -> (info: OperationInfo)
    ensures
        operation_info_ok(state, files, info),
{
    match state {
        RepoState::Merge => {
            let source = match &files.merge_msg {
                Some(m) => extract_merge_source(Some(m.as_str())),
                None => extract_merge_source(None),
            };
            OperationInfo {
                op_type: OperationType::Merge,
                source_branch: source,
                target_branch: files.head_shorthand,
                progress: None,
                source_color_index: None,
                target_color_index: None,
                rebase_message: None,
            }
        },
        RepoState::Rebase | RepoState::RebaseInteractive | RepoState::RebaseMerge => {
            let source = match &files.head_name {
                Some(h) => {
                    let t = trim_str(h.as_str());
                    proof {
                        reveal_strlit("refs/heads/");
                    }
                    Some(remove_all_str(t.as_str(), "refs/heads/"))
                },
                None => None,
            };
            let progress = match (&files.msgnum, &files.end) {
                (Some(m), Some(e)) => {
                    let mut p = trim_str(m.as_str());
                    append_str(&mut p, "/");
                    let te = trim_str(e.as_str());
                    append_str(&mut p, te.as_str());
                    Some(p)
                },
                _ => None,
            };
            let message = trim_opt(&files.message);
            OperationInfo {
                op_type: OperationType::Rebase,
                source_branch: source,
                target_branch: files.onto_branch,
                progress,
                source_color_index: None,
                target_color_index: None,
                rebase_message: message,
            }
        },
        RepoState::CherryPick | RepoState::CherryPickSequence => OperationInfo {
            op_type: OperationType::CherryPick,
            source_branch: None,
            target_branch: None,
            progress: None,
            source_color_index: None,
            target_color_index: None,
            rebase_message: None,
        },
        RepoState::Revert | RepoState::RevertSequence => OperationInfo {
            op_type: OperationType::Revert,
            source_branch: None,
            target_branch: None,
            progress: None,
            source_color_index: None,
            target_color_index: None,
            rebase_message: None,
        },
        _ => OperationInfo {
            op_type: OperationType::Idle,
            source_branch: None,
            target_branch: None,
            progress: None,
            source_color_index: None,
            target_color_index: None,
            rebase_message: None,
        },
    }
}

/// Sets the colors of the source and target branches from the cached graph
/// of the repository, when there is one: each named branch gets the color of
/// its first ref label in the graph. Nothing else changes.
pub fn attach_branch_colors(info: OperationInfo, commits: Option<&Vec<GraphCommit>>) -> (r: OperationInfo)
    ensures
        r.op_type == info.op_type,
        r.source_branch == info.source_branch,
        r.target_branch == info.target_branch,
        r.progress == info.progress,
        r.rebase_message == info.rebase_message,
        r.source_color_index == match (commits, info.source_branch) {
            (Some(cs), Some(s)) => branch_color(cs@, s@),
            _ => info.source_color_index,
        },
        r.target_color_index == match (commits, info.target_branch) {
            (Some(cs), Some(t)) => branch_color(cs@, t@),
            _ => info.target_color_index,
        },
{
    let mut info = info;
    match commits {
        Some(cs) => {
            let src = match &info.source_branch {
                Some(s) => find_branch_color(cs, s.as_str()),
                None => info.source_color_index,
            };
            let tgt = match &info.target_branch {
                Some(t) => find_branch_color(cs, t.as_str()),
                None => info.target_color_index,
            };
            info.source_color_index = src;
            info.target_color_index = tgt;
        },
        None => {},
    }
    info
}

/// The files of the git directory that describe an operation in progress,
/// as read (`None` for a file that could not be read): `MERGE_MSG`, and the
/// `head-name`, `onto`, `msgnum`, `end` and `message` files of the rebase
/// directory (`rebase-merge` when it exists, else `rebase-apply`).
#[derive(Debug)]
pub struct GitDirFiles {
    pub merge_msg: Option<String>,
    pub head_name: Option<String>,
    pub onto: Option<String>,
    pub msgnum: Option<String>,
    pub end: Option<String>,
    pub message: Option<String>,
}

/// `files` carries what was read from the git directory and HEAD's
/// shorthand as given; its `onto` branch is the one the trimmed text of the
/// `onto` file names among the references git2 listed (see
/// `resolved_branch`), none when the file was not read.
pub open spec fn files_from_reads(
    files: OperationFiles,
    reads: GitDirFiles,
    head_shorthand: Option<String>,
    targets: Result<Vec<BranchTarget>, git2::Error>,
) -> bool {
    &&& files.merge_msg == reads.merge_msg
    &&& files.head_shorthand == head_shorthand
    &&& files.head_name == reads.head_name
    &&& files.msgnum == reads.msgnum
    &&& files.end == reads.end
    &&& files.message == reads.message
    &&& opt_string(files.onto_branch) == match reads.onto {
        None => None,
        Some(o) => resolved_branch(trim(o@), targets),
    }
}

/// Describes the operation of a repository in the state `state`, from the
/// files read from its git directory, HEAD's shorthand (a merge's target)
/// and the references git2 listed (among which the rebase's `onto` oid names
/// its target).
pub fn operation_from(
    state: RepoState,
    head_shorthand: Option<String>,
    reads: GitDirFiles,
    targets: &Result<Vec<BranchTarget>, git2::Error>,
) -> (info: OperationInfo)
    ensures
        exists|files: OperationFiles|
            #[trigger] operation_info_ok(state, files, info) && files_from_reads(
                files,
                reads,
                head_shorthand,
                *targets,
            ),
{
    let onto_branch = match &reads.onto {
        Some(o) => {
            let t = trim_str(o.as_str());
            branch_for_oid_text(t.as_str(), targets)
        },
        None => None,
    };
    let ghost g = reads;
    let ghost h = head_shorthand;
    let files = OperationFiles {
        merge_msg: reads.merge_msg,
        head_shorthand,
        head_name: reads.head_name,
        onto_branch,
        msgnum: reads.msgnum,
        end: reads.end,
        message: reads.message,
    };
    let ghost gf = files;
    assert(files_from_reads(gf, g, h, *targets));
    let info = operation_info(state, files);
    assert(operation_info_ok(state, gf, info));
    info
}

/// The operation the repository open as `path` is in: git2's state of the
/// repository, described from the files read from its git directory, with
/// HEAD's shorthand as a merge's target and the branch the rebase's `onto`
/// oid names as a rebase's target (see `operation_from`, which decides on
/// what git2 reported).
pub fn get_operation_state_inner(path: &str, reads: GitDirFiles, registry: &RepoRegistry) -> (r: Result<
    OperationInfo,
    TrunkError,
>)
    ensures
        git_op_outcome(*registry, path@, r),
        r matches Ok(info) ==> exists|
            state: RepoState,
            head: Option<String>,
            targets: Result<Vec<BranchTarget>, git2::Error>,
            files: OperationFiles,
        |
            #![trigger operation_info_ok(state, files, info), files_from_reads(files, reads, head, targets)]
            operation_info_ok(state, files, info) && files_from_reads(files, reads, head, targets),
{
    proof {
        lemma_codes_differ_from_not_open();
    }
    let repo = open_repo_from_state(path, registry)?;
    let state = git::repo_state(&repo);
    let head_shorthand = match git::repo_head(&repo) {
        Ok(h) => git::reference_shorthand(&h),
        Err(_) => None,
    };
    let targets = branch_targets(&repo);
    let ghost g = reads;
    let ghost h = head_shorthand;
    let info = operation_from(state, head_shorthand, reads, &targets);
    proof {
        let files = choose|files: OperationFiles|
            #[trigger] operation_info_ok(state, files, info) && files_from_reads(files, g, h, targets);
        assert(operation_info_ok(state, files, info) && files_from_reads(files, g, h, targets));
    }
    Ok(info)
}


/// Every state git reports for an operation in progress is reported as that
/// operation: a merge as a merge, the three rebase states as a rebase, a
/// single or sequenced cherry-pick as a cherry-pick, a single or sequenced
/// revert as a revert. Only a clean repository, a bisect and a mailbox
/// application are reported as no operation.
pub proof fn law_operations_in_progress_are_reported(state: RepoState)
    ensures
        state is Merge ==> operation_type_of(state) == OperationType::Merge,
        (state is Rebase || state is RebaseInteractive || state is RebaseMerge) ==> operation_type_of(state)
            == OperationType::Rebase,
        (state is CherryPick || state is CherryPickSequence) ==> operation_type_of(state) == OperationType::CherryPick,
        (state is Revert || state is RevertSequence) ==> operation_type_of(state) == OperationType::Revert,
        (operation_type_of(state) == OperationType::Idle) <==> (state is Clean || state is Bisect || state is ApplyMailbox
            || state is ApplyMailboxOrRebase),
{
}

} // verus!
