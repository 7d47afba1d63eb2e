//! Repository operations made through git2: committing and amending,
//! reading HEAD's message, undo checks, stashes, checkout, tags and the
//! commits an interactive rebase would replay.

use vstd::prelude::*;
use vstd::string::*;
use crate::error::TrunkError;
use crate::git;
use crate::history::not_open_message;
use crate::messages::{build_message, commit_message, opt_view, short_oid, short_oid_spec, stash_message, stash_short_name, stash_short_name_spec, tag_message};
use crate::state::RepoRegistry;
use crate::text::{append_str, contains, contains_str, copy_opt_string};

verus! {

/// The error a git2 failure becomes: code `git_error` with git2's message.
pub fn from_git_error(e: git2::Error) -> (t: TrunkError)
    ensures
        t.code@ == "git_error"@,
{
    TrunkError::with_message("git_error", git::error_message(&e))
}

/// The error codes the repository operations return besides `not_open`
/// are all different from it.
pub proof fn lemma_codes_differ_from_not_open()
    ensures
        "git_error"@ != "not_open"@,
        "nothing_to_stash"@ != "not_open"@,
        "conflict_state"@ != "not_open"@,
        "dirty_workdir"@ != "not_open"@,
        "nothing_to_undo"@ != "not_open"@,
        "merge_commit"@ != "not_open"@,
        "invalid_oid"@ != "not_open"@,
{
    reveal_strlit("not_open");
    reveal_strlit("git_error");
    reveal_strlit("nothing_to_stash");
    reveal_strlit("conflict_state");
    reveal_strlit("dirty_workdir");
    reveal_strlit("nothing_to_undo");
    reveal_strlit("merge_commit");
    reveal_strlit("invalid_oid");
    assert("git_error"@[0] != "not_open"@[0]);
    assert("nothing_to_stash"@.len() != "not_open"@.len());
    assert("conflict_state"@[0] != "not_open"@[0]);
    assert("dirty_workdir"@[0] != "not_open"@[0]);
    assert("nothing_to_undo"@.len() != "not_open"@.len());
    assert("merge_commit"@[0] != "not_open"@[0]);
    assert("invalid_oid"@[0] != "not_open"@[0]);
}

/// An unregistered path fails with `not_open`; a registered one never does.
pub open spec fn lookup_outcome<T>(registry: RepoRegistry, path: Seq<char>, r: Result<T, TrunkError>) -> bool {
    &&& !registry.dirs@.contains_key(path) ==> (r matches Err(e) && e.code@ == "not_open"@
        && e.message@ == not_open_message(path))
    &&& registry.dirs@.contains_key(path) ==> (r matches Err(e) ==> e.code@ != "not_open"@)
}

/// Opens the repository registered for `path`: `not_open` when the path is
/// not open, `git_error` when git2 cannot open its directory.
pub fn open_repo_from_state(path: &str, registry: &RepoRegistry) -> (r: Result<
    git2::Repository,
    TrunkError,
>)
    ensures
        lookup_outcome(*registry, path@, r),
        r matches Err(e) ==> e.code@ == "not_open"@ || e.code@ == "git_error"@,
{
    proof {
        lemma_codes_differ_from_not_open();
    }
    let dir = registry.dir_of(path)?;
    match git::repo_open(dir.as_str()) {
        Ok(repo) => Ok(repo),
        Err(e) => Err(from_git_error(e)),
    }
}

/// The outcome of an operation on a registered repository whose failures
/// all come from git2 (besides `not_open`).
pub open spec fn git_op_outcome<T>(registry: RepoRegistry, path: Seq<char>, r: Result<T, TrunkError>) -> bool {
    &&& lookup_outcome(registry, path, r)
    &&& r matches Err(e) ==> e.code@ == "not_open"@ || e.code@ == "git_error"@
}

/// Commits the index on HEAD with the configured signature as author and
/// committer and the message `build_message(subject, body)`; on an unborn
/// HEAD (no commit yet) the commit has no parent, otherwise HEAD's commit is
/// its parent.
pub fn create_commit_inner(path: &str, subject: &str, body: Option<&str>, registry: &RepoRegistry) -> (r:
    Result<(), TrunkError>)
    ensures
        git_op_outcome(*registry, path@, r),
{
    proof {
        lemma_codes_differ_from_not_open();
    }
    let repo = open_repo_from_state(path, registry)?;
    let sig = match git::repo_signature(&repo) {
        Ok(s) => s,
        Err(e) => return Err(from_git_error(e)),
    };
    let mut index = match git::repo_index(&repo) {
        Ok(i) => i,
        Err(e) => return Err(from_git_error(e)),
    };
    let tree_oid = match git::index_write_tree(&mut index) {
        Ok(o) => o,
        Err(e) => return Err(from_git_error(e)),
    };
    let tree = match git::repo_find_tree(&repo, tree_oid) {
        Ok(t) => t,
        Err(e) => return Err(from_git_error(e)),
    };
    let message = build_message(subject, body);
    let parent = match git::repo_head(&repo) {
        Ok(h) => match git::reference_peel_to_commit(&h) {
            Ok(c) => Some(c),
            Err(e) => return Err(from_git_error(e)),
        },
        Err(e) => {
            if git::error_is_unborn_branch(&e) {
                None
            } else {
                return Err(from_git_error(e));
            }
        },
    };
    match git::repo_commit_on_head(&repo, &sig, message.as_str(), &tree, parent.as_ref()) {
        Ok(_) => Ok(()),
        Err(e) => Err(from_git_error(e)),
    }
}

/// Replaces HEAD's commit by one with the current index as its tree, the
/// configured signature as author and committer and the message
/// `build_message(subject, body)`.
pub fn amend_commit_inner(path: &str, subject: &str, body: Option<&str>, registry: &RepoRegistry) -> (r:
    Result<(), TrunkError>)
    ensures
        git_op_outcome(*registry, path@, r),
{
    proof {
        lemma_codes_differ_from_not_open();
    }
    let repo = open_repo_from_state(path, registry)?;
    let head = match git::repo_head(&repo) {
        Ok(h) => h,
        Err(e) => return Err(from_git_error(e)),
    };
    let head_commit = match git::reference_peel_to_commit(&head) {
        Ok(c) => c,
        Err(e) => return Err(from_git_error(e)),
    };
    let sig = match git::repo_signature(&repo) {
        Ok(s) => s,
        Err(e) => return Err(from_git_error(e)),
    };
    let mut index = match git::repo_index(&repo) {
        Ok(i) => i,
        Err(e) => return Err(from_git_error(e)),
    };
    let tree_oid = match git::index_write_tree(&mut index) {
        Ok(o) => o,
        Err(e) => return Err(from_git_error(e)),
    };
    let tree = match git::repo_find_tree(&repo, tree_oid) {
        Ok(t) => t,
        Err(e) => return Err(from_git_error(e)),
    };
    let message = build_message(subject, body);
    match git::commit_amend_head(&head_commit, &sig, message.as_str(), &tree) {
        Ok(_) => Ok(()),
        Err(e) => Err(from_git_error(e)),
    }
}

/// Redoes an undone commit: commits again with its subject and body.
pub fn redo_commit_inner(path: &str, subject: &str, body: Option<&str>, registry: &RepoRegistry) -> (r:
    Result<(), TrunkError>)
    ensures
        git_op_outcome(*registry, path@, r),
{
    create_commit_inner(path, subject, body, registry)
}

/// HEAD's commit message, split into its subject and its body.
#[derive(Debug)]
pub struct HeadCommitMessage {
    pub subject: String,
    pub body: Option<String>,
}

/// The subject and body of a commit whose summary and body git2 reported:
/// a missing summary is the empty subject.
pub fn head_message_from(summary: Option<String>, body: Option<String>) -> (m: HeadCommitMessage)
    ensures
        m.subject@ == match summary {
            Some(s) => s@,
            None => Seq::<char>::empty(),
        },
        m.body == body,
{
    let subject = match summary {
        Some(s) => s,
        None => String::new(),
    };
    HeadCommitMessage { subject, body }
}

/// Reads HEAD's commit message.
pub fn get_head_commit_message_inner(path: &str, registry: &RepoRegistry) -> (r: Result<
    HeadCommitMessage,
    TrunkError,
>)
    ensures
        git_op_outcome(*registry, path@, r),
{
    proof {
        lemma_codes_differ_from_not_open();
    }
    let repo = open_repo_from_state(path, registry)?;
    let head = match git::repo_head(&repo) {
        Ok(h) => h,
        Err(e) => return Err(from_git_error(e)),
    };
    let commit = match git::reference_peel_to_commit(&head) {
        Ok(c) => c,
        Err(e) => return Err(from_git_error(e)),
    };
    Ok(head_message_from(git::commit_summary(&commit), git::commit_body(&commit)))
}

/// Whether a commit with `parent_count` parents can be undone: only one
/// with exactly one parent (not the initial commit, not a merge).
pub fn undo_available(parent_count: usize) -> (b: bool)
    ensures
        b == (parent_count == 1),
{
    parent_count == 1
}

/// Whether undo is offered for HEAD, given its commit's number of parents,
/// or `None` when HEAD has no commit: only for a commit with one parent.
pub fn undo_available_at(head_parents: Option<usize>) -> (b: bool)
    ensures
        b == (head_parents == Some(1usize)),
{
    match head_parents {
        Some(n) => undo_available(n),
        None => false,
    }
}

/// Whether HEAD's commit can be undone; `false` also when HEAD has no commit
/// (see `undo_available_at`).
pub fn check_undo_available_inner(path: &str, registry: &RepoRegistry) -> (r: Result<bool, TrunkError>)
    ensures
        git_op_outcome(*registry, path@, r),
{
    proof {
        lemma_codes_differ_from_not_open();
    }
    let repo = open_repo_from_state(path, registry)?;
    let head_parents = match git::repo_head(&repo) {
        Ok(h) => match git::reference_peel_to_commit(&h) {
            Ok(c) => Some(git::commit_parent_count(&c)),
            Err(_) => None,
        },
        Err(_) => None,
    };
    Ok(undo_available_at(head_parents))
}

/// The message of the commit an undo removed, for the redo.
#[derive(Debug)]
pub struct UndoResult {
    pub subject: String,
    pub body: Option<String>,
}

/// Refuses to undo the initial commit (`nothing_to_undo`) and merge commits
/// (`merge_commit`).
pub fn undo_precheck(parent_count: usize) -> (r: Result<(), TrunkError>)
    ensures
        r is Ok <==> parent_count == 1,
        parent_count == 0 ==> (r matches Err(e) && e.code@ == "nothing_to_undo"@),
        parent_count > 1 ==> (r matches Err(e) && e.code@ == "merge_commit"@),
{
    if parent_count == 0 {
        return Err(TrunkError::new("nothing_to_undo", "Cannot undo the initial commit"));
    }
    if parent_count > 1 {
        return Err(TrunkError::new("merge_commit", "Cannot undo a merge commit"));
    }
    Ok(())
}

/// The git2 half of undoing HEAD's commit: checks that it can be undone and
/// returns its message. The soft reset to its parent is run afterwards as
/// `GitOp::UndoLastCommit`.
pub fn prepare_undo_commit(path: &str, registry: &RepoRegistry) -> (r: Result<UndoResult, TrunkError>)
    ensures
        lookup_outcome(*registry, path@, r),
        r matches Err(e) ==> e.code@ == "not_open"@ || e.code@ == "git_error"@ || e.code@
            == "nothing_to_undo"@ || e.code@ == "merge_commit"@,
{
    proof {
        lemma_codes_differ_from_not_open();
    }
    let repo = open_repo_from_state(path, registry)?;
    let head = match git::repo_head(&repo) {
        Ok(h) => h,
        Err(e) => return Err(from_git_error(e)),
    };
    let commit = match git::reference_peel_to_commit(&head) {
        Ok(c) => c,
        Err(e) => return Err(from_git_error(e)),
    };
    undo_precheck(git::commit_parent_count(&commit))?;
    let m = head_message_from(git::commit_summary(&commit), git::commit_body(&commit));
    Ok(UndoResult { subject: m.subject, body: m.body })
}

/// The error a failed stash save becomes: `nothing_to_stash` when git2 says
/// there is nothing to stash, else `git_error` with its message.
pub fn stash_save_error(git_message: String) -> (e: TrunkError)
    ensures
        contains(git_message@, "nothing to stash"@) ==> e.code@ == "nothing_to_stash"@,
        !contains(git_message@, "nothing to stash"@) ==> e.code@ == "git_error"@ && e.message@
            == git_message@,
{
    if contains_str(git_message.as_str(), "nothing to stash") {
        TrunkError::new("nothing_to_stash", "Nothing to stash — working tree is clean")
    } else {
        TrunkError::with_message("git_error", git_message)
    }
}

/// Stashes the working tree changes with `message`, or with
/// `WIP on <branch>` when it is blank (see `stash_message`). A clean tree
/// fails with `nothing_to_stash`.
pub fn stash_save_inner(path: &str, message: &str, registry: &RepoRegistry) -> (r: Result<
    (),
    TrunkError,
>)
    ensures
        lookup_outcome(*registry, path@, r),
        r matches Err(e) ==> e.code@ == "not_open"@ || e.code@ == "git_error"@ || e.code@
            == "nothing_to_stash"@,
{
    proof {
        lemma_codes_differ_from_not_open();
    }
    let mut repo = open_repo_from_state(path, registry)?;
    let sig = match git::repo_signature(&repo) {
        Ok(s) => s,
        Err(e) => return Err(from_git_error(e)),
    };
    let branch = match git::repo_head(&repo) {
        Ok(h) => git::reference_shorthand(&h),
        Err(_) => None,
    };
    let msg = match &branch {
        Some(b) => stash_message(message, Some(b.as_str())),
        None => stash_message(message, None),
    };
    match git::repo_stash_save(&mut repo, &sig, msg.as_str()) {
        Ok(_) => Ok(()),
        Err(e) => Err(stash_save_error(git::error_message(&e))),
    }
}

/// Drops the stash at `index`.
pub fn stash_drop_inner(path: &str, index: usize, registry: &RepoRegistry) -> (r: Result<
    (),
    TrunkError,
>)
    ensures
        git_op_outcome(*registry, path@, r),
{
    proof {
        lemma_codes_differ_from_not_open();
    }
    let mut repo = open_repo_from_state(path, registry)?;
    match git::repo_stash_drop(&mut repo, index) {
        Ok(()) => Ok(()),
        Err(e) => Err(from_git_error(e)),
    }
}

/// The status bit git2 sets on a conflicted entry (`GIT_STATUS_CONFLICTED`,
/// `1 << 15` in libgit2's `status.h`).
pub const STATUS_CONFLICTED: u32 = 0x8000;

/// The status bits that make a tracked working tree dirty: staged additions,
/// modifications, deletions, renames and type changes
/// (`GIT_STATUS_INDEX_*`, bits 0 to 4) and unstaged modifications,
/// deletions, type changes and renames (`GIT_STATUS_WT_MODIFIED` to
/// `GIT_STATUS_WT_RENAMED`, bits 8 to 11).
pub const DIRTY_MASK: u32 = 0x0f1f;

/// Some entry has a bit of `mask` set.
pub open spec fn any_has(bits: Seq<u32>, mask: u32) -> bool {
    exists|k: int| 0 <= k < bits.len() && #[trigger] (bits[k] & mask) != 0
}

/// Whether some status entry has a bit of `mask` set.
pub fn any_status_has(bits: &Vec<u32>, mask: u32) -> (b: bool)
    ensures
        b == any_has(bits@, mask),
{
    let mut i: usize = 0;
    while i < bits.len()
        invariant
            i <= bits@.len(),
            forall|k: int| 0 <= k < i ==> #[trigger] (bits@[k] & mask) == 0,
        decreases bits.len() - i,
    {
        if bits[i] & mask != 0 {
            return true;
        }
        i += 1;
    }
    false
}

/// The error a failed stash apply becomes: a message that mentions a
/// conflict or a merge is `conflict_state` (for a pop, noting that the stash
/// was kept); anything else is `git_error`.
pub fn stash_apply_error(git_message: String, pop: bool) -> (e: TrunkError)
    ensures
        contains(git_message@, "conflict"@) || contains(git_message@, "merge"@) ==> e.code@
            == "conflict_state"@ && e.message@ == conflict_message(pop),
        !(contains(git_message@, "conflict"@) || contains(git_message@, "merge"@)) ==> e.code@
            == "git_error"@ && e.message@ == git_message@,
{
    if contains_str(git_message.as_str(), "conflict") || contains_str(git_message.as_str(), "merge") {
        conflict_error(pop)
    } else {
        TrunkError::with_message("git_error", git_message)
    }
}

/// The message of a stash pop's conflict, which says that the stash was
/// kept, or of a stash apply's.
pub open spec fn conflict_message(pop: bool) -> Seq<char> {
    if pop {
        "Stash applied with conflicts — resolve conflicts before continuing. Note: stash was NOT removed."@
    } else {
        "Stash applied with conflicts — resolve conflicts before continuing"@
    }
}

/// The `conflict_state` error of a stash pop (which keeps the stash) or apply.
pub fn conflict_error(pop: bool) -> (e: TrunkError)
    ensures
        e.code@ == "conflict_state"@,
        e.message@ == conflict_message(pop),
{
    if pop {
        TrunkError::new(
            "conflict_state",
            "Stash applied with conflicts — resolve conflicts before continuing. Note: stash was NOT removed.",
        )
    } else {
        TrunkError::new(
            "conflict_state",
            "Stash applied with conflicts — resolve conflicts before continuing",
        )
    }
}

/// Applies the stash at `index` and, for a pop, removes it. Conflicts, as
/// git2 reports them or as the status then shows them, fail with
/// `conflict_state`.
fn stash_restore(path: &str, index: usize, registry: &RepoRegistry, pop: bool) -> (r: Result<
    (),
    TrunkError,
>)
    ensures
        lookup_outcome(*registry, path@, r),
        r matches Err(e) ==> e.code@ == "not_open"@ || e.code@ == "git_error"@ || e.code@
            == "conflict_state"@,
        r matches Err(e) ==> (e.code@ == "conflict_state"@ ==> e.message@ == conflict_message(pop)),
{
    proof {
        lemma_codes_differ_from_not_open();
        reveal_strlit("git_error");
        reveal_strlit("conflict_state");
        assert("git_error"@[0] != "conflict_state"@[0]);
    }
    let mut repo = open_repo_from_state(path, registry)?;
    let applied = if pop {
        git::repo_stash_pop(&mut repo, index)
    } else {
        git::repo_stash_apply(&mut repo, index)
    };
    match applied {
        Ok(()) => {},
        Err(e) => return Err(stash_apply_error(git::error_message(&e), pop)),
    }
    let bits = match git::repo_status_bits(&repo) {
        Ok(b) => b,
        Err(e) => return Err(from_git_error(e)),
    };
    if any_status_has(&bits, STATUS_CONFLICTED) {
        return Err(conflict_error(pop));
    }
    Ok(())
}

/// Applies and removes the stash at `index`.
pub fn stash_pop_inner(path: &str, index: usize, registry: &RepoRegistry) -> (r: Result<
    (),
    TrunkError,
>)
    ensures
        lookup_outcome(*registry, path@, r),
        r matches Err(e) ==> e.code@ == "not_open"@ || e.code@ == "git_error"@ || e.code@
            == "conflict_state"@,
        r matches Err(e) ==> (e.code@ == "conflict_state"@ ==> e.message@ == conflict_message(true)),
{
    stash_restore(path, index, registry, true)
}

/// Applies the stash at `index`, keeping it.
pub fn stash_apply_inner(path: &str, index: usize, registry: &RepoRegistry) -> (r: Result<
    (),
    TrunkError,
>)
    ensures
        lookup_outcome(*registry, path@, r),
        r matches Err(e) ==> e.code@ == "not_open"@ || e.code@ == "git_error"@ || e.code@
            == "conflict_state"@,
        r matches Err(e) ==> (e.code@ == "conflict_state"@ ==> e.message@ == conflict_message(false)),
{
    stash_restore(path, index, registry, false)
}

/// A stash as the frontend lists it.
#[derive(Debug)]
pub struct StashEntry {
    pub index: usize,
    pub short_name: String,
    pub name: String,
    pub oid: String,
    pub parent_oid: Option<String>,
}

/// The entry of the stash at `index`, named `stash@{index}`.
pub fn stash_entry(index: usize, name: String, oid: String, parent_oid: Option<String>) -> (e:
    StashEntry)
    ensures
        e.index == index,
        e.short_name@ == stash_short_name_spec(index as nat),
        e.name == name,
        e.oid == oid,
        e.parent_oid == parent_oid,
{
    StashEntry { index, short_name: stash_short_name(index), name, oid, parent_oid }
}

/// What git2 reported of one stash: its position, its message, its commit
/// and, when that commit can be found, the commit it was made on.
#[derive(Debug)]
pub struct StashFacts {
    pub index: usize,
    pub name: String,
    pub oid: String,
    pub parent_oid: Option<String>,
}

/// The oids of the facts are forty characters long.
pub open spec fn stash_facts_ok(f: StashFacts) -> bool {
    &&& f.oid@.len() == 40
    &&& f.parent_oid matches Some(p) ==> p@.len() == 40
}

/// The entry `e` is the one of the stash `f` (see `stash_entry`).
pub open spec fn entry_from_facts(e: StashEntry, f: StashFacts) -> bool {
    &&& e.index == f.index
    &&& e.short_name@ == stash_short_name_spec(f.index as nat)
    &&& e.name == f.name
    &&& e.oid == f.oid
    &&& e.parent_oid == f.parent_oid
}

/// The stash list: one entry per reported stash, in the order reported.
pub fn stash_entries_from(facts: &Vec<StashFacts>) -> (v: Vec<StashEntry>)
    ensures
        v@.len() == facts@.len(),
        forall|k: int| 0 <= k < v@.len() ==> entry_from_facts(#[trigger] v@[k], facts@[k]),
        (forall|k: int| 0 <= k < facts@.len() ==> stash_facts_ok(#[trigger] facts@[k])) ==> forall|k: int|
            0 <= k < v@.len() ==> stash_entry_ok(#[trigger] v@[k]),
{
    let mut out: Vec<StashEntry> = Vec::new();
    let mut i: usize = 0;
    while i < facts.len()
        invariant
            i <= facts@.len(),
            out@.len() == i,
            forall|k: int| 0 <= k < out@.len() ==> entry_from_facts(#[trigger] out@[k], facts@[k]),
        decreases facts.len() - i,
    {
        let f = &facts[i];
        out.push(stash_entry(f.index, f.name.clone(), f.oid.clone(), copy_opt_string(&f.parent_oid)));
        i += 1;
    }
    out
}

/// A listed stash: named `stash@{index}`, with a forty-character oid and,
/// when known, a forty-character parent oid.
pub open spec fn stash_entry_ok(e: StashEntry) -> bool {
    &&& e.short_name@ == stash_short_name_spec(e.index as nat)
    &&& e.oid@.len() == 40
    &&& e.parent_oid matches Some(p) ==> p@.len() == 40
}

/// Lists the stashes in the order git2 reports them, each with the oid of
/// the commit it was made on when git2 can find it.
pub fn list_stashes_inner(path: &str, registry: &RepoRegistry) -> (r: Result<
    Vec<StashEntry>,
    TrunkError,
>)
    ensures
        git_op_outcome(*registry, path@, r),
        r matches Ok(v) ==> forall|k: int| 0 <= k < v@.len() ==> stash_entry_ok(#[trigger] v@[k]),
{
    proof {
        lemma_codes_differ_from_not_open();
    }
    let repo = open_repo_from_state(path, registry)?;
    let raw = match git::read_stashes(&repo) {
        Ok(v) => v,
        Err(e) => return Err(from_git_error(e)),
    };
    let mut facts: Vec<StashFacts> = Vec::new();
    let mut i: usize = 0;
    while i < raw.len()
        invariant
            i <= raw@.len(),
            forall|k: int| 0 <= k < facts@.len() ==> stash_facts_ok(#[trigger] facts@[k]),
        decreases raw.len() - i,
    {
        let (idx, name, oid) = &raw[i];
        let parent_oid = match git::repo_find_commit(&repo, *oid) {
            Ok(c) => match git::commit_parent_id(&c, 0) {
                Ok(p) => Some(git::oid_to_string(&p)),
                Err(_) => None,
            },
            Err(_) => None,
        };
        facts.push(StashFacts { index: *idx, name: name.clone(), oid: git::oid_to_string(oid), parent_oid });
        i += 1;
    }
    Ok(stash_entries_from(&facts))
}

/// Checks out `oid` (any revision git understands) as a detached HEAD.
/// Refuses with `dirty_workdir` when tracked files have uncommitted changes.
pub fn checkout_commit_inner(path: &str, oid: &str, registry: &RepoRegistry) -> (r: Result<
    (),
    TrunkError,
>)
    ensures
        lookup_outcome(*registry, path@, r),
        r matches Err(e) ==> e.code@ == "not_open"@ || e.code@ == "git_error"@ || e.code@
            == "dirty_workdir"@,
{
    proof {
        lemma_codes_differ_from_not_open();
    }
    let repo = open_repo_from_state(path, registry)?;
    let bits = match git::repo_tracked_status_bits(&repo) {
        Ok(b) => b,
        Err(e) => return Err(from_git_error(e)),
    };
    if any_status_has(&bits, DIRTY_MASK) {
        return Err(TrunkError::new("dirty_workdir", "Working tree has uncommitted changes"));
    }
    let obj = match git::repo_revparse_single(&repo, oid) {
        Ok(o) => o,
        Err(e) => return Err(from_git_error(e)),
    };
    match git::repo_checkout_tree_safe(&repo, &obj) {
        Ok(()) => {},
        Err(e) => return Err(from_git_error(e)),
    }
    match git::repo_set_head_detached(&repo, git::object_id(&obj)) {
        Ok(()) => Ok(()),
        Err(e) => Err(from_git_error(e)),
    }
}

/// Creates the annotated tag `tag_name` on `oid` with `message`, or with the
/// tag name as message when it is blank (see `tag_message`).
pub fn create_tag_inner(
    path: &str,
    oid: &str,
    tag_name: &str,
    message: &str,
    registry: &RepoRegistry,
) -> (r: Result<(), TrunkError>)
    ensures
        git_op_outcome(*registry, path@, r),
{
    proof {
        lemma_codes_differ_from_not_open();
    }
    let repo = open_repo_from_state(path, registry)?;
    let obj = match git::repo_revparse_single(&repo, oid) {
        Ok(o) => o,
        Err(e) => return Err(from_git_error(e)),
    };
    let sig = match git::repo_signature(&repo) {
        Ok(s) => s,
        Err(e) => return Err(from_git_error(e)),
    };
    let msg = tag_message(tag_name, message);
    match git::repo_tag(&repo, tag_name, &obj, &sig, msg.as_str()) {
        Ok(_) => Ok(()),
        Err(e) => Err(from_git_error(e)),
    }
}

/// The reference name of a tag.
pub fn tag_ref_name(tag_name: &str) -> (r: String)
    ensures
        r@ == "refs/tags/"@ + tag_name@,
{
    let mut r = String::new();
    append_str(&mut r, "refs/tags/");
    append_str(&mut r, tag_name);
    r
}

/// Deletes the tag `tag_name` (the reference `refs/tags/<tag_name>`).
pub fn delete_tag_inner(path: &str, tag_name: &str, registry: &RepoRegistry) -> (r: Result<
    (),
    TrunkError,
>)
    ensures
        git_op_outcome(*registry, path@, r),
{
    proof {
        lemma_codes_differ_from_not_open();
    }
    let repo = open_repo_from_state(path, registry)?;
    let name = tag_ref_name(tag_name);
    let mut reference = match git::repo_find_reference(&repo, name.as_str()) {
        Ok(r) => r,
        Err(e) => return Err(from_git_error(e)),
    };
    match git::reference_delete(&mut reference) {
        Ok(()) => Ok(()),
        Err(e) => Err(from_git_error(e)),
    }
}

} // verus!
