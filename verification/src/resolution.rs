//! Whether each review comment still resolves against the repository: its
//! commit exists, its file exists on the anchored side, and its line range
//! lies within that file. Every comment gets exactly one verdict.

use vstd::prelude::*;
use vstd::string::*;
use crate::git;
use crate::review::{Anchor, Comment, Side};

verus! {

/// Why a comment no longer resolves.
#[derive(PartialEq, Eq, Structural, Clone, Copy, Debug)]
pub enum OrphanReason {
    /// The commit is unknown to the repository, or its oid is not one.
    CommitGone,
    /// The file is not in the commit's tree on the anchored side (an `Old`
    /// side of a root commit has no tree at all).
    FileGone,
    /// The line range is inverted, starts before line 1, or ends past the
    /// file's last line.
    LineOutOfRange,
}

/// The verdict on one comment; `reason` is `None` exactly when it resolves.
#[derive(Debug, PartialEq, Eq)]
pub struct CommentResolution {
    pub id: String,
    pub resolvable: bool,
    pub reason: Option<OrphanReason>,
}

/// The number of `\n` bytes in `b`.
pub open spec fn newline_count(b: Seq<u8>) -> nat
    decreases b.len(),
{
    if b.len() == 0 {
        0
    } else {
        newline_count(b.drop_last()) + if b.last() == 10 {
            1nat
        } else {
            0nat
        }
    }
}

/// The number of lines `str::lines` yields on the lossy UTF-8 decoding of
/// `b`: one per `\n`, plus one for a last line without a final `\n`. Lossy
/// decoding keeps every `\n` byte (an ASCII byte is never part of a replaced
/// sequence) and keeps the text empty exactly when `b` is.
pub open spec fn line_count(b: Seq<u8>) -> nat {
    newline_count(b) + if b.len() > 0 && b.last() != 10 {
        1nat
    } else {
        0nat
    }
}

/// A 1-based inclusive range `[start, end]` lies within a file of `lines`
/// lines (the count taken modulo 2^32, as a `u32`).
pub open spec fn range_in_file(start: u32, end: u32, lines: nat) -> bool {
    start >= 1 && end >= start && end <= (lines % 0x1_0000_0000)
}

proof fn lemma_newline_count_le(b: Seq<u8>)
    ensures
        newline_count(b) <= b.len(),
    decreases b.len(),
{
    if b.len() > 0 {
        lemma_newline_count_le(b.drop_last());
    }
}

/// Counts the lines of a file's bytes.
pub fn count_lines(b: &Vec<u8>) -> (n: usize)
    ensures
        n == line_count(b@),
{
    let mut n: usize = 0;
    let mut i: usize = 0;
    while i < b.len()
        invariant
            i <= b@.len(),
            n == newline_count(b@.subrange(0, i as int)),
            n <= i,
        decreases b.len() - i,
    {
        assert(b@.subrange(0, i + 1).drop_last() == b@.subrange(0, i as int));
        if b[i] == 10 {
            n += 1;
        }
        i += 1;
    }
    assert(b@.subrange(0, b@.len() as int) == b@);
    if b.len() > 0 && b[b.len() - 1] != 10 {
        proof {
            lemma_newline_count_le(b@.drop_last());
        }
        n + 1
    } else {
        n
    }
}

/// Checks a line range against a file's bytes.
pub fn classify_lines(start: u32, end: u32, content: &Vec<u8>) -> (r: Result<(), OrphanReason>)
    ensures
        r is Ok <==> range_in_file(start, end, line_count(content@)),
        r matches Err(reason) ==> reason == OrphanReason::LineOutOfRange,
{
    let n = count_lines(content);
    let lines = ((n as u64) % 0x1_0000_0000u64) as u32;
    if start >= 1 && end >= start && end <= lines {
        Ok(())
    } else {
        Err(OrphanReason::LineOutOfRange)
    }
}

/// What looking an anchor up in the repository found.
#[derive(Debug)]
pub enum AnchorTarget {
    /// Its commit is unknown, or its oid is not one.
    CommitGone,
    /// The file is not in the tree of the anchored side.
    FileGone,
    /// The bytes of the file on the anchored side.
    Content(Vec<u8>),
}

/// The commit whose tree an anchor's lines index into: the anchored commit
/// itself on the `New` side, its first parent on the `Old` side (none for a
/// root commit).
pub fn tree_commit(side: Side, commit: git2::Oid, first_parent: Option<git2::Oid>) -> (r: Option<git2::Oid>)
    ensures
        r == match side {
            Side::New => Some(commit),
            Side::Old => first_parent,
        },
{
    match side {
        Side::New => Some(commit),
        Side::Old => first_parent,
    }
}

/// Looks an anchor up: its own commit, then the tree of that commit (`New`)
/// or of its first parent (`Old`, so a root commit has none), then the file
/// in that tree.
fn anchor_target(anchor: &Anchor, repo: &git2::Repository) -> (t: AnchorTarget)
    ensures
        !git::is_oid_text(anchor.commit_oid@) ==> t is CommitGone,
{
    let oid = match git::oid_from_str(anchor.commit_oid.as_str()) {
        Ok(o) => o,
        Err(_) => return AnchorTarget::CommitGone,
    };
    let commit = match git::repo_find_commit(repo, oid) {
        Ok(c) => c,
        Err(_) => return AnchorTarget::CommitGone,
    };
    let first_parent = match git::commit_parent_id(&commit, 0) {
        Ok(p) => Some(p),
        Err(_) => None,
    };
    let owner = match tree_commit(anchor.side, oid, first_parent) {
        Some(o) => o,
        None => return AnchorTarget::FileGone,
    };
    let owner_commit = match git::repo_find_commit(repo, owner) {
        Ok(c) => c,
        Err(_) => return AnchorTarget::FileGone,
    };
    let tree = match git::commit_tree(&owner_commit) {
        Ok(t) => t,
        Err(_) => return AnchorTarget::FileGone,
    };
    let entry = match git::tree_get_path(&tree, anchor.file_path.as_str()) {
        Ok(e) => e,
        Err(_) => return AnchorTarget::FileGone,
    };
    match git::repo_find_blob(repo, git::tree_entry_id(&entry)) {
        Ok(b) => AnchorTarget::Content(git::blob_content(&b)),
        Err(_) => AnchorTarget::FileGone,
    }
}

/// The verdict on an anchor from what its lookup found: a missing commit or
/// file is reported as such, and found content resolves exactly when the
/// range lies within its lines.
pub fn anchor_verdict(target: AnchorTarget, start: u32, end: u32) -> (r: Result<(), OrphanReason>)
    ensures
        match target {
            AnchorTarget::CommitGone => r == Err::<(), OrphanReason>(OrphanReason::CommitGone),
            AnchorTarget::FileGone => r == Err::<(), OrphanReason>(OrphanReason::FileGone),
            AnchorTarget::Content(b) => {
                &&& r is Ok <==> range_in_file(start, end, line_count(b@))
                &&& r is Err ==> r == Err::<(), OrphanReason>(OrphanReason::LineOutOfRange)
            },
        },
{
    match target {
        AnchorTarget::CommitGone => Err(OrphanReason::CommitGone),
        AnchorTarget::FileGone => Err(OrphanReason::FileGone),
        AnchorTarget::Content(b) => classify_lines(start, end, &b),
    }
}

/// Classifies a line-anchored comment: its own commit must exist, the file
/// must be in the tree of that commit (`New`) or of its first parent (`Old`),
/// and the range must lie within the file.
pub fn classify_anchor(anchor: &Anchor, repo: &git2::Repository) -> (r: Result<(), OrphanReason>)
    ensures
        !git::is_oid_text(anchor.commit_oid@) ==> r == Err::<(), OrphanReason>(OrphanReason::CommitGone),
        r is Ok ==> anchor.start_line >= 1 && anchor.end_line >= anchor.start_line,
{
    anchor_verdict(anchor_target(anchor, repo), anchor.start_line, anchor.end_line)
}

/// The verdict built from a comment's id and the reason it does not resolve.
pub fn resolution_of(id: String, reason: Option<OrphanReason>) -> (r: CommentResolution)
    ensures
        r.id == id,
        r.reason == reason,
        r.resolvable == (reason is None),
{
    CommentResolution { id, resolvable: reason.is_none(), reason }
}

/// What is known of the verdict on one comment whatever the repository
/// holds: it keeps the comment's id; it resolves exactly when it has no
/// reason; a comment with neither an anchor nor a commit, or whose oid is
/// not an oid, has gone with its commit; an anchored comment with an
/// inverted range or one starting before line 1 does not resolve.
pub open spec fn verdict_ok(c: Comment, r: CommentResolution) -> bool {
    &&& r.id == c.id
    &&& r.resolvable == (r.reason is None)
    &&& match (c.anchor, c.commit_oid) {
        (Some(a), _) => {
            &&& !git::is_oid_text(a.commit_oid@) ==> r.reason == Some(OrphanReason::CommitGone)
            &&& !(a.start_line >= 1 && a.end_line >= a.start_line) ==> r.reason is Some
        },
        (None, Some(oid)) => !git::is_oid_text(oid@) ==> r.reason == Some(OrphanReason::CommitGone),
        (None, None) => r.reason == Some(OrphanReason::CommitGone),
    }
}

/// Whether the commit `commit_oid` names exists.
fn commit_exists(repo: &git2::Repository, commit_oid: &str) -> (b: bool)
    ensures
        b ==> git::is_oid_text(commit_oid@),
{
    match git::oid_from_str(commit_oid) {
        Ok(oid) => match git::repo_find_commit(repo, oid) {
            Ok(_) => true,
            Err(_) => false,
        },
        Err(_) => false,
    }
}

/// Resolves every comment against the repository: exactly one verdict per
/// comment, in the same order. A line-anchored comment is classified by its
/// anchor; a commit-level comment resolves when its commit exists.
pub fn resolve_all(comments: &Vec<Comment>, repo: &git2::Repository) -> (out: Vec<CommentResolution>)
    ensures
        out@.len() == comments@.len(),
        forall|k: int| 0 <= k < out@.len() ==> verdict_ok(comments@[k], #[trigger] out@[k]),
{
    let mut out: Vec<CommentResolution> = Vec::new();
    let mut i: usize = 0;
    while i < comments.len()
        invariant
            i <= comments@.len(),
            out@.len() == i,
            forall|k: int| 0 <= k < i ==> verdict_ok(comments@[k], #[trigger] out@[k]),
        decreases comments.len() - i,
    {
        let c = &comments[i];
        let reason = match &c.anchor {
            Some(anchor) => match classify_anchor(anchor, repo) {
                Ok(()) => None,
                Err(r) => Some(r),
            },
            None => match &c.commit_oid {
                Some(oid) => if commit_exists(repo, oid.as_str()) {
                    None
                } else {
                    Some(OrphanReason::CommitGone)
                },
                None => Some(OrphanReason::CommitGone),
            },
        };
        out.push(resolution_of(c.id.clone(), reason));
        i += 1;
    }
    out
}

} // verus!
