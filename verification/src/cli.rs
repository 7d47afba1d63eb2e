//! The git command lines Trunk runs (cherry-pick, revert, reset, merge and
//! rebase steps, merge-base) and what it makes of each one's outcome.

use vstd::prelude::*;
use vstd::string::*;
use crate::error::TrunkError;
use crate::text::{append_str, contains, contains_str, lowercase_of, to_lowercase, trim, trim_str};
use crate::review_doc::str_eq;

verus! {

/// A git command-line operation.
#[derive(Debug)]
pub enum GitOp {
    CherryPick { oid: String },
    Revert { oid: String },
    /// `mode` is one of `soft`, `mixed`, `hard` (see `validate_reset_mode`).
    Reset { oid: String, mode: String },
    /// Moves HEAD back one commit, keeping its changes staged.
    UndoLastCommit,
    /// Concludes a merge, with the given message or with git's own.
    MergeContinue { message: Option<String> },
    MergeAbort,
    RebaseContinue,
    RebaseSkip,
    RebaseAbort,
    MergeBranch { branch: String },
    RebaseBranch { onto: String },
    /// Finds where `branch` forked from HEAD.
    ForkPoint { branch: String },
}

/// How to run one git command: its arguments after `git`, and its
/// environment: `PATH` set to the login shell's, terminal prompts disabled
/// (`GIT_TERMINAL_PROMPT=0`), and `GIT_EDITOR=true` so that no editor opens.
#[derive(Debug)]
pub struct GitInvocation {
    pub args: Vec<String>,
    pub use_shell_path: bool,
    pub no_terminal_prompt: bool,
    pub editor_true: bool,
}

/// The arguments of the git command for `op`.
pub open spec fn op_args(op: GitOp) -> Seq<Seq<char>> {
    match op {
        GitOp::CherryPick { oid } => seq!["cherry-pick"@, oid@],
        GitOp::Revert { oid } => seq!["revert"@, oid@, "--no-edit"@],
        GitOp::Reset { oid, mode } => seq!["reset"@, "--"@ + mode@, oid@],
        GitOp::UndoLastCommit => seq!["reset"@, "--soft"@, "HEAD~1"@],
        GitOp::MergeContinue { message } => match message {
            Some(m) => seq!["commit"@, "-m"@, m@],
            None => seq!["merge"@, "--continue"@],
        },
        GitOp::MergeAbort => seq!["merge"@, "--abort"@],
        GitOp::RebaseContinue => seq!["rebase"@, "--continue"@],
        GitOp::RebaseSkip => seq!["rebase"@, "--skip"@],
        GitOp::RebaseAbort => seq!["rebase"@, "--abort"@],
        GitOp::MergeBranch { branch } => seq!["merge"@, branch@, "--no-edit"@],
        GitOp::RebaseBranch { onto } => seq!["rebase"@, onto@],
        GitOp::ForkPoint { branch } => seq!["merge-base"@, branch@, "HEAD"@],
    }
}

/// Commands that rewrite commits run with the login shell's `PATH` (so that
/// hooks and signing find the user's tools); the others disable terminal
/// prompts, and all but a merge commit with its own message and merge-base
/// also set `GIT_EDITOR=true`.
pub open spec fn op_env(op: GitOp) -> (bool, bool, bool) {
    match op {
        GitOp::CherryPick { .. } | GitOp::Revert { .. } | GitOp::Reset { .. } | GitOp::UndoLastCommit => (
            true,
            false,
            false,
        ),
        GitOp::MergeContinue { message } => (false, true, message is None),
        GitOp::ForkPoint { .. } => (false, true, false),
        _ => (false, true, true),
    }
}

/// The views of a list of strings.
pub open spec fn strings_view(v: Seq<String>) -> Seq<Seq<char>> {
    v.map_values(|s: String| s@)
}

/// Pushes a copy of `s`.
fn push_str(v: &mut Vec<String>, s: &str)
    ensures
        strings_view(final(v)@) == strings_view(old(v)@).push(s@),
{
    let ghost before = v@;
    v.push(s.to_owned());
    assert(strings_view(v@) =~= strings_view(before).push(s@));
}

/// Builds the invocation of `op`.
pub fn git_invocation(op: &GitOp) -> (inv: GitInvocation)
    ensures
        strings_view(inv.args@) == op_args(*op),
        (inv.use_shell_path, inv.no_terminal_prompt, inv.editor_true) == op_env(*op),
{
    let mut args: Vec<String> = Vec::new();
    match op {
        GitOp::CherryPick { oid } => {
            push_str(&mut args, "cherry-pick");
            push_str(&mut args, oid.as_str());
        },
        GitOp::Revert { oid } => {
            push_str(&mut args, "revert");
            push_str(&mut args, oid.as_str());
            push_str(&mut args, "--no-edit");
        },
        GitOp::Reset { oid, mode } => {
            push_str(&mut args, "reset");
            let mut flag = String::new();
            append_str(&mut flag, "--");
            append_str(&mut flag, mode.as_str());
            push_str(&mut args, flag.as_str());
            push_str(&mut args, oid.as_str());
        },
        GitOp::UndoLastCommit => {
            push_str(&mut args, "reset");
            push_str(&mut args, "--soft");
            push_str(&mut args, "HEAD~1");
        },
        GitOp::MergeContinue { message } => {
            match message {
                Some(m) => {
                    push_str(&mut args, "commit");
                    push_str(&mut args, "-m");
                    push_str(&mut args, m.as_str());
                },
                None => {
                    push_str(&mut args, "merge");
                    push_str(&mut args, "--continue");
                },
            }
        },
        GitOp::MergeAbort => {
            push_str(&mut args, "merge");
            push_str(&mut args, "--abort");
        },
        GitOp::RebaseContinue => {
            push_str(&mut args, "rebase");
            push_str(&mut args, "--continue");
        },
        GitOp::RebaseSkip => {
            push_str(&mut args, "rebase");
            push_str(&mut args, "--skip");
        },
        GitOp::RebaseAbort => {
            push_str(&mut args, "rebase");
            push_str(&mut args, "--abort");
        },
        GitOp::MergeBranch { branch } => {
            push_str(&mut args, "merge");
            push_str(&mut args, branch.as_str());
            push_str(&mut args, "--no-edit");
        },
        GitOp::RebaseBranch { onto } => {
            push_str(&mut args, "rebase");
            push_str(&mut args, onto.as_str());
        },
        GitOp::ForkPoint { branch } => {
            push_str(&mut args, "merge-base");
            push_str(&mut args, branch.as_str());
            push_str(&mut args, "HEAD");
        },
    }
    let (use_shell_path, no_terminal_prompt, editor_true) = match op {
        GitOp::CherryPick { .. } | GitOp::Revert { .. } | GitOp::Reset { .. } | GitOp::UndoLastCommit => (
            true,
            false,
            false,
        ),
        GitOp::MergeContinue { message } => (false, true, message.is_none()),
        GitOp::ForkPoint { .. } => (false, true, false),
        _ => (false, true, true),
    };
    proof {
        assert(strings_view(args@) =~= op_args(*op));
    }
    GitInvocation { args, use_shell_path, no_terminal_prompt, editor_true }
}

/// The error code of a failed `op` that is not a conflict.
pub open spec fn failure_code(op: GitOp) -> Seq<char> {
    match op {
        GitOp::CherryPick { .. } => "cherry_pick_error"@,
        GitOp::Revert { .. } => "revert_error"@,
        GitOp::Reset { .. } => "reset_error"@,
        GitOp::UndoLastCommit => "undo_error"@,
        GitOp::MergeContinue { .. } | GitOp::MergeAbort | GitOp::MergeBranch { .. } => "merge_error"@,
        GitOp::RebaseContinue | GitOp::RebaseSkip | GitOp::RebaseAbort | GitOp::RebaseBranch { .. } => "rebase_error"@,
        GitOp::ForkPoint { .. } => "fork_point_error"@,
    }
}

/// The error code of a failed `op`; also the code when git cannot be started.
pub fn failure_code_of(op: &GitOp) -> (c: &'static str)
    ensures
        c@ == failure_code(*op),
{
    match op {
        GitOp::CherryPick { .. } => "cherry_pick_error",
        GitOp::Revert { .. } => "revert_error",
        GitOp::Reset { .. } => "reset_error",
        GitOp::UndoLastCommit => "undo_error",
        GitOp::MergeContinue { .. } | GitOp::MergeAbort | GitOp::MergeBranch { .. } => "merge_error",
        GitOp::RebaseContinue | GitOp::RebaseSkip | GitOp::RebaseAbort | GitOp::RebaseBranch { .. } => "rebase_error",
        GitOp::ForkPoint { .. } => "fork_point_error",
    }
}

/// Whether the lowercase of `stderr` mentions a conflict.
pub open spec fn mentions_conflict(stderr: Seq<char>) -> bool {
    contains(lowercase_of(stderr), "conflict"@)
}

/// What a finished git command means. Success is success. A failed
/// cherry-pick or revert that mentions a conflict reports `conflict_state`.
/// A merge or rebase of a branch that stops on a conflict is no error: the
/// repository is left mid-operation for the user to resolve. Continuing a
/// rebase that stops at a conflict (or "could not apply") on the next commit
/// is no error either; its other failures report the trimmed stderr. Every
/// other failure reports the operation's failure code with git's stderr.
pub open spec fn outcome_spec(op: GitOp, success: bool, stderr: Seq<char>) -> Result<(), (Seq<char>, Seq<char>)> {
    if success {
        Ok(())
    } else {
        match op {
            GitOp::CherryPick { .. } | GitOp::Revert { .. } => if mentions_conflict(stderr) {
                Err(("conflict_state"@, stderr))
            } else {
                Err((failure_code(op), stderr))
            },
            GitOp::MergeBranch { .. } | GitOp::RebaseBranch { .. } => if mentions_conflict(stderr) {
                Ok(())
            } else {
                Err((failure_code(op), stderr))
            },
            GitOp::RebaseContinue => {
                let t = trim(stderr);
                if contains(lowercase_of(t), "conflict"@) || contains(
                    lowercase_of(t),
                    "could not apply"@,
                ) {
                    Ok(())
                } else {
                    Err((failure_code(op), t))
                }
            },
            _ => Err((failure_code(op), stderr)),
        }
    }
}

/// The view of an outcome.
pub open spec fn outcome_view(r: Result<(), TrunkError>) -> Result<(), (Seq<char>, Seq<char>)> {
    match r {
        Ok(()) => Ok(()),
        Err(e) => Err((e.code@, e.message@)),
    }
}

/// Decides what a finished git command means (see `outcome_spec`).
pub fn git_outcome(op: &GitOp, success: bool, stderr: &str) -> (r: Result<(), TrunkError>)
    ensures
        outcome_view(r) == outcome_spec(*op, success, stderr@),
{
    if success {
        return Ok(());
    }
    match op {
        GitOp::CherryPick { .. } | GitOp::Revert { .. } => {
            let lower = to_lowercase(stderr);
            if contains_str(lower.as_str(), "conflict") {
                Err(TrunkError::new("conflict_state", stderr))
            } else {
                Err(TrunkError::new(failure_code_of(op), stderr))
            }
        },
        GitOp::MergeBranch { .. } | GitOp::RebaseBranch { .. } => {
            let lower = to_lowercase(stderr);
            if contains_str(lower.as_str(), "conflict") {
                Ok(())
            } else {
                Err(TrunkError::new(failure_code_of(op), stderr))
            }
        },
        GitOp::RebaseContinue => {
            let t = trim_str(stderr);
            let lower = to_lowercase(t.as_str());
            if contains_str(lower.as_str(), "conflict") || contains_str(
                lower.as_str(),
                "could not apply",
            ) {
                Ok(())
            } else {
                Err(TrunkError::with_message(failure_code_of(op), t))
            }
        },
        _ => Err(TrunkError::new(failure_code_of(op), stderr)),
    }
}

/// The reset modes Trunk offers.
pub open spec fn valid_reset_mode(mode: Seq<char>) -> bool {
    mode == "soft"@ || mode == "mixed"@ || mode == "hard"@
}

/// Accepts `soft`, `mixed` and `hard`; any other mode is `invalid_mode`.
pub fn validate_reset_mode(mode: &str) -> (r: Result<(), TrunkError>)
    ensures
        r is Ok <==> valid_reset_mode(mode@),
        r matches Err(e) ==> e.code@ == "invalid_mode"@ && e.message@ == "Invalid reset mode: "@
            + mode@,
{
    if str_eq(mode, "soft") || str_eq(mode, "mixed") || str_eq(mode, "hard") {
        Ok(())
    } else {
        let mut msg = String::new();
        append_str(&mut msg, "Invalid reset mode: ");
        append_str(&mut msg, mode);
        Err(TrunkError::with_message("invalid_mode", msg))
    }
}

/// The fork point merge-base printed: its output, trimmed.
pub fn fork_point_from_output(stdout: &str) -> (oid: String)
    ensures
        oid@ == trim(stdout@),
{
    trim_str(stdout)
}


/// A merge or rebase of a branch that stops on a conflict is no error: git
/// leaves the repository mid-operation for the user to resolve.
pub proof fn law_branch_conflicts_are_not_errors(op: GitOp, stderr: Seq<char>)
    requires
        op is MergeBranch || op is RebaseBranch,
        contains(lowercase_of(stderr), "conflict"@),
    ensures
        outcome_spec(op, false, stderr) == Ok::<(), (Seq<char>, Seq<char>)>(()),
{
}

/// Any other failure of a merge or rebase of a branch reports git's stderr,
/// as `merge_error` for a merge and `rebase_error` for a rebase.
pub proof fn law_other_branch_failures_are_errors(op: GitOp, stderr: Seq<char>)
    requires
        op is MergeBranch || op is RebaseBranch,
        !contains(lowercase_of(stderr), "conflict"@),
    ensures
        op is MergeBranch ==> outcome_spec(op, false, stderr) == Err::<(), (Seq<char>, Seq<char>)>(("merge_error"@, stderr)),
        op is RebaseBranch ==> outcome_spec(op, false, stderr) == Err::<(), (Seq<char>, Seq<char>)>(("rebase_error"@, stderr)),
{
}

/// A cherry-pick or revert that stops on a conflict reports
/// `conflict_state` with git's stderr.
pub proof fn law_pick_conflicts_report_the_conflict(op: GitOp, stderr: Seq<char>)
    requires
        op is CherryPick || op is Revert,
        contains(lowercase_of(stderr), "conflict"@),
    ensures
        outcome_spec(op, false, stderr) == Err::<(), (Seq<char>, Seq<char>)>(("conflict_state"@, stderr)),
{
}

/// Whatever the operation, a run that succeeded is no error.
pub proof fn law_success_is_no_error(op: GitOp, stderr: Seq<char>)
    ensures
        outcome_spec(op, true, stderr) == Ok::<(), (Seq<char>, Seq<char>)>(()),
{
}

} // verus!
