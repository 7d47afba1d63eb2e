use trunk::cli::{failure_code_of, fork_point_from_output, git_invocation, git_outcome, validate_reset_mode, GitOp};
use trunk::history::{get_commit_graph, graph_page, CommitCache, GraphCommit, GraphResult, RefLabel, RefType};
use trunk::messages::{decimal_i64, decimal_string, decimal_u64, short_oid};
use trunk::operation::{
    attach_branch_colors, extract_merge_source, find_branch_color, operation_info, remove_all_str, OperationFiles,
    OperationType, RepoState,
};
use trunk::review::{end_review_session_inner, load_outcome, resume_review_session_inner, LoadOutcome, RemovalError, ResumeAction, SessionRead};
use trunk::shell_env::system_path;
use trunk::review::{clean_session, fresh_session, ReviewSessions, SessionState};

fn args(op: GitOp) -> Vec<String> {
    git_invocation(&op).args
}

fn commit_row(oid: &str, refs: Vec<RefLabel>) -> GraphCommit {
    GraphCommit {
        oid: oid.to_string(),
        short_oid: oid.to_string(),
        summary: String::new(),
        body: None,
        author_name: String::new(),
        author_email: String::new(),
        author_timestamp: 0,
        parent_oids: Vec::new(),
        refs,
        column: 0,
        color_index: 0,
        is_merge: false,
        is_stash: false,
        is_branch_tip: false,
        edges: Vec::new(),
    }
}

fn label(short: &str, color: usize) -> RefLabel {
    RefLabel {
        name: format!("refs/heads/{short}"),
        short_name: short.to_string(),
        ref_type: RefType::LocalBranch,
        is_head: false,
        color_index: color,
    }
}

fn no_files() -> OperationFiles {
    OperationFiles {
        merge_msg: None,
        head_shorthand: None,
        head_name: None,
        onto_branch: None,
        msgnum: None,
        end: None,
        message: None,
    }
}

#[test]
fn invocations_match_the_git_command_lines() {
    assert_eq!(args(GitOp::CherryPick { oid: "abc".into() }), vec!["cherry-pick", "abc"]);
    assert_eq!(args(GitOp::Revert { oid: "abc".into() }), vec!["revert", "abc", "--no-edit"]);
    assert_eq!(args(GitOp::Reset { oid: "abc".into(), mode: "hard".into() }), vec!["reset", "--hard", "abc"]);
    assert_eq!(args(GitOp::UndoLastCommit), vec!["reset", "--soft", "HEAD~1"]);
    assert_eq!(args(GitOp::MergeContinue { message: Some("Merge it".into()) }), vec!["commit", "-m", "Merge it"]);
    assert_eq!(args(GitOp::MergeContinue { message: None }), vec!["merge", "--continue"]);
    assert_eq!(args(GitOp::MergeBranch { branch: "feature".into() }), vec!["merge", "feature", "--no-edit"]);
    assert_eq!(args(GitOp::RebaseBranch { onto: "main".into() }), vec!["rebase", "main"]);
    assert_eq!(args(GitOp::RebaseSkip), vec!["rebase", "--skip"]);
    assert_eq!(args(GitOp::ForkPoint { branch: "feature".into() }), vec!["merge-base", "feature", "HEAD"]);
    let inv = git_invocation(&GitOp::CherryPick { oid: "x".into() });
    assert!(inv.use_shell_path && !inv.no_terminal_prompt && !inv.editor_true);
    let inv = git_invocation(&GitOp::MergeContinue { message: Some("m".into()) });
    assert!(!inv.use_shell_path && inv.no_terminal_prompt && !inv.editor_true);
    let inv = git_invocation(&GitOp::RebaseAbort);
    assert!(!inv.use_shell_path && inv.no_terminal_prompt && inv.editor_true);
}

#[test]
fn outcomes_follow_the_conflict_rules() {
    assert!(git_outcome(&GitOp::RebaseAbort, true, "whatever").is_ok());
    let e = git_outcome(&GitOp::CherryPick { oid: "a".into() }, false, "CONFLICT (content): x").unwrap_err();
    assert_eq!(e.code, "conflict_state");
    assert_eq!(e.message, "CONFLICT (content): x");
    let e = git_outcome(&GitOp::Revert { oid: "a".into() }, false, "bad object").unwrap_err();
    assert_eq!(e.code, "revert_error");
    assert!(git_outcome(&GitOp::MergeBranch { branch: "f".into() }, false, "Automatic merge failed; fix conflicts").is_ok());
    let e = git_outcome(&GitOp::MergeBranch { branch: "f".into() }, false, "not something we can merge").unwrap_err();
    assert_eq!(e.code, "merge_error");
    assert!(git_outcome(&GitOp::RebaseContinue, false, "error: could not apply 1234... x").is_ok());
    let e = git_outcome(&GitOp::RebaseContinue, false, "  no rebase in progress \n").unwrap_err();
    assert_eq!(e.code, "rebase_error");
    assert_eq!(e.message, "no rebase in progress");
    let e = git_outcome(&GitOp::Reset { oid: "a".into(), mode: "soft".into() }, false, "fatal").unwrap_err();
    assert_eq!(e.code, "reset_error");
    assert_eq!(failure_code_of(&GitOp::UndoLastCommit), "undo_error");
    assert_eq!(failure_code_of(&GitOp::ForkPoint { branch: "b".into() }), "fork_point_error");
}

#[test]
fn reset_modes_and_fork_point() {
    assert!(validate_reset_mode("soft").is_ok());
    assert!(validate_reset_mode("mixed").is_ok());
    assert!(validate_reset_mode("hard").is_ok());
    let e = validate_reset_mode("keep").unwrap_err();
    assert_eq!(e.code, "invalid_mode");
    assert_eq!(e.message, "Invalid reset mode: keep");
    assert_eq!(fork_point_from_output("  abc123\n"), "abc123");
}

#[test]
fn numbers_and_oids_print_in_decimal() {
    assert_eq!(decimal_u64(0), "0");
    assert_eq!(decimal_u64(18446744073709551615), "18446744073709551615");
    assert_eq!(decimal_string(42), "42");
    assert_eq!(decimal_i64(-9223372036854775808), "-9223372036854775808");
    assert_eq!(decimal_i64(-7), "-7");
    assert_eq!(short_oid("0123456789"), "0123456");
    assert_eq!(short_oid("abc"), "abc");
}

#[test]
fn merge_sources_are_read_from_merge_messages() {
    assert_eq!(extract_merge_source(Some("Merge branch 'feature'")).as_deref(), Some("feature"));
    assert_eq!(
        extract_merge_source(Some("Merge remote-tracking branch 'origin/main' into dev")).as_deref(),
        Some("origin/main")
    );
    assert_eq!(extract_merge_source(Some("Merge branch 'unterminated")).as_deref(), Some("unterminated"));
    assert_eq!(extract_merge_source(Some("Merged 'x'")), None);
    assert_eq!(extract_merge_source(None), None);
    assert_eq!(remove_all_str("refs/heads/refs/heads/x", "refs/heads/"), "x");
    assert_eq!(remove_all_str("aaa", "aa"), "a");
}

#[test]
fn operation_info_per_state() {
    let mut files = no_files();
    files.merge_msg = Some("Merge branch 'feature'\n".into());
    files.head_shorthand = Some("main".into());
    let info = operation_info(RepoState::Merge, files);
    assert_eq!(info.op_type, OperationType::Merge);
    assert_eq!(info.source_branch.as_deref(), Some("feature"));
    assert_eq!(info.target_branch.as_deref(), Some("main"));
    assert!(info.progress.is_none());

    let mut files = no_files();
    files.head_name = Some(" refs/heads/topic\n".into());
    files.onto_branch = Some("main".into());
    files.msgnum = Some("2\n".into());
    files.end = Some("5\n".into());
    files.message = Some("  Fix it \n".into());
    let info = operation_info(RepoState::RebaseMerge, files);
    assert_eq!(info.op_type, OperationType::Rebase);
    assert_eq!(info.source_branch.as_deref(), Some("topic"));
    assert_eq!(info.target_branch.as_deref(), Some("main"));
    assert_eq!(info.progress.as_deref(), Some("2/5"));
    assert_eq!(info.rebase_message.as_deref(), Some("Fix it"));

    let mut files = no_files();
    files.msgnum = Some("1".into());
    let info = operation_info(RepoState::Rebase, files);
    assert!(info.progress.is_none());

    let mut files = no_files();
    files.merge_msg = Some("Merge branch 'x'".into());
    let info = operation_info(RepoState::CherryPickSequence, files);
    assert_eq!(info.op_type, OperationType::CherryPick);
    assert!(info.source_branch.is_none());
    assert_eq!(operation_info(RepoState::RevertSequence, no_files()).op_type, OperationType::Revert);
    assert_eq!(operation_info(RepoState::Bisect, no_files()).op_type, OperationType::Idle);
    assert_eq!(operation_info(RepoState::Clean, no_files()).op_type, OperationType::Idle);
}

#[test]
fn branch_colors_come_from_the_first_matching_label() {
    let commits = vec![
        commit_row("c1", vec![label("other", 4)]),
        commit_row("c2", vec![label("main", 1), label("feature", 2)]),
        commit_row("c3", vec![label("feature", 3)]),
    ];
    assert_eq!(find_branch_color(&commits, "feature"), Some(2));
    assert_eq!(find_branch_color(&commits, "main"), Some(1));
    assert_eq!(find_branch_color(&commits, "gone"), None);
    let mut files = no_files();
    files.merge_msg = Some("Merge branch 'feature'".into());
    files.head_shorthand = Some("main".into());
    let info = attach_branch_colors(operation_info(RepoState::Merge, files), Some(&commits));
    assert_eq!(info.source_color_index, Some(2));
    assert_eq!(info.target_color_index, Some(1));
    let info = attach_branch_colors(operation_info(RepoState::Clean, no_files()), Some(&commits));
    assert_eq!(info.source_color_index, None);
    let mut files = no_files();
    files.head_shorthand = Some("main".into());
    let info = attach_branch_colors(operation_info(RepoState::Merge, files), None);
    assert_eq!(info.target_color_index, None);
}

#[test]
fn graph_pages_are_two_hundred_commits() {
    let commits: Vec<GraphCommit> = (0..450).map(|i| commit_row(&format!("c{i}"), Vec::new())).collect();
    let result = GraphResult { commits, max_columns: 3 };
    let page = graph_page(&result, 0);
    assert_eq!(page.commits.len(), 200);
    assert_eq!(page.commits[0].oid, "c0");
    assert_eq!(page.max_columns, 3);
    let page = graph_page(&result, 400);
    assert_eq!(page.commits.len(), 50);
    assert_eq!(page.commits[0].oid, "c400");
    assert_eq!(graph_page(&result, 1000).commits.len(), 0);
    let mut cache = CommitCache::new();
    cache.insert("/r".to_string(), result);
    assert_eq!(get_commit_graph("/r", 200, &cache).ok().unwrap().commits[0].oid, "c200");
    let e = get_commit_graph("/q", 0, &cache).err().unwrap();
    assert_eq!(e.code, "repo_not_open");
    assert_eq!(e.message, "Repository not open");
}

#[test]
fn system_path_prefers_the_login_shell() {
    let marked = "banner __TRUNK_PATH_BEGIN__/nix/bin:/usr/bin__TRUNK_PATH_END__";
    let helper = "PATH=\"/usr/bin:/bin\"; export PATH;";
    assert_eq!(system_path(Some(marked), Some(helper), "/env"), "/nix/bin:/usr/bin");
    assert_eq!(system_path(Some("no markers"), Some(helper), "/env"), "/usr/bin:/bin");
    assert_eq!(system_path(None, None, "/env"), "/env");
    assert_eq!(system_path(Some("x"), Some("no quotes"), ""), "");
}

#[test]
fn session_files_load_by_the_recovery_rules() {
    assert!(matches!(load_outcome(SessionRead::Absent), LoadOutcome::Missing));
    assert!(matches!(load_outcome(SessionRead::NotJson), LoadOutcome::RecoveredCorrupt));
    let newer = SessionRead::Json { schema_version: Some(2), session: Some(fresh_session()) };
    assert!(matches!(load_outcome(newer), LoadOutcome::RefusedNewer));
    let shapeless = SessionRead::Json { schema_version: Some(1), session: None };
    assert!(matches!(load_outcome(shapeless), LoadOutcome::RecoveredCorrupt));
    let mut s = fresh_session();
    s.draft_comment = Some("draft".into());
    match load_outcome(SessionRead::Json { schema_version: None, session: Some(s) }) {
        LoadOutcome::Loaded(l) => assert_eq!(l.draft_comment.as_deref(), Some("draft")),
        _ => panic!("an old-schema session loads"),
    }
}

#[test]
fn resuming_and_ending_sessions() {
    assert!(matches!(resume_review_session_inner(SessionRead::Absent), Ok(ResumeAction::Nothing)));
    match resume_review_session_inner(SessionRead::NotJson) {
        Ok(ResumeAction::SaveFreshAndInsert(s)) => assert!(s.comments.is_empty()),
        _ => panic!("a corrupt file is replaced"),
    }
    let newer = SessionRead::Json { schema_version: Some(7), session: None };
    assert_eq!(resume_review_session_inner(newer).err().unwrap().code, "newer_version");
    assert_eq!(end_review_session_inner("/c".into(), Ok(())).unwrap(), "/c");
    let gone = RemovalError { not_found: true, message: "No such file".into() };
    assert_eq!(end_review_session_inner("/c".into(), Err(gone)).unwrap(), "/c");
    let denied = RemovalError { not_found: false, message: "Permission denied".into() };
    let e = end_review_session_inner("/c".into(), Err(denied)).unwrap_err();
    assert_eq!(e.code, "io");
    assert_eq!(e.message, "Permission denied");
}

#[test]
fn live_sessions_hydrate_without_clobbering() {
    let mut live = ReviewSessions::new();
    let mut working = fresh_session();
    working.draft_comment = Some("in progress".into());
    live.insert("/repo".into(), working);
    assert_eq!(live.status("/repo".into(), true).state, SessionState::Active);
    let on_disk = SessionRead::Json { schema_version: Some(1), session: Some(fresh_session()) };
    let clean = clean_session(on_disk).unwrap();
    live.hydrate("/repo".into(), clean);
    assert_eq!(live.by_path.get("/repo").unwrap().draft_comment.as_deref(), Some("in progress"));
    live.remove("/repo");
    assert_eq!(live.status("/repo".into(), true).state, SessionState::ResumeAvailable);
    live.hydrate("/repo".into(), fresh_session());
    assert!(live.contains("/repo"));
    assert_eq!(live.status("/repo".into(), true).state, SessionState::Active);
    assert_eq!(live.status("/repo".into(), false).state, SessionState::NoSession);
}

#[test]
fn only_clean_current_sessions_hydrate() {
    assert!(clean_session(SessionRead::Absent).is_none());
    assert!(clean_session(SessionRead::NotJson).is_none());
    assert!(clean_session(SessionRead::Json { schema_version: None, session: Some(fresh_session()) }).is_none());
    assert!(clean_session(SessionRead::Json { schema_version: Some(2), session: Some(fresh_session()) }).is_none());
    assert!(clean_session(SessionRead::Json { schema_version: Some(1), session: None }).is_none());
    assert!(clean_session(SessionRead::Json { schema_version: Some(1), session: Some(fresh_session()) }).is_some());
}

#[test]
fn consecutive_pages_tile_the_history() {
    let commits: Vec<GraphCommit> = (0..401).map(|i| commit_row(&format!("c{i}"), Vec::new())).collect();
    let result = GraphResult { commits, max_columns: 2 };
    let mut seen: Vec<String> = Vec::new();
    let mut offset = 0;
    loop {
        let page = graph_page(&result, offset);
        assert!(page.commits.len() <= 200);
        if page.commits.is_empty() {
            break;
        }
        seen.extend(page.commits.into_iter().map(|c| c.oid));
        offset += 200;
    }
    let all: Vec<String> = (0..401).map(|i| format!("c{i}")).collect();
    assert_eq!(seen, all);
}

#[test]
fn hydrate_is_a_noop_without_a_saved_session() {
    let mut live = ReviewSessions::new();
    if let Some(session) = clean_session(SessionRead::Absent) {
        live.hydrate("/repo".into(), session);
    }
    assert!(live.by_path.is_empty());
}
