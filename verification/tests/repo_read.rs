use std::io::Write;
use std::path::Path;
use trunk::graph::EdgeType;
use trunk::history::{search_commits_inner, CommitCache, GraphCommit, GraphResult, RefType};
use trunk::operation::{get_operation_state_inner, operation_from, GitDirFiles, OperationType, RepoState};
use trunk::repo_ops::{check_undo_available_inner, create_tag_inner, delete_tag_inner, prepare_undo_commit, redo_commit_inner};
use trunk::repo_read::{branch_for_oid_text, BranchTarget, build_ref_map, classify_ref, make_ref_label, resolve_oid_to_branch, snapshot_message, snapshot_working_tree, stash_label, RefMap};
use trunk::state::RepoRegistry;

fn write_file(dir: &Path, file: &str, content: &str) {
    let mut tmp = tempfile::NamedTempFile::new_in(dir).unwrap();
    tmp.write_all(content.as_bytes()).unwrap();
    tmp.persist(dir.join(file)).unwrap();
}

fn commit_file(repo: &git2::Repository, dir: &Path, file: &str, content: &str, update: &str, msg: &str, parents: &[&git2::Commit]) -> git2::Oid {
    write_file(dir, file, content);
    let mut index = repo.index().unwrap();
    index.add_path(Path::new(file)).unwrap();
    index.write().unwrap();
    let tree = repo.find_tree(index.write_tree().unwrap()).unwrap();
    let sig = git2::Signature::now("Test User", "test@example.com").unwrap();
    repo.commit(Some(update), &sig, &sig, msg, &tree, parents).unwrap()
}

fn init(dir: &Path) -> git2::Repository {
    let repo = git2::Repository::init(dir).unwrap();
    let mut cfg = repo.config().unwrap();
    cfg.set_str("user.name", "Test User").unwrap();
    cfg.set_str("user.email", "test@example.com").unwrap();
    drop(cfg);
    repo
}

/// main: Initial commit -> merge of a Feature commit on `feature`.
fn make_merge_repo(merge_message: &str) -> tempfile::TempDir {
    let dir = tempfile::tempdir().unwrap();
    let repo = init(dir.path());
    let base = commit_file(&repo, dir.path(), "README.md", "hello", "refs/heads/main", "Initial commit", &[]);
    repo.set_head("refs/heads/main").unwrap();
    let base = repo.find_commit(base).unwrap();
    let feat = commit_file(&repo, dir.path(), "feature.txt", "feature work", "refs/heads/feature", "Feature commit", &[&base]);
    let feat = repo.find_commit(feat).unwrap();
    commit_file(&repo, dir.path(), "merged.txt", "merged", "refs/heads/main", merge_message, &[&base, &feat]);
    dir
}

fn stash_something(dir: &Path) {
    let mut repo = git2::Repository::open(dir).unwrap();
    write_file(dir, "stashed.txt", "stashed work");
    let mut index = repo.index().unwrap();
    index.add_path(Path::new("stashed.txt")).unwrap();
    index.write().unwrap();
    let sig = git2::Signature::now("Test User", "test@example.com").unwrap();
    repo.stash_save(&sig, "test stash", None).unwrap();
}

fn any_label(map: &RefMap, f: impl Fn(&trunk::history::RefLabel) -> bool) -> bool {
    map.pairs.iter().any(|(_, l)| f(l))
}

fn registry_for(dir: &Path) -> (String, RepoRegistry) {
    let path = dir.to_string_lossy().to_string();
    let mut reg = RepoRegistry::new();
    reg.insert(path.clone(), path.clone());
    (path, reg)
}

fn graph_of(dir: &Path) -> GraphResult {
    let mut repo = git2::Repository::open(dir).unwrap();
    let refs = build_ref_map(&mut repo);
    let mut walk = repo.revwalk().unwrap();
    walk.set_sorting(git2::Sort::TOPOLOGICAL | git2::Sort::TIME).unwrap();
    walk.push_head().unwrap();
    let mut commits = Vec::new();
    for oid in walk {
        let oid = oid.unwrap();
        let c = repo.find_commit(oid).unwrap();
        let text = oid.to_string();
        commits.push(GraphCommit {
            short_oid: text[..7].to_string(),
            summary: c.summary().ok().flatten().unwrap_or("").to_string(),
            body: c.body().ok().flatten().map(|b| b.to_string()),
            author_name: c.author().name().ok().unwrap_or("").to_string(),
            author_email: c.author().email().ok().unwrap_or("").to_string(),
            author_timestamp: c.time().seconds(),
            parent_oids: c.parent_ids().map(|p| p.to_string()).collect(),
            refs: refs.labels_for(&text),
            column: 0,
            color_index: 0,
            is_merge: c.parent_count() > 1,
            is_stash: false,
            is_branch_tip: false,
            edges: Vec::new(),
            oid: text,
        });
    }
    GraphResult { commits, max_columns: 1 }
}

fn tree_contains(repo: &git2::Repository, oid: git2::Oid, path: &str) -> bool {
    let commit = repo.find_commit(oid).unwrap();
    let tree = commit.tree().unwrap();
    let found = tree.get_path(Path::new(path)).is_ok();
    found
}

fn no_reads() -> GitDirFiles {
    GitDirFiles { merge_msg: None, head_name: None, onto: None, msgnum: None, end: None, message: None }
}

#[test]
fn repository_ref_map_head() {
    let dir = make_merge_repo("Merge feature into main");
    let mut repo = git2::Repository::open(dir.path()).unwrap();
    let map = build_ref_map(&mut repo);
    assert!(any_label(&map, |r| r.is_head), "expected at least one ref with is_head == true");
}

#[test]
fn repository_ref_map_stash() {
    let dir = make_merge_repo("Merge feature into main");
    stash_something(dir.path());
    let mut repo = git2::Repository::open(dir.path()).unwrap();
    let map = build_ref_map(&mut repo);
    assert!(
        any_label(&map, |r| matches!(r.ref_type, RefType::Stash)),
        "expected at least one RefLabel with ref_type == Stash"
    );
}

#[test]
fn test_repository_ref_map_head() {
    let dir = make_merge_repo("Merge branch 'feature'");
    let mut repo = git2::Repository::open(dir.path()).unwrap();
    let map = build_ref_map(&mut repo);
    assert!(any_label(&map, |r| r.is_head), "expected at least one ref with is_head == true");
}

#[test]
fn test_repository_ref_map_stash() {
    let dir = make_merge_repo("Merge branch 'feature'");
    stash_something(dir.path());
    let mut repo = git2::Repository::open(dir.path()).unwrap();
    let map = build_ref_map(&mut repo);
    assert!(
        any_label(&map, |r| matches!(r.ref_type, RefType::Stash)),
        "expected at least one RefLabel with ref_type == Stash"
    );
}

#[test]
fn ref_map_labels_branches_and_tags_of_their_commits() {
    let dir = make_merge_repo("Merge feature into main");
    let repo = git2::Repository::open(dir.path()).unwrap();
    let head = repo.head().unwrap().peel_to_commit().unwrap();
    let sig = git2::Signature::now("Test User", "test@example.com").unwrap();
    repo.tag("v1", head.as_object(), &sig, "release", false).unwrap();
    let head_oid = head.id().to_string();
    drop(head);
    let mut repo = repo;
    let map = build_ref_map(&mut repo);
    let labels = map.labels_for(&head_oid);
    assert_eq!(labels.len(), 2);
    let main = labels.iter().find(|l| l.short_name == "main").unwrap();
    assert!(main.is_head);
    assert_eq!(main.name, "refs/heads/main");
    let tag = labels.iter().find(|l| l.short_name == "v1").unwrap();
    assert_eq!(tag.ref_type, RefType::Tag);
    assert!(!tag.is_head);
    assert!(labels.iter().all(|l| l.color_index == 0));
}

#[test]
fn ref_classification_and_labels() {
    assert_eq!(classify_ref(true, false, false), Some(RefType::LocalBranch));
    assert_eq!(classify_ref(true, true, false), Some(RefType::RemoteBranch));
    assert_eq!(classify_ref(false, false, true), Some(RefType::Tag));
    assert_eq!(classify_ref(false, false, false), None);
    let head = Some("refs/heads/main".to_string());
    let l = make_ref_label("refs/heads/main".into(), None, RefType::LocalBranch, &head);
    assert_eq!(l.short_name, "refs/heads/main");
    assert!(l.is_head);
    let l = make_ref_label("refs/remotes/o/main".into(), Some("o/main".into()), RefType::RemoteBranch, &head);
    assert!(!l.is_head);
    assert_eq!(l.short_name, "o/main");
    let s = stash_label("On main: wip".into());
    assert_eq!(s.short_name, "stash");
    assert_eq!(s.ref_type, RefType::Stash);
}

#[test]
fn onto_oids_resolve_to_branches() {
    let dir = make_merge_repo("Merge feature into main");
    let repo = git2::Repository::open(dir.path()).unwrap();
    let feature = repo.find_reference("refs/heads/feature").unwrap().target().unwrap().to_string();
    assert_eq!(resolve_oid_to_branch(&repo, &feature).as_deref(), Some("feature"));
    let head = repo.head().unwrap().peel_to_commit().unwrap();
    let initial = head.parent_id(0).unwrap().to_string();
    assert_eq!(resolve_oid_to_branch(&repo, &initial).as_deref(), Some(&initial[..7]));
    assert_eq!(resolve_oid_to_branch(&repo, "zz-not-an-oid"), None);
}

#[test]
fn snapshot_includes_untracked_files() {
    let dir = tempfile::tempdir().unwrap();
    let repo = init(dir.path());
    let base = commit_file(&repo, dir.path(), "committed.txt", "committed\n", "HEAD", "initial", &[]);
    write_file(dir.path(), "new.txt", "uncommitted\n");
    write_file(dir.path(), ".gitignore", "secret.txt\n");
    write_file(dir.path(), "secret.txt", "do not capture\n");
    let oid = snapshot_working_tree(&repo).ok().unwrap();
    assert!(tree_contains(&repo, oid, "new.txt"));
    assert!(tree_contains(&repo, oid, ".gitignore"));
    assert!(!tree_contains(&repo, oid, "secret.txt"));
    let snap = repo.find_commit(oid).unwrap();
    assert_eq!(snap.parent_id(0).unwrap(), base);
    assert!(snap.summary().unwrap().unwrap().starts_with("Uncommitted changes — "));
    assert_eq!(repo.head().unwrap().target().unwrap(), base);
    let on_disk = git2::Repository::open(dir.path()).unwrap().index().unwrap();
    assert!(on_disk.get_path(Path::new("new.txt"), 0).is_none());
}

#[test]
fn snapshot_of_unborn_head_has_no_parent() {
    let dir = tempfile::tempdir().unwrap();
    let repo = git2::Repository::init(dir.path()).unwrap();
    write_file(dir.path(), "first.txt", "hello\n");
    let oid = snapshot_working_tree(&repo).ok().unwrap();
    let commit = repo.find_commit(oid).unwrap();
    assert_eq!(commit.parent_count(), 0);
    assert!(tree_contains(&repo, oid, "first.txt"));
    assert_eq!(snapshot_message(1700000000), "Uncommitted changes — 1700000000");
}

#[test]
fn clean_repo_returns_none_operation_type() {
    let dir = tempfile::tempdir().unwrap();
    let repo = init(dir.path());
    commit_file(&repo, dir.path(), "file.txt", "hello", "refs/heads/main", "Initial commit", &[]);
    repo.set_head("refs/heads/main").unwrap();
    let (path, reg) = registry_for(dir.path());
    let info = get_operation_state_inner(&path, no_reads(), &reg).ok().unwrap();
    assert!(matches!(info.op_type, OperationType::Idle));
    assert!(info.source_branch.is_none());
    assert!(info.target_branch.is_none());
    assert!(info.progress.is_none());
}

#[test]
fn merge_state_is_described_from_merge_msg() {
    let dir = tempfile::tempdir().unwrap();
    let repo = init(dir.path());
    let base = commit_file(&repo, dir.path(), "file.txt", "hello", "refs/heads/main", "Initial commit", &[]);
    repo.set_head("refs/heads/main").unwrap();
    let base = repo.find_commit(base).unwrap();
    let feat = commit_file(&repo, dir.path(), "file.txt", "feature", "refs/heads/feature", "Feature", &[&base]);
    // A merge in progress is marked by MERGE_HEAD in the git directory.
    write_file(&dir.path().join(".git"), "MERGE_HEAD", &format!("{feat}\n"));
    let (path, reg) = registry_for(dir.path());
    let mut reads = no_reads();
    reads.merge_msg = Some("Merge branch 'feature'\n".to_string());
    let info = get_operation_state_inner(&path, reads, &reg).ok().unwrap();
    assert_eq!(info.op_type, OperationType::Merge);
    assert_eq!(info.source_branch.as_deref(), Some("feature"));
    assert_eq!(info.target_branch.as_deref(), Some("main"));
    assert_eq!(get_operation_state_inner("/nope", no_reads(), &reg).err().unwrap().code, "not_open");
}

#[test]
fn workflow_tag_and_branch_management() {
    let dir = tempfile::tempdir().unwrap();
    let repo = init(dir.path());
    let oid = commit_file(&repo, dir.path(), "README.md", "hello", "refs/heads/main", "Initial commit", &[]);
    repo.set_head("refs/heads/main").unwrap();
    repo.branch("temp", &repo.find_commit(oid).unwrap(), false).unwrap();
    let (path, reg) = registry_for(dir.path());

    create_tag_inner(&path, &oid.to_string(), "v1.0", "Release v1.0", &reg).unwrap();
    assert!(repo.find_reference("refs/tags/v1.0").is_ok());

    repo.find_branch("temp", git2::BranchType::Local).unwrap().delete().unwrap();
    assert!(repo.find_branch("temp", git2::BranchType::Local).is_err());

    let mut r = git2::Repository::open(dir.path()).unwrap();
    let refs = build_ref_map(&mut r);
    assert!(any_label(&refs, |l| l.ref_type == RefType::Tag && l.short_name == "v1.0"), "tags should contain v1.0");
    assert!(!any_label(&refs, |l| l.ref_type == RefType::LocalBranch && l.short_name == "temp"), "branches should not contain temp");

    delete_tag_inner(&path, "v1.0", &reg).unwrap();
    let mut r = git2::Repository::open(dir.path()).unwrap();
    let refs = build_ref_map(&mut r);
    assert!(!any_label(&refs, |l| l.ref_type == RefType::Tag && l.short_name == "v1.0"), "tags should not contain v1.0 after deletion");
}

#[test]
fn workflow_undo_redo_commit() {
    let dir = tempfile::tempdir().unwrap();
    let repo = init(dir.path());
    let first = commit_file(&repo, dir.path(), "README.md", "first", "refs/heads/main", "First", &[]);
    repo.set_head("refs/heads/main").unwrap();
    let first_commit = repo.find_commit(first).unwrap();
    commit_file(&repo, dir.path(), "README.md", "second", "refs/heads/main", "Second", &[&first_commit]);
    let (path, reg) = registry_for(dir.path());

    assert!(check_undo_available_inner(&path, &reg).unwrap(), "undo should be available with 2 commits");

    // Undo: what is undone is checked and read first, then HEAD moves back
    // one commit keeping the changes staged (`git reset --soft HEAD~1`).
    let undo_result = prepare_undo_commit(&path, &reg).unwrap();
    repo.reset(first_commit.as_object(), git2::ResetType::Soft, None).unwrap();
    assert_eq!(repo.head().unwrap().peel_to_commit().unwrap().summary().unwrap().unwrap(), "First");
    assert_eq!(undo_result.subject, "Second");

    redo_commit_inner(&path, &undo_result.subject, undo_result.body.as_deref(), &reg).unwrap();
    assert_eq!(repo.head().unwrap().peel_to_commit().unwrap().summary().unwrap().unwrap(), "Second");
}

#[test]
fn workflow_search_commit_history() {
    let dir = tempfile::tempdir().unwrap();
    let repo = init(dir.path());
    let a = commit_file(&repo, dir.path(), "README.md", "init", "refs/heads/main", "Initial setup", &[]);
    repo.set_head("refs/heads/main").unwrap();
    let a = repo.find_commit(a).unwrap();
    let b = commit_file(&repo, dir.path(), "feature.txt", "feature", "refs/heads/main", "Add feature X", &[&a]);
    let b = repo.find_commit(b).unwrap();
    commit_file(&repo, dir.path(), "bugfix.txt", "fix", "refs/heads/main", "Fix bug in Y", &[&b]);
    let path = dir.path().to_string_lossy().to_string();
    let mut cache = CommitCache::new();
    cache.insert(path.clone(), graph_of(dir.path()));

    let results = search_commits_inner(&path, "feature", &cache).ok().unwrap();
    assert_eq!(results.len(), 1, "should find 1 commit matching 'feature'");
    let results = search_commits_inner(&path, "bug", &cache).ok().unwrap();
    assert_eq!(results.len(), 1, "should find 1 commit matching 'bug'");
    let results = search_commits_inner(&path, "Test User", &cache).ok().unwrap();
    assert_eq!(results.len(), 3, "should find 3 commits matching author 'Test User'");
}

#[test]
fn history_lists_commits_newest_first_with_labels() {
    let dir = make_merge_repo("Merge feature into main");
    let mut repo = git2::Repository::open(dir.path()).unwrap();
    let graph = trunk::repo_read::list_history(&mut repo).ok().unwrap();
    assert_eq!(graph.commits.len(), 3);
    // The merge's second parent opens a lane to the right of main's.
    assert_eq!(graph.max_columns, 2);
    let merge = &graph.commits[0];
    assert_eq!(merge.summary, "Merge feature into main");
    assert!(merge.is_merge);
    assert_eq!(merge.parent_oids.len(), 2);
    assert_eq!(merge.short_oid, &merge.oid[..7]);
    assert_eq!(merge.author_name, "Test User");
    assert_eq!(merge.author_email, "test@example.com");
    assert!(merge.refs.iter().any(|r| r.short_name == "main" && r.is_head));
    assert_eq!(graph.commits[2].summary, "Initial commit");
    let cols: Vec<usize> = graph.commits.iter().map(|c| c.column).collect();
    assert_eq!(cols, vec![0, 1, 0]);
    assert!(graph.commits.iter().all(|c| c.color_index == c.column && !c.is_stash));
    assert_eq!(graph.commits[1].summary, "Feature commit");
    // The merge draws a line right to the feature lane; the base forks back
    // up into it.
    assert!(merge.edges.iter().any(|e| e.edge_type == EdgeType::MergeRight && e.to_column == 1));
    assert!(graph.commits[2].edges.iter().any(|e| e.edge_type == EdgeType::ForkRight && e.to_column == 1));
    // The root draws no line of its own down.
    assert!(!graph.commits[2].edges.iter().any(|e| e.edge_type == EdgeType::Straight && e.from_column == 0));
    let empty = tempfile::tempdir().unwrap();
    let mut fresh = git2::Repository::init(empty.path()).unwrap();
    let none = trunk::repo_read::list_history(&mut fresh).ok().unwrap();
    assert!(none.commits.is_empty());
    assert_eq!(none.max_columns, 0);
}

#[test]
fn history_rows_fill_defaults_and_flag_merges() {
    let row = trunk::repo_read::history_row(
        "0123456789abcdef0123456789abcdef01234567".to_string(),
        vec!["a".repeat(40), "b".repeat(40)],
        None,
        Some("body".to_string()),
        Some("Ann".to_string()),
        None,
        42,
        Vec::new(),
        2,
        Vec::new(),
        false,
        true,
    );
    assert_eq!(row.short_oid, "0123456");
    assert_eq!(row.summary, "");
    assert_eq!(row.body.as_deref(), Some("body"));
    assert_eq!(row.author_name, "Ann");
    assert_eq!(row.author_email, "");
    assert_eq!(row.author_timestamp, 42);
    assert!(row.is_merge);
    assert!(!row.is_stash);
    assert_eq!((row.column, row.color_index), (2, 2));
    assert!(row.is_branch_tip);
}

fn facts(name: &str, short: Option<&str>, branch: bool, remote: bool, tag: bool, target: Option<&str>, peeled: Option<&str>) -> trunk::repo_read::RefFacts {
    trunk::repo_read::RefFacts {
        name: Some(name.to_string()),
        shorthand: short.map(|s| s.to_string()),
        is_branch: branch,
        is_remote: remote,
        is_tag: tag,
        target: target.map(|s| s.to_string()),
        peeled: peeled.map(|s| s.to_string()),
    }
}

#[test]
fn ref_map_labels_head_tags_and_stashes() {
    let a = "a".repeat(40);
    let b = "b".repeat(40);
    let c = "c".repeat(40);
    let refs = vec![
        facts("refs/heads/main", Some("main"), true, false, false, Some(&a), None),
        facts("refs/heads/other", Some("other"), true, false, false, Some(&a), None),
        facts("refs/remotes/origin/main", Some("origin/main"), false, true, false, Some(&b), None),
        facts("refs/tags/v1", Some("v1"), false, false, true, Some(&c), Some(&b)),
        facts("refs/tags/light", None, false, false, true, Some(&a), None),
        facts("refs/notes/commits", Some("notes"), false, false, false, Some(&a), None),
        facts("HEAD", Some("HEAD"), false, false, false, None, None),
    ];
    let stashes = vec![(0usize, "On main: wip".to_string(), c.clone())];
    let map = trunk::repo_read::ref_map_from(&refs, &Some("refs/heads/main".to_string()), &stashes);
    let at_a = map.labels_for(&a);
    let names: Vec<&str> = at_a.iter().map(|l| l.short_name.as_str()).collect();
    assert_eq!(names, vec!["main", "other", "refs/tags/light"]);
    assert!(at_a[0].is_head && !at_a[1].is_head);
    let at_b = map.labels_for(&b);
    assert_eq!(at_b.len(), 2);
    assert_eq!(at_b[0].ref_type, RefType::RemoteBranch);
    assert_eq!(at_b[1].short_name, "v1");
    let at_c = map.labels_for(&c);
    assert_eq!(at_c.len(), 1);
    assert_eq!(at_c[0].ref_type, RefType::Stash);
    assert_eq!(at_c[0].short_name, "stash");
    assert_eq!(at_c[0].name, "On main: wip");
    assert_eq!(map.pairs.len(), 6);
}

#[test]
fn onto_names_prefer_the_first_local_branch() {
    let oid = "ab".repeat(20);
    let other = "cd".repeat(20);
    let t = |is_branch: bool, target: &str, short: &str| trunk::repo_read::BranchTarget {
        is_branch,
        target: Some(target.to_string()),
        shorthand: Some(short.to_string()),
    };
    let refs = vec![t(false, &oid, "origin/x"), t(true, &other, "y"), t(true, &oid, "z"), t(true, &oid, "w")];
    assert_eq!(trunk::repo_read::branch_or_short_oid(&refs, &oid).as_deref(), Some("z"));
    let no_branch = vec![t(false, &oid, "origin/x"), t(true, &other, "y")];
    assert_eq!(trunk::repo_read::branch_or_short_oid(&no_branch, &oid).as_deref(), Some("abababa"));
    // An abbreviated, uppercase oid names the same commit as its full text.
    let short_upper = "ABABAB";
    let padded = format!("ababab{}", "0".repeat(34));
    let at_padded = vec![t(true, &padded, "p")];
    assert_eq!(trunk::repo_read::branch_or_short_oid(&at_padded, short_upper).as_deref(), Some("p"));
}

#[test]
fn onto_text_is_trimmed_and_needs_listed_references() {
    let oid = "12".repeat(20);
    let refs: Result<Vec<BranchTarget>, git2::Error> =
        Ok(vec![BranchTarget { is_branch: true, target: Some(oid.clone()), shorthand: Some("main".to_string()) }]);
    assert_eq!(branch_for_oid_text(&oid, &refs).as_deref(), Some("main"));
    assert_eq!(branch_for_oid_text("not hex", &refs), None);
    let failed: Result<Vec<BranchTarget>, git2::Error> = Err(git2::Error::from_str("no refs"));
    assert_eq!(branch_for_oid_text(&oid, &failed), None);
}

#[test]
fn rebase_range_names_the_base_in_full() {
    assert_eq!(trunk::repo_read::todo_range("ABC"), format!("abc{}..HEAD", "0".repeat(37)));
    let full = "0123456789abcdef0123456789abcdef01234567";
    assert_eq!(trunk::repo_read::todo_range(full), format!("{}..HEAD", full));
}

#[test]
fn history_and_todo_follow_the_walk() {
    let row = |oid: char, summary: &str| trunk::repo_read::CommitFacts {
        oid: oid.to_string().repeat(40),
        parent_oids: Vec::new(),
        summary: Some(summary.to_string()),
        body: None,
        author_name: Some("Ann".to_string()),
        author_email: None,
        author_timestamp: 7,
    };
    let walk = vec![row('c', "third"), row('b', "second"), row('a', "first")];
    let graph = trunk::repo_read::lay_out_graph(&walk, &Vec::new(), &None, &trunk::repo_read::RefMap::new());
    let summaries: Vec<&str> = graph.commits.iter().map(|c| c.summary.as_str()).collect();
    assert_eq!(summaries, vec!["third", "second", "first"]);
    assert_eq!(graph.max_columns, 1);
    let todo = trunk::repo_read::todo_from(&walk);
    let summaries: Vec<&str> = todo.iter().map(|i| i.summary.as_str()).collect();
    assert_eq!(summaries, vec!["first", "second", "third"]);
    assert_eq!(todo[0].short_oid, "aaaaaaa");
}

#[test]
fn rebase_target_is_the_branch_at_the_trimmed_onto_oid() {
    let oid = "3c".repeat(20);
    let refs: Result<Vec<BranchTarget>, git2::Error> =
        Ok(vec![BranchTarget { is_branch: true, target: Some(oid.clone()), shorthand: Some("main".to_string()) }]);
    let mut reads = no_reads();
    reads.onto = Some(format!("{oid}\n"));
    reads.head_name = Some("refs/heads/topic\n".to_string());
    reads.msgnum = Some("2\n".to_string());
    reads.end = Some("5\n".to_string());
    let info = operation_from(RepoState::RebaseMerge, None, reads, &refs);
    assert_eq!(info.op_type, OperationType::Rebase);
    assert_eq!(info.target_branch.as_deref(), Some("main"));
    assert_eq!(info.source_branch.as_deref(), Some("topic"));
    assert_eq!(info.progress.as_deref(), Some("2/5"));
}

/// main: Initial commit, Main commit; feature: Feature commit, both editing
/// file.txt from the initial commit.
fn make_diverged_repo(dir: &Path) -> (git2::Repository, git2::Oid, git2::Oid) {
    let repo = init(dir);
    let base = commit_file(&repo, dir, "file.txt", "hello", "refs/heads/main", "Initial commit", &[]);
    let base = repo.find_commit(base).unwrap();
    let feat = commit_file(&repo, dir, "file.txt", "feature content", "refs/heads/feature", "Feature commit", &[&base]);
    let main = commit_file(&repo, dir, "file.txt", "main content", "refs/heads/main", "Main commit", &[&base]);
    drop(base);
    repo.set_head("refs/heads/main").unwrap();
    repo.checkout_head(Some(git2::build::CheckoutBuilder::new().force())).unwrap();
    (repo, main, feat)
}

#[test]
fn merge_in_progress_reports_merge_state() {
    let dir = tempfile::tempdir().unwrap();
    let (repo, _main, feat) = make_diverged_repo(dir.path());
    let theirs = repo.find_annotated_commit(feat).unwrap();
    repo.merge(&[&theirs], None, None).unwrap();
    let (path, reg) = registry_for(dir.path());
    let mut reads = no_reads();
    reads.merge_msg = Some("Merge branch 'feature'\n".to_string());
    let info = get_operation_state_inner(&path, reads, &reg).ok().unwrap();
    assert_eq!(info.op_type, OperationType::Merge);
    assert_eq!(info.source_branch.as_deref(), Some("feature"));
    assert_eq!(info.target_branch.as_deref(), Some("main"));
    assert!(info.progress.is_none());
}

#[test]
fn merge_abort_clears_merge_state() {
    let dir = tempfile::tempdir().unwrap();
    let (repo, _main, feat) = make_diverged_repo(dir.path());
    let theirs = repo.find_annotated_commit(feat).unwrap();
    repo.merge(&[&theirs], None, None).unwrap();
    let (path, reg) = registry_for(dir.path());
    let info = get_operation_state_inner(&path, no_reads(), &reg).ok().unwrap();
    assert_eq!(info.op_type, OperationType::Merge);
    repo.cleanup_state().unwrap();
    repo.checkout_head(Some(git2::build::CheckoutBuilder::new().force())).unwrap();
    let info = get_operation_state_inner(&path, no_reads(), &reg).ok().unwrap();
    assert_eq!(info.op_type, OperationType::Idle);
}

#[test]
fn rebase_in_progress_reports_rebase_state() {
    let dir = tempfile::tempdir().unwrap();
    let (repo, main, feat) = make_diverged_repo(dir.path());
    repo.set_head("refs/heads/feature").unwrap();
    repo.checkout_head(Some(git2::build::CheckoutBuilder::new().force())).unwrap();
    let upstream = repo.find_annotated_commit(main).unwrap();
    let mut rebase = repo.rebase(None, Some(&upstream), None, None).unwrap();
    let (path, reg) = registry_for(dir.path());
    let mut reads = no_reads();
    // What git writes in the rebase directory, each file ending in a newline.
    reads.head_name = Some("refs/heads/feature\n".to_string());
    reads.onto = Some(format!("{main}\n"));
    reads.msgnum = Some("1\n".to_string());
    reads.end = Some("1\n".to_string());
    let info = get_operation_state_inner(&path, reads, &reg).ok().unwrap();
    assert_eq!(info.op_type, OperationType::Rebase);
    assert_eq!(info.source_branch.as_deref(), Some("feature"));
    assert_eq!(info.target_branch.as_deref(), Some("main"));
    assert_eq!(info.progress.as_deref(), Some("1/1"));
    rebase.abort().unwrap();
    assert_ne!(feat, main);
}

#[test]
fn rebase_abort_clears_rebase_state() {
    let dir = tempfile::tempdir().unwrap();
    let (repo, main, _feat) = make_diverged_repo(dir.path());
    repo.set_head("refs/heads/feature").unwrap();
    repo.checkout_head(Some(git2::build::CheckoutBuilder::new().force())).unwrap();
    let upstream = repo.find_annotated_commit(main).unwrap();
    let mut rebase = repo.rebase(None, Some(&upstream), None, None).unwrap();
    let (path, reg) = registry_for(dir.path());
    assert_eq!(get_operation_state_inner(&path, no_reads(), &reg).ok().unwrap().op_type, OperationType::Rebase);
    rebase.abort().unwrap();
    let info = get_operation_state_inner(&path, no_reads(), &reg).ok().unwrap();
    assert_eq!(info.op_type, OperationType::Idle);
}

#[test]
fn get_fork_point_returns_merge_base() {
    let dir = tempfile::tempdir().unwrap();
    let repo = init(dir.path());
    let c0 = commit_file(&repo, dir.path(), "a.txt", "0", "refs/heads/main", "Initial", &[]);
    let c0c = repo.find_commit(c0).unwrap();
    let c1 = commit_file(&repo, dir.path(), "a.txt", "1", "refs/heads/main", "Second", &[&c0c]);
    let c1c = repo.find_commit(c1).unwrap();
    let head = commit_file(&repo, dir.path(), "a.txt", "2", "refs/heads/main", "Third", &[&c1c]);
    repo.set_head("refs/heads/main").unwrap();
    repo.branch("feature", &c0c, false).unwrap();
    // Trunk runs `git merge-base feature HEAD` and reads its output.
    let inv = trunk::cli::git_invocation(&trunk::cli::GitOp::ForkPoint { branch: "feature".to_string() });
    assert_eq!(inv.args, vec!["merge-base".to_string(), "feature".to_string(), "HEAD".to_string()]);
    let base = repo.merge_base(c0, head).unwrap();
    let result = trunk::cli::fork_point_from_output(&format!("{base}\n"));
    assert_eq!(result, c0.to_string(), "Fork point should be the initial commit (merge-base of feature and HEAD)");
}
