use std::io::Write;
use std::path::Path;
use trunk::history::{search_commits_inner, CommitCache, GraphCommit, GraphResult, MatchType, SearchResult};
use trunk::repo_read::build_ref_map;

fn write_file(dir: &Path, file: &str, content: &str) {
    let mut tmp = tempfile::NamedTempFile::new_in(dir).unwrap();
    tmp.write_all(content.as_bytes()).unwrap();
    tmp.persist(dir.join(file)).unwrap();
}

fn commit_file(repo: &git2::Repository, dir: &Path, file: &str, content: &str, update: &str, msg: &str, parents: &[&git2::Commit]) -> git2::Oid {
    write_file(dir, file, content);
    let mut index = repo.index().unwrap();
    index.add_path(Path::new(file)).unwrap();
    index.write().unwrap();
    let tree = repo.find_tree(index.write_tree().unwrap()).unwrap();
    let sig = git2::Signature::now("Test User", "test@example.com").unwrap();
    repo.commit(Some(update), &sig, &sig, msg, &tree, parents).unwrap()
}

/// main: Initial commit -> merge (with `merge_message`) of a Feature commit on `feature`.
fn make_repo(merge_message: &str) -> tempfile::TempDir {
    let dir = tempfile::tempdir().unwrap();
    let repo = git2::Repository::init(dir.path()).unwrap();
    let mut cfg = repo.config().unwrap();
    cfg.set_str("user.name", "Test User").unwrap();
    cfg.set_str("user.email", "test@example.com").unwrap();
    drop(cfg);
    let base = commit_file(&repo, dir.path(), "README.md", "hello", "refs/heads/main", "Initial commit", &[]);
    repo.set_head("refs/heads/main").unwrap();
    let base = repo.find_commit(base).unwrap();
    let feat = commit_file(&repo, dir.path(), "feature.txt", "feature work", "refs/heads/feature", "Feature commit", &[&base]);
    let feat = repo.find_commit(feat).unwrap();
    commit_file(&repo, dir.path(), "merged.txt", "merged", "refs/heads/main", merge_message, &[&base, &feat]);
    dir
}

/// The walked graph of a repository: commits newest first with their ref labels.
fn graph_of(dir: &Path) -> GraphResult {
    let mut repo = git2::Repository::open(dir).unwrap();
    let refs = build_ref_map(&mut repo);
    let mut walk = repo.revwalk().unwrap();
    walk.set_sorting(git2::Sort::TOPOLOGICAL | git2::Sort::TIME).unwrap();
    walk.push_head().unwrap();
    let mut commits = Vec::new();
    for oid in walk {
        let oid = oid.unwrap();
        let c = repo.find_commit(oid).unwrap();
        let text = oid.to_string();
        let parent_oids: Vec<String> = c.parent_ids().map(|p| p.to_string()).collect();
        let is_merge = parent_oids.len() > 1;
        commits.push(GraphCommit {
            short_oid: text[..7].to_string(),
            summary: c.summary().ok().flatten().unwrap_or("").to_string(),
            body: c.body().ok().flatten().map(|b| b.to_string()),
            author_name: c.author().name().ok().unwrap_or("").to_string(),
            author_email: c.author().email().ok().unwrap_or("").to_string(),
            author_timestamp: c.time().seconds(),
            parent_oids,
            refs: refs.labels_for(&text),
            column: 0,
            color_index: 0,
            is_merge,
            is_stash: false,
            is_branch_tip: false,
            edges: Vec::new(),
            oid: text,
        });
    }
    GraphResult { commits, max_columns: 1 }
}

struct Ctx {
    _dir: tempfile::TempDir,
    path: String,
    cache: CommitCache,
}

impl Ctx {
    fn new(merge_message: &str) -> Ctx {
        let dir = make_repo(merge_message);
        let path = dir.path().to_string_lossy().to_string();
        let mut cache = CommitCache::new();
        cache.insert(path.clone(), graph_of(dir.path()));
        Ctx { _dir: dir, path, cache }
    }
    fn commits(&self) -> &Vec<GraphCommit> {
        &self.cache.get(&self.path).unwrap().commits
    }
    fn search(&self, q: &str) -> Vec<SearchResult> {
        search_commits_inner(&self.path, q, &self.cache).ok().unwrap()
    }
}

fn any_has(results: &[SearchResult], t: MatchType) -> bool {
    results.iter().any(|r| r.match_types.contains(&t))
}

fn check_empty_query(ctx: &Ctx) {
    assert!(ctx.search("").is_empty());
}

fn check_whitespace_query(ctx: &Ctx) {
    assert!(ctx.search("   ").is_empty());
}

fn check_sha_prefix(ctx: &Ctx) {
    let prefix = ctx.commits()[0].oid[..6].to_string();
    let results = ctx.search(&prefix);
    assert!(!results.is_empty(), "expected at least one SHA match");
    assert!(results[0].match_types.contains(&MatchType::Sha));
}

fn check_sha_case_insensitive(ctx: &Ctx) {
    let prefix = ctx.commits()[0].oid[..6].to_uppercase();
    let results = ctx.search(&prefix);
    assert!(!results.is_empty(), "expected case-insensitive SHA match");
    assert!(results[0].match_types.contains(&MatchType::Sha));
}

fn check_message_summary(ctx: &Ctx) {
    let results = ctx.search("Initial");
    assert!(!results.is_empty(), "expected message match for 'Initial'");
    assert!(any_has(&results, MatchType::Message));
}

fn check_message_body_none(ctx: &Ctx) {
    let results = ctx.search("feature commit");
    assert!(!results.is_empty(), "expected match on 'feature commit'");
}

fn check_message_case_insensitive(ctx: &Ctx) {
    let results = ctx.search("FEATURE");
    assert!(!results.is_empty(), "expected case-insensitive message match for 'FEATURE'");
    assert!(any_has(&results, MatchType::Message));
}

fn check_ref(ctx: &Ctx) {
    assert!(any_has(&ctx.search("feature"), MatchType::Ref), "expected ref match for 'feature'");
}

fn check_ref_case_insensitive(ctx: &Ctx) {
    assert!(any_has(&ctx.search("MAIN"), MatchType::Ref), "expected case-insensitive ref match for 'MAIN'");
}

fn check_author(ctx: &Ctx) {
    assert!(any_has(&ctx.search("Test"), MatchType::Author), "expected author match for 'Test'");
}

fn check_author_case_insensitive(ctx: &Ctx) {
    assert!(any_has(&ctx.search("test"), MatchType::Author), "expected case-insensitive author match for 'test'");
}

fn check_no_match(ctx: &Ctx) {
    assert!(ctx.search("zzzznonexistent").is_empty(), "expected no matches for 'zzzznonexistent'");
}

fn check_graph_order(ctx: &Ctx) {
    let results = ctx.search("test");
    assert!(results.len() >= 2, "expected at least 2 results");
    let graph_oids: Vec<&str> = ctx.commits().iter().map(|c| c.oid.as_str()).collect();
    let mut last_idx = 0;
    for r in &results {
        let idx = graph_oids.iter().position(|g| *g == r.oid.as_str()).expect("result oid not in graph");
        assert!(idx >= last_idx, "results not in graph order");
        last_idx = idx;
    }
}

const MAKE_REPO_MERGE: &str = "Merge feature into main";
const BUILDER_MERGE: &str = "Merge branch 'feature'";

#[test]
fn history_empty_query_returns_empty() {
    check_empty_query(&Ctx::new(MAKE_REPO_MERGE));
}

#[test]
fn history_whitespace_query_returns_empty() {
    check_whitespace_query(&Ctx::new(MAKE_REPO_MERGE));
}

#[test]
fn history_sha_prefix_match() {
    check_sha_prefix(&Ctx::new(MAKE_REPO_MERGE));
}

#[test]
fn history_sha_match_case_insensitive() {
    check_sha_case_insensitive(&Ctx::new(MAKE_REPO_MERGE));
}

#[test]
fn history_message_summary_match() {
    check_message_summary(&Ctx::new(MAKE_REPO_MERGE));
}

#[test]
fn history_message_match_case_insensitive() {
    check_message_case_insensitive(&Ctx::new(MAKE_REPO_MERGE));
}

#[test]
fn history_ref_match() {
    check_ref(&Ctx::new(MAKE_REPO_MERGE));
}

#[test]
fn history_ref_match_case_insensitive() {
    check_ref_case_insensitive(&Ctx::new(MAKE_REPO_MERGE));
}

#[test]
fn history_author_match() {
    check_author(&Ctx::new(MAKE_REPO_MERGE));
}

#[test]
fn history_author_match_case_insensitive() {
    check_author_case_insensitive(&Ctx::new(MAKE_REPO_MERGE));
}

#[test]
fn history_no_match_returns_empty() {
    check_no_match(&Ctx::new(MAKE_REPO_MERGE));
}

#[test]
fn history_results_in_graph_order() {
    check_graph_order(&Ctx::new(MAKE_REPO_MERGE));
}

#[test]
fn message_body_match() {
    check_message_body_none(&Ctx::new(MAKE_REPO_MERGE));
}

#[test]
fn history_multi_field_match() {
    let ctx = Ctx::new(MAKE_REPO_MERGE);
    let results = ctx.search("main");
    let multi = results
        .iter()
        .find(|r| r.match_types.contains(&MatchType::Ref) && r.match_types.contains(&MatchType::Message));
    assert!(multi.is_some(), "expected a result with both Ref and Message match for 'main'");
}

#[test]
fn test_history_empty_query_returns_empty() {
    check_empty_query(&Ctx::new(BUILDER_MERGE));
}

#[test]
fn test_history_whitespace_query_returns_empty() {
    check_whitespace_query(&Ctx::new(BUILDER_MERGE));
}

#[test]
fn test_history_sha_prefix_match() {
    check_sha_prefix(&Ctx::new(BUILDER_MERGE));
}

#[test]
fn test_history_sha_match_case_insensitive() {
    check_sha_case_insensitive(&Ctx::new(BUILDER_MERGE));
}

#[test]
fn test_history_message_summary_match() {
    check_message_summary(&Ctx::new(BUILDER_MERGE));
}

#[test]
fn test_history_message_match_case_insensitive() {
    check_message_case_insensitive(&Ctx::new(BUILDER_MERGE));
}

#[test]
fn test_history_ref_match() {
    check_ref(&Ctx::new(BUILDER_MERGE));
}

#[test]
fn test_history_ref_match_case_insensitive() {
    check_ref_case_insensitive(&Ctx::new(BUILDER_MERGE));
}

#[test]
fn test_history_author_match() {
    check_author(&Ctx::new(BUILDER_MERGE));
}

#[test]
fn test_history_author_match_case_insensitive() {
    check_author_case_insensitive(&Ctx::new(BUILDER_MERGE));
}

#[test]
fn test_history_no_match_returns_empty() {
    check_no_match(&Ctx::new(BUILDER_MERGE));
}

#[test]
fn test_history_results_in_graph_order() {
    check_graph_order(&Ctx::new(BUILDER_MERGE));
}

#[test]
fn message_body_none_does_not_crash() {
    check_message_body_none(&Ctx::new(BUILDER_MERGE));
}

#[test]
fn test_history_multi_field_match() {
    let ctx = Ctx::new(BUILDER_MERGE);
    let results = ctx.search("main");
    assert!(any_has(&results, MatchType::Ref), "expected at least a ref match for 'main'");
}

#[test]
fn search_reports_each_field_it_matched() {
    let ctx = Ctx::new(MAKE_REPO_MERGE);
    let merge = &ctx.commits()[0];
    assert!(merge.is_merge);
    let results = ctx.search("  MAIN ");
    assert_eq!(results[0].oid, merge.oid);
    assert_eq!(results[0].match_types, vec![MatchType::Message, MatchType::Ref]);
    let all = ctx.search("test user");
    assert_eq!(all.len(), 3);
    for r in &all {
        assert_eq!(r.match_types, vec![MatchType::Author]);
    }
}

#[test]
fn search_on_unopened_path_is_not_open() {
    let cache = CommitCache::new();
    let err = search_commits_inner("/nowhere", "x", &cache).err().unwrap();
    assert_eq!(err.code, "not_open");
    assert_eq!(err.message, "Repository not open: /nowhere");
}
