use std::io::Write;
use std::path::Path;
use trunk::graph::EdgeType;
use trunk::history::{graph_page, GraphCommit, GraphResult};
use trunk::repo_read::list_history;

fn write_file(dir: &Path, file: &str, content: &str) {
    let mut tmp = tempfile::NamedTempFile::new_in(dir).unwrap();
    tmp.write_all(content.as_bytes()).unwrap();
    tmp.persist(dir.join(file)).unwrap();
}

fn init(dir: &Path) -> git2::Repository {
    let repo = git2::Repository::init(dir).unwrap();
    let mut cfg = repo.config().unwrap();
    cfg.set_str("user.name", "T").unwrap();
    cfg.set_str("user.email", "t@t.com").unwrap();
    repo
}

fn raw_commit(repo: &git2::Repository, refname: &str, msg: &str, file: &str, content: &str, parents: &[&git2::Commit]) -> git2::Oid {
    let dir = repo.workdir().unwrap().to_path_buf();
    write_file(&dir, file, content);
    let mut idx = repo.index().unwrap();
    idx.add_path(Path::new(file)).unwrap();
    idx.write().unwrap();
    let tree = repo.find_tree(idx.write_tree().unwrap()).unwrap();
    let sig = git2::Signature::now("T", "t@t.com").unwrap();
    repo.commit(Some(refname), &sig, &sig, msg, &tree, parents).unwrap()
}

fn history(dir: &Path) -> GraphResult {
    let mut repo = git2::Repository::open(dir).unwrap();
    list_history(&mut repo).ok().unwrap()
}

fn by_summary<'a>(commits: &'a [GraphCommit], s: &str) -> &'a GraphCommit {
    commits.iter().find(|c| c.summary == s).unwrap_or_else(|| panic!("{} not found", s))
}

fn has(c: &GraphCommit, t: EdgeType, from: usize, to: usize) -> bool {
    c.edges.iter().any(|e| e.edge_type == t && e.from_column == from && e.to_column == to)
}

/// main: Initial commit; feature: Feature commit; main: a merge of both.
fn make_merge_test_repo() -> tempfile::TempDir {
    let dir = tempfile::tempdir().unwrap();
    let repo = init(dir.path());
    let c0 = raw_commit(&repo, "refs/heads/main", "Initial commit", "README.md", "hello", &[]);
    let c0 = repo.find_commit(c0).unwrap();
    let f = raw_commit(&repo, "refs/heads/feature", "Feature commit", "feature.txt", "feature work", &[&c0]);
    let f = repo.find_commit(f).unwrap();
    raw_commit(&repo, "refs/heads/main", "Merge branch 'feature'", "merge.txt", "merge", &[&c0, &f]);
    repo.set_head("refs/heads/main").unwrap();
    dir
}

/// main: C0 <- C1 and feature: C0 <- F1, merged into main as M.
fn make_merge_repo() -> tempfile::TempDir {
    let dir = tempfile::tempdir().unwrap();
    let repo = init(dir.path());
    let c0 = raw_commit(&repo, "refs/heads/main", "C0", "f0.txt", "f0", &[]);
    let c0 = repo.find_commit(c0).unwrap();
    let c1 = raw_commit(&repo, "refs/heads/main", "C1", "f1.txt", "f1", &[&c0]);
    let f1 = raw_commit(&repo, "refs/heads/feature", "F1", "feat.txt", "feat", &[&c0]);
    let c1 = repo.find_commit(c1).unwrap();
    let f1 = repo.find_commit(f1).unwrap();
    raw_commit(&repo, "refs/heads/main", "M", "merge.txt", "merge", &[&c1, &f1]);
    repo.set_head("refs/heads/main").unwrap();
    dir
}

fn make_linear_repo(n: usize) -> tempfile::TempDir {
    let dir = tempfile::tempdir().unwrap();
    let repo = init(dir.path());
    let sig = git2::Signature::now("T", "t@t.com").unwrap();
    let tree_oid = repo.index().unwrap().write_tree().unwrap();
    let tree = repo.find_tree(tree_oid).unwrap();
    let mut parent: Option<git2::Oid> = None;
    for i in 0..n {
        let p = parent.map(|o| repo.find_commit(o).unwrap());
        let parents: Vec<&git2::Commit> = p.iter().collect();
        let oid = repo.commit(Some("refs/heads/main"), &sig, &sig, &format!("Commit {}", i), &tree, &parents).unwrap();
        parent = Some(oid);
    }
    repo.set_head("refs/heads/main").unwrap();
    dir
}

fn stash_dirty(repo: &mut git2::Repository, file: &str, msg: &str) -> git2::Oid {
    let dir = repo.workdir().unwrap().to_path_buf();
    write_file(&dir, file, "dirty");
    let mut idx = repo.index().unwrap();
    idx.add_path(Path::new(file)).unwrap();
    idx.write().unwrap();
    let sig = git2::Signature::now("T", "t@t.com").unwrap();
    repo.stash_save(&sig, msg, None).unwrap()
}

#[test]
fn linear_topology() {
    let dir = tempfile::tempdir().unwrap();
    let repo = init(dir.path());
    let c0 = raw_commit(&repo, "refs/heads/main", "C0", "f0.txt", "f0", &[]);
    let c0 = repo.find_commit(c0).unwrap();
    let c1 = raw_commit(&repo, "refs/heads/main", "C1", "f1.txt", "f1", &[&c0]);
    let c1 = repo.find_commit(c1).unwrap();
    raw_commit(&repo, "refs/heads/main", "C2", "f2.txt", "f2", &[&c1]);
    repo.set_head("refs/heads/main").unwrap();
    let commits = history(dir.path()).commits;
    assert_eq!(commits.len(), 3);
    for c in &commits {
        assert_eq!(c.column, 0, "expected all commits at column 0");
        assert!(c.edges.iter().all(|e| e.edge_type == EdgeType::Straight), "unexpected non-straight edge");
    }
    for c in &commits[..commits.len() - 1] {
        assert!(has(c, EdgeType::Straight, c.column, c.column), "commit {} missing first-parent Straight edge", c.short_oid);
    }
    let root = commits.last().unwrap();
    assert!(!has(root, EdgeType::Straight, root.column, root.column), "root commit should not have self-straight edge");
}

#[test]
fn merge_commit_edges() {
    let dir = make_merge_test_repo();
    let commits = history(dir.path()).commits;
    let merge = commits.iter().find(|c| c.is_merge).expect("no merge commit found");
    assert!(merge.edges.iter().any(|e| matches!(e.edge_type, EdgeType::MergeLeft | EdgeType::MergeRight)));
}

#[test]
fn is_merge_flag() {
    let dir = make_merge_test_repo();
    let commits = history(dir.path()).commits;
    assert_eq!(commits.iter().filter(|c| c.is_merge).count(), 1, "expected exactly 1 merge commit");
    assert_eq!(commits.iter().filter(|c| !c.is_merge).count(), 2, "expected 2 non-merge commits");
}

#[test]
fn walk_first_batch() {
    let dir = make_linear_repo(300);
    let graph = history(dir.path());
    assert_eq!(graph_page(&graph, 0).commits.len(), 200);
}

#[test]
fn walk_second_batch() {
    let dir = make_linear_repo(300);
    let graph = history(dir.path());
    let first = graph_page(&graph, 0).commits;
    let second = graph_page(&graph, 200).commits;
    assert!(!second.is_empty(), "second batch should not be empty");
    assert!(second.len() <= 200);
    assert_ne!(first[0].oid, second[0].oid);
}

#[test]
fn merge_has_first_parent_straight() {
    let dir = make_merge_test_repo();
    let commits = history(dir.path()).commits;
    let merge = commits.iter().find(|c| c.is_merge).expect("no merge commit");
    assert!(merge.edges.iter().any(|e| e.edge_type == EdgeType::Straight && e.from_column == merge.column));
}

#[test]
fn branch_fork_topology() {
    let dir = tempfile::tempdir().unwrap();
    let repo = init(dir.path());
    let c0 = raw_commit(&repo, "refs/heads/main", "C0", "f0.txt", "f0", &[]);
    let c0c = repo.find_commit(c0).unwrap();
    let c1 = raw_commit(&repo, "refs/heads/main", "C1", "f1.txt", "f1", &[&c0c]);
    let c1c = repo.find_commit(c1).unwrap();
    raw_commit(&repo, "refs/heads/main", "C2", "f2.txt", "f2", &[&c1c]);
    repo.set_head("refs/heads/main").unwrap();
    raw_commit(&repo, "refs/heads/topic", "B0", "b0.txt", "b0", &[&c1c]);
    let commits = history(dir.path()).commits;
    let c2 = by_summary(&commits, "C2");
    let c1f = by_summary(&commits, "C1");
    let c0f = by_summary(&commits, "C0");
    let b0 = by_summary(&commits, "B0");
    assert_eq!(c2.column, 0);
    assert_eq!(c1f.column, 0);
    assert_eq!(c0f.column, 0);
    assert!(b0.column > 0, "B0 should be at column > 0, got {}", b0.column);
    assert!(has(b0, EdgeType::Straight, b0.column, b0.column));
    assert!(!b0.edges.iter().any(|e| matches!(e.edge_type, EdgeType::ForkLeft | EdgeType::ForkRight)));
    assert!(has(c1f, EdgeType::ForkRight, c1f.column, b0.column), "C1 should fork right to B0's column");
}

#[test]
fn no_ghost_lanes_after_merge() {
    let dir = make_merge_repo();
    let commits = history(dir.path()).commits;
    let feature_col = by_summary(&commits, "F1").column;
    let c0 = by_summary(&commits, "C0");
    assert!(!has(c0, EdgeType::Straight, feature_col, feature_col), "ghost lane at column {}", feature_col);
    assert!(feature_col > 0);
}

#[test]
fn no_ghost_lanes_criss_cross() {
    let dir = tempfile::tempdir().unwrap();
    let repo = init(dir.path());
    let root = raw_commit(&repo, "refs/heads/main", "Root", "root.txt", "root", &[]);
    let root_c = repo.find_commit(root).unwrap();
    let a1 = raw_commit(&repo, "refs/heads/main", "A1", "a1.txt", "a1", &[&root_c]);
    let a1_c = repo.find_commit(a1).unwrap();
    let b1 = raw_commit(&repo, "refs/heads/branch-b", "B1", "b1.txt", "b1", &[&root_c]);
    let b1_c = repo.find_commit(b1).unwrap();
    raw_commit(&repo, "refs/heads/main", "Merge-AB", "merge_ab.txt", "merge_ab", &[&a1_c, &b1_c]);
    repo.set_head("refs/heads/main").unwrap();
    let commits = history(dir.path()).commits;
    let b1_col = by_summary(&commits, "B1").column;
    let root_found = by_summary(&commits, "Root");
    assert!(!has(root_found, EdgeType::Straight, b1_col, b1_col), "ghost lane at column {}", b1_col);
}

fn make_octopus(branches: &[&str]) -> tempfile::TempDir {
    let dir = tempfile::tempdir().unwrap();
    let repo = init(dir.path());
    let root = raw_commit(&repo, "refs/heads/main", "Root", "root.txt", "root", &[]);
    let root_c = repo.find_commit(root).unwrap();
    let main1 = raw_commit(&repo, "refs/heads/main", "Main-1", "main1.txt", "main1", &[&root_c]);
    let mut parents = vec![repo.find_commit(main1).unwrap()];
    for b in branches {
        let oid = raw_commit(&repo, &format!("refs/heads/branch-{}", b), &format!("B{}", b.to_uppercase()), &format!("{}.txt", b), b, &[&root_c]);
        parents.push(repo.find_commit(oid).unwrap());
    }
    let refs: Vec<&git2::Commit> = parents.iter().collect();
    raw_commit(&repo, "refs/heads/main", "Octopus", "octopus.txt", "octopus", &refs);
    repo.set_head("refs/heads/main").unwrap();
    dir
}

#[test]
fn octopus_merge_compact() {
    let dir = make_octopus(&["a", "b", "c"]);
    let result = history(dir.path());
    assert!(result.max_columns <= 5, "octopus merge max_columns {} exceeds 5", result.max_columns);
}

#[test]
fn octopus_no_column_zero_theft() {
    let dir = make_octopus(&["a", "b"]);
    let commits = history(dir.path()).commits;
    let octopus = by_summary(&commits, "Octopus");
    for parent_oid in octopus.parent_oids.iter().skip(1) {
        if let Some(p) = commits.iter().find(|c| &c.oid == parent_oid) {
            assert_ne!(p.column, 0, "secondary parent {} at column 0", p.summary);
        }
    }
}

#[test]
fn consistent_max_columns() {
    let dir = make_merge_test_repo();
    let result = history(dir.path());
    assert!(result.max_columns > 0);
    for c in &result.commits {
        assert!(c.column < result.max_columns, "commit {} at column {} >= {}", c.short_oid, c.column, result.max_columns);
    }
}

#[test]
fn max_columns_pagination() {
    let dir = make_linear_repo(300);
    let full = history(dir.path());
    let page1 = graph_page(&full, 0);
    let page2 = graph_page(&full, 100);
    assert_eq!(full.max_columns, page1.max_columns);
    assert_eq!(full.max_columns, page2.max_columns);
}

#[test]
fn freed_column_reuse() {
    let dir = tempfile::tempdir().unwrap();
    let repo = init(dir.path());
    let root = raw_commit(&repo, "refs/heads/main", "Root", "root.txt", "root", &[]);
    let root_c = repo.find_commit(root).unwrap();
    let main1 = raw_commit(&repo, "refs/heads/main", "Main-1", "main1.txt", "main1", &[&root_c]);
    let main1_c = repo.find_commit(main1).unwrap();
    let ba = raw_commit(&repo, "refs/heads/branch-a", "BranchA", "a.txt", "a", &[&root_c]);
    let ba_c = repo.find_commit(ba).unwrap();
    let merge_a = raw_commit(&repo, "refs/heads/main", "Merge-A", "merge_a.txt", "merge_a", &[&main1_c, &ba_c]);
    let merge_a_c = repo.find_commit(merge_a).unwrap();
    let main2 = raw_commit(&repo, "refs/heads/main", "Main-2", "main2.txt", "main2", &[&merge_a_c]);
    let main2_c = repo.find_commit(main2).unwrap();
    raw_commit(&repo, "refs/heads/branch-b", "BranchB", "b.txt", "b", &[&main2_c]);
    repo.set_head("refs/heads/main").unwrap();
    let commits = history(dir.path()).commits;
    let branch_a = by_summary(&commits, "BranchA");
    let branch_b = by_summary(&commits, "BranchB");
    assert!(branch_a.column > 0);
    assert!(branch_b.column > 0);
    assert_eq!(branch_a.column, branch_b.column, "BranchB should reuse BranchA's freed column");
}

#[test]
fn color_index_deterministic() {
    let dir = make_merge_test_repo();
    let r1 = history(dir.path());
    let r2 = history(dir.path());
    assert_eq!(r1.commits.len(), r2.commits.len());
    for (c1, c2) in r1.commits.iter().zip(r2.commits.iter()) {
        assert_eq!(c1.color_index, c2.color_index);
        assert_eq!(c1.edges.len(), c2.edges.len());
        for (e1, e2) in c1.edges.iter().zip(c2.edges.iter()) {
            assert_eq!(e1.color_index, e2.color_index);
        }
    }
}

#[test]
fn color_index_head_zero() {
    let dir = make_merge_test_repo();
    let repo = git2::Repository::open(dir.path()).unwrap();
    let head_oid = repo.head().unwrap().peel_to_commit().unwrap().id().to_string();
    let commits = history(dir.path()).commits;
    let head = commits.iter().find(|c| c.oid == head_oid).expect("no HEAD commit");
    assert_eq!(head.color_index, 0);
    for c in commits.iter().filter(|c| c.column == 0) {
        assert_eq!(c.color_index, 0, "HEAD chain commit {} should have color_index 0", c.short_oid);
    }
}

#[test]
fn ref_label_color_index() {
    let dir = make_merge_test_repo();
    let result = history(dir.path());
    for commit in &result.commits {
        for r in &commit.refs {
            assert_eq!(r.color_index, commit.color_index, "ref '{}' color differs from its commit's", r.short_name);
        }
    }
    assert!(result.commits.iter().filter(|c| !c.refs.is_empty()).count() > 0);
}

#[test]
fn ref_label_no_refs_no_panic() {
    let dir = make_merge_test_repo();
    let result = history(dir.path());
    let no_refs = result.commits.iter().find(|c| c.refs.is_empty());
    assert!(no_refs.is_some(), "expected at least one commit without refs");
    assert!(no_refs.unwrap().refs.is_empty());
}

fn make_stash_on_head_tip() -> tempfile::TempDir {
    let dir = tempfile::tempdir().unwrap();
    {
        let repo = init(dir.path());
        let c0 = raw_commit(&repo, "refs/heads/main", "C0", "f0.txt", "f0", &[]);
        let c0 = repo.find_commit(c0).unwrap();
        let c1 = raw_commit(&repo, "refs/heads/main", "C1", "f1.txt", "f1", &[&c0]);
        let c1 = repo.find_commit(c1).unwrap();
        raw_commit(&repo, "refs/heads/main", "C2", "f2.txt", "f2", &[&c1]);
        repo.set_head("refs/heads/main").unwrap();
    }
    let mut repo = git2::Repository::open(dir.path()).unwrap();
    stash_dirty(&mut repo, "s.txt", "test stash");
    dir
}

#[test]
fn stash_branches_right_on_head_tip() {
    let dir = make_stash_on_head_tip();
    let commits = history(dir.path()).commits;
    let stash = commits.iter().find(|c| c.is_stash).expect("no stash commit found");
    assert!(stash.is_branch_tip, "stash should be a branch tip");
    assert!(!stash.is_merge, "stash should NOT be a merge");
    assert_eq!(stash.parent_oids.len(), 1);
    let parent = commits.iter().find(|c| c.oid == stash.parent_oids[0]).expect("stash parent not found");
    assert_eq!(parent.column, 0, "stash parent should be on the HEAD lane");
    assert!(stash.column > parent.column);
    assert_ne!(stash.color_index, parent.color_index);
    let stash_straight = stash
        .edges
        .iter()
        .find(|e| e.edge_type == EdgeType::Straight && e.from_column == stash.column && e.to_column == stash.column);
    assert!(stash_straight.is_some() && stash_straight.unwrap().dashed, "stash Straight edge should be dashed");
    let parent_fork = parent.edges.iter().find(|e| e.edge_type == EdgeType::ForkRight && e.to_column == stash.column);
    assert!(parent_fork.is_some() && parent_fork.unwrap().dashed, "parent's ForkRight to the stash should be dashed");
    let own = parent
        .edges
        .iter()
        .find(|e| e.edge_type == EdgeType::Straight && e.from_column == parent.column && e.to_column == parent.column);
    assert!(own.is_some() && !own.unwrap().dashed);
    let c1 = by_summary(&commits, "C1");
    for e in &c1.edges {
        assert_eq!(e.from_column, 0, "C1 should only have edges at column 0");
    }
}

#[test]
fn multiple_stashes_on_same_parent() {
    let dir = tempfile::tempdir().unwrap();
    {
        let repo = init(dir.path());
        let c0 = raw_commit(&repo, "refs/heads/main", "C0", "f0.txt", "f0", &[]);
        let c0 = repo.find_commit(c0).unwrap();
        raw_commit(&repo, "refs/heads/main", "C1", "f1.txt", "f1", &[&c0]);
        repo.set_head("refs/heads/main").unwrap();
    }
    let mut repo = git2::Repository::open(dir.path()).unwrap();
    stash_dirty(&mut repo, "s1.txt", "stash-1");
    stash_dirty(&mut repo, "s2.txt", "stash-2");
    let commits = list_history(&mut repo).ok().unwrap().commits;
    let stashes: Vec<_> = commits.iter().filter(|c| c.is_stash).collect();
    assert_eq!(stashes.len(), 2);
    let c1 = by_summary(&commits, "C1");
    assert!(stashes.iter().all(|s| s.is_branch_tip));
    assert_eq!(stashes.iter().filter(|s| s.column == c1.column).count(), 0);
    assert_eq!(stashes.iter().filter(|s| s.column > c1.column).count(), 2);
    assert_ne!(stashes[0].column, stashes[1].column);
    assert_eq!(c1.edges.iter().filter(|e| e.edge_type == EdgeType::ForkRight).count(), 2);
    assert_eq!(c1.edges.iter().filter(|e| e.edge_type == EdgeType::ForkRight && e.dashed).count(), 2);
}

#[test]
fn stash_branches_right_when_head_chain_occupies_lane() {
    let dir = tempfile::tempdir().unwrap();
    let c1;
    {
        let repo = init(dir.path());
        let c0 = raw_commit(&repo, "refs/heads/main", "C0", "f0.txt", "f0", &[]);
        let c0c = repo.find_commit(c0).unwrap();
        c1 = raw_commit(&repo, "refs/heads/main", "C1", "f1.txt", "f1", &[&c0c]);
        let c1c = repo.find_commit(c1).unwrap();
        raw_commit(&repo, "refs/heads/main", "C2", "f2.txt", "f2", &[&c1c]);
        repo.set_head("refs/heads/main").unwrap();
        repo.checkout_head(Some(git2::build::CheckoutBuilder::new().force())).unwrap();
        repo.set_head_detached(c1).unwrap();
        repo.checkout_head(Some(git2::build::CheckoutBuilder::new().force())).unwrap();
    }
    let mut repo = git2::Repository::open(dir.path()).unwrap();
    let stash_oid = stash_dirty(&mut repo, "dirty.txt", "test stash on C1");
    repo.set_head("refs/heads/main").unwrap();
    let commits = list_history(&mut repo).ok().unwrap().commits;
    let c1_row = by_summary(&commits, "C1");
    let stash = commits.iter().find(|c| c.oid == stash_oid.to_string()).expect("stash not found");
    assert!(stash.column > c1_row.column);
    assert_eq!(c1_row.edges.iter().filter(|e| e.edge_type == EdgeType::ForkRight).count(), 1);
    assert_eq!(c1_row.oid, c1.to_string());
}

#[test]
fn stash_branches_right_with_topic_branch() {
    let dir = tempfile::tempdir().unwrap();
    {
        let repo = init(dir.path());
        let c0 = raw_commit(&repo, "refs/heads/main", "C0", "f0.txt", "f0", &[]);
        let c0c = repo.find_commit(c0).unwrap();
        raw_commit(&repo, "refs/heads/main", "C1", "f1.txt", "f1", &[&c0c]);
        repo.set_head("refs/heads/main").unwrap();
        raw_commit(&repo, "refs/heads/topic", "Topic", "topic.txt", "topic", &[&c0c]);
    }
    let mut repo = git2::Repository::open(dir.path()).unwrap();
    stash_dirty(&mut repo, "dirty.txt", "test stash");
    let commits = list_history(&mut repo).ok().unwrap().commits;
    let c1 = by_summary(&commits, "C1");
    let stash = commits.iter().find(|c| c.is_stash).expect("no stash found");
    assert!(stash.column > c1.column);
    let fork = c1.edges.iter().find(|e| e.edge_type == EdgeType::ForkRight && e.to_column == stash.column);
    assert!(fork.is_some() && fork.unwrap().dashed);
}

#[test]
fn commits_below_a_child_are_not_branch_tips() {
    let dir = make_merge_test_repo();
    let commits = history(dir.path()).commits;
    let tips: Vec<&str> = commits.iter().filter(|c| c.is_branch_tip).map(|c| c.summary.as_str()).collect();
    assert_eq!(tips, vec!["Merge branch 'feature'"]);
}
