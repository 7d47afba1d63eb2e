use std::io::Write;
use std::path::Path;
use trunk::graph::{lay_out_lanes, EdgeType, GraphNode, RowLayout};

fn node(oid: &str, parents: &[&str]) -> GraphNode {
    GraphNode { oid: oid.to_string(), parents: parents.iter().map(|p| p.to_string()).collect(), is_stash: false }
}

fn stash(oid: &str, parent: &str) -> GraphNode {
    GraphNode { oid: oid.to_string(), parents: vec![parent.to_string()], is_stash: true }
}

fn cols(rows: &[RowLayout]) -> Vec<usize> {
    rows.iter().map(|r| r.column).collect()
}

fn has_edge(row: &RowLayout, t: EdgeType, from: usize, to: usize) -> bool {
    row.edges.iter().any(|e| e.edge_type == t && e.from_column == from && e.to_column == to)
}

#[test]
fn linear_history_stays_in_column_zero() {
    let nodes = vec![node("c2", &["c1"]), node("c1", &["c0"]), node("c0", &[])];
    let (rows, width) = lay_out_lanes(&nodes, &Some("c2".to_string()));
    assert_eq!(cols(&rows), vec![0, 0, 0]);
    assert_eq!(width, 1);
    assert!(has_edge(&rows[0], EdgeType::Straight, 0, 0));
    assert!(has_edge(&rows[1], EdgeType::Straight, 0, 0));
    assert!(rows[2].edges.is_empty(), "the root draws no line down");
}

#[test]
fn a_topic_branch_forks_right_of_head() {
    // main: c0 <- c1 <- c2 (HEAD); topic: c1 <- b0, b0 newer than c2.
    let nodes = vec![node("b0", &["c1"]), node("c2", &["c1"]), node("c1", &["c0"]), node("c0", &[])];
    let (rows, width) = lay_out_lanes(&nodes, &Some("c2".to_string()));
    assert_eq!(cols(&rows), vec![1, 0, 0, 0]);
    assert_eq!(width, 2);
    assert!(has_edge(&rows[0], EdgeType::Straight, 1, 1));
    assert!(has_edge(&rows[2], EdgeType::ForkRight, 0, 1));
    // Below the fork the topic lane is gone.
    assert!(rows[3].edges.iter().all(|e| e.from_column == 0 && e.to_column == 0));
}

#[test]
fn a_merge_leaves_no_ghost_lane() {
    // m = merge(c1, f1); c1 and f1 both on c0.
    let nodes = vec![node("m", &["c1", "f1"]), node("c1", &["c0"]), node("f1", &["c0"]), node("c0", &[])];
    let (rows, _) = lay_out_lanes(&nodes, &Some("m".to_string()));
    assert_eq!(cols(&rows), vec![0, 0, 1, 0]);
    assert!(has_edge(&rows[0], EdgeType::MergeRight, 0, 1));
    assert!(has_edge(&rows[3], EdgeType::ForkRight, 0, 1));
    assert!(!has_edge(&rows[3], EdgeType::Straight, 1, 1));
}

#[test]
fn an_octopus_merge_keeps_column_zero_for_head() {
    let nodes = vec![
        node("o", &["m1", "a", "b", "c"]),
        node("m1", &["r"]),
        node("a", &["r"]),
        node("b", &["r"]),
        node("c", &["r"]),
        node("r", &[]),
    ];
    let (rows, width) = lay_out_lanes(&nodes, &Some("o".to_string()));
    assert_eq!(cols(&rows), vec![0, 0, 1, 2, 3, 0]);
    assert_eq!(width, 4);
}

#[test]
fn a_freed_column_is_reused() {
    // merge_a = merge(main1, a); a on root; later b branches from main2.
    let nodes = vec![
        node("b", &["main2"]),
        node("main2", &["merge_a"]),
        node("merge_a", &["main1", "a"]),
        node("main1", &["root"]),
        node("a", &["root"]),
        node("root", &[]),
    ];
    let (rows, _) = lay_out_lanes(&nodes, &Some("main2".to_string()));
    assert_eq!(rows[0].column, 1);
    assert_eq!(rows[4].column, 1, "a reuses the column b left free");
}

#[test]
fn stashes_branch_right_of_their_parent_with_dashed_lines() {
    let nodes = vec![stash("s2", "c1"), stash("s1", "c1"), node("c1", &["c0"]), node("c0", &[])];
    let (rows, width) = lay_out_lanes(&nodes, &Some("c1".to_string()));
    assert_eq!(cols(&rows), vec![1, 2, 0, 0]);
    assert_eq!(width, 3);
    let own = rows[0].edges[0];
    assert!(own.edge_type == EdgeType::Straight && own.dashed);
    let forks: Vec<_> = rows[2].edges.iter().filter(|e| e.edge_type == EdgeType::ForkRight).collect();
    assert_eq!(forks.len(), 2);
    assert!(forks.iter().all(|e| e.dashed));
    let own_c1 = rows[2].edges[0];
    assert!(own_c1.edge_type == EdgeType::Straight && !own_c1.dashed);
    // The stash lane passes dashed through s1's row.
    assert!(rows[1].edges.iter().any(|e| e.edge_type == EdgeType::Straight && e.from_column == 1 && e.dashed));
}

#[test]
fn a_stash_never_takes_column_zero() {
    let nodes = vec![stash("s", "c0"), node("c0", &[])];
    let (rows, width) = lay_out_lanes(&nodes, &None);
    assert_eq!(rows[0].column, 1);
    assert_eq!(width, 2);
}

#[test]
fn layout_is_deterministic() {
    let make = || vec![node("m", &["c1", "f1"]), node("c1", &["c0"]), node("f1", &["c0"]), node("c0", &[])];
    let (a, wa) = lay_out_lanes(&make(), &Some("m".to_string()));
    let (b, wb) = lay_out_lanes(&make(), &Some("m".to_string()));
    assert_eq!(wa, wb);
    for (x, y) in a.iter().zip(b.iter()) {
        assert_eq!(x.column, y.column);
        assert_eq!(x.edges, y.edges);
    }
}

fn write_file(dir: &Path, file: &str, content: &str) {
    let mut tmp = tempfile::NamedTempFile::new_in(dir).unwrap();
    tmp.write_all(content.as_bytes()).unwrap();
    tmp.persist(dir.join(file)).unwrap();
}

fn commit_file(repo: &git2::Repository, dir: &Path, file: &str, refname: &str, msg: &str, parents: &[&git2::Commit]) -> git2::Oid {
    write_file(dir, file, msg);
    let mut idx = repo.index().unwrap();
    idx.add_path(Path::new(file)).unwrap();
    idx.write().unwrap();
    let tree = repo.find_tree(idx.write_tree().unwrap()).unwrap();
    let sig = git2::Signature::now("T", "t@t.com").unwrap();
    repo.commit(Some(refname), &sig, &sig, msg, &tree, parents).unwrap()
}

#[test]
fn history_draws_stash_and_topic_rows() {
    let dir = tempfile::tempdir().unwrap();
    let repo = git2::Repository::init(dir.path()).unwrap();
    let c0 = commit_file(&repo, dir.path(), "f0.txt", "refs/heads/main", "C0", &[]);
    let c0c = repo.find_commit(c0).unwrap();
    let c1 = commit_file(&repo, dir.path(), "f1.txt", "refs/heads/main", "C1", &[&c0c]);
    repo.set_head("refs/heads/main").unwrap();
    commit_file(&repo, dir.path(), "t.txt", "refs/heads/topic", "Topic", &[&c0c]);
    repo.checkout_head(Some(git2::build::CheckoutBuilder::new().force())).unwrap();
    drop(c0c);
    let mut repo = git2::Repository::open(dir.path()).unwrap();
    write_file(dir.path(), "dirty.txt", "dirty");
    {
        let mut idx = repo.index().unwrap();
        idx.add_path(Path::new("dirty.txt")).unwrap();
        idx.write().unwrap();
    }
    let sig = git2::Signature::now("T", "t@t.com").unwrap();
    repo.stash_save(&sig, "test stash", None).unwrap();

    let graph = trunk::repo_read::list_history(&mut repo).ok().unwrap();
    let stash_row = graph.commits.iter().find(|c| c.is_stash).expect("no stash row");
    assert_eq!(stash_row.parent_oids, vec![c1.to_string()]);
    assert!(!stash_row.is_merge);
    assert!(stash_row.refs.iter().any(|r| r.short_name == "stash"));
    let c1_row = graph.commits.iter().find(|c| c.summary == "C1").unwrap();
    let topic = graph.commits.iter().find(|c| c.summary == "Topic").expect("topic branch is walked");
    assert_eq!(c1_row.column, 0);
    assert_eq!(c1_row.color_index, 0);
    assert!(stash_row.column > c1_row.column);
    assert_ne!(stash_row.color_index, c1_row.color_index);
    assert!(topic.column > 0);
    assert!(c1_row.edges.iter().any(|e| e.edge_type == EdgeType::ForkRight && e.to_column == stash_row.column && e.dashed));
    assert!(graph.commits.iter().all(|c| c.column < graph.max_columns));
    assert_eq!(graph.commits.len(), 4);
}
