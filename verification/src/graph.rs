//! The lanes of the commit graph: which column each row is drawn in and the
//! edges drawn through it. Rows come newest first; each lane waits for the
//! commit it expects next, HEAD's first-parent chain keeps column 0, and a
//! stash is drawn in a free lane right of column 0, joined to its parent by
//! a dashed line. A merge draws an edge to the lane of each further parent,
//! and a commit several lanes wait for draws a fork edge to each of them,
//! which ends there. A row is a branch tip when no row above has it as a
//! parent.

use vstd::prelude::*;
use vstd::string::*;
use crate::review_doc::str_eq;
use vstd::hash_map::StringHashMap;

verus! {

/// How an edge runs through a row.
#[derive(PartialEq, Eq, Structural, Clone, Copy, Debug)]
pub enum EdgeType {
    /// A lane that goes on straight down.
    Straight,
    /// A merge's line to a parent's lane on the left.
    MergeLeft,
    /// A merge's line to a parent's lane on the right.
    MergeRight,
    /// A line up to a child's lane on the left.
    ForkLeft,
    /// A line up to a child's lane on the right.
    ForkRight,
}

/// One line drawn through a row, between two columns.
#[derive(PartialEq, Eq, Structural, Clone, Copy, Debug)]
pub struct GraphEdge {
    pub from_column: usize,
    pub to_column: usize,
    pub edge_type: EdgeType,
    pub color_index: usize,
    pub dashed: bool,
}

/// What the layout needs of a row: its oid, its parents' oids, first parent
/// first, and whether it is a stash.
pub struct GraphNode {
    pub oid: String,
    pub parents: Vec<String>,
    pub is_stash: bool,
}

/// Where a row is drawn: its column and the edges through it.
pub struct RowLayout {
    pub column: usize,
    pub edges: Vec<GraphEdge>,
}

/// What the lanes see of a row: its oid, its first parent, whether it is a
/// stash, and all its parents, first parent first.
pub type LaneKey = (Seq<char>, Option<Seq<char>>, bool, Seq<Seq<char>>);

/// The first parent of a node.
pub open spec fn first_parent(n: GraphNode) -> Option<Seq<char>> {
    if n.parents@.len() > 0 {
        Some(n.parents@[0]@)
    } else {
        None
    }
}

/// The lane keys of the nodes.
pub open spec fn node_keys(nodes: Seq<GraphNode>) -> Seq<LaneKey> {
    Seq::new(nodes.len(), |k: int| node_key(nodes[k]))
}

/// The view of an optional string.
pub open spec fn opt_view(s: Option<String>) -> Option<Seq<char>> {
    match s {
        Some(t) => Some(t@),
        None => None,
    }
}

/// The commit lane `j` waits for.
pub open spec fn lane_at(lanes: Seq<Option<String>>, j: int) -> Option<Seq<char>> {
    opt_view(lanes[j])
}

/// The commit HEAD's first-parent chain reaches next once the rows before
/// `k` are drawn: HEAD's commit at first, then, each time a row that is no
/// stash is that commit, its first parent.
pub open spec fn head_lane(keys: Seq<LaneKey>, head: Option<Seq<char>>, k: nat) -> Option<Seq<char>>
    decreases k,
{
    if k == 0 {
        head
    } else {
        let prev = head_lane(keys, head, (k - 1) as nat);
        let key = keys[k - 1];
        if !key.2 && prev == Some(key.0) {
            key.1
        } else {
            prev
        }
    }
}

/// No row in `from..to` is a commit (no stash) with the oid `oid`.
pub open spec fn no_row_named(keys: Seq<LaneKey>, from: int, to: int, oid: Seq<char>) -> bool {
    forall|m: int| from <= m < to ==> !(!(#[trigger] keys[m]).2 && keys[m].0 == oid)
}

/// Every lane of `old` that waits for a commit other than `freed` waits for
/// it still in `new`.
pub open spec fn keeps(old: Seq<Option<String>>, new: Seq<Option<String>>, freed: Option<Seq<char>>) -> bool {
    &&& old.len() <= new.len()
    &&& forall|j: int|
        0 <= j < old.len() && (#[trigger] lane_at(old, j)) is Some && lane_at(old, j) != freed ==> lane_at(new, j)
            == lane_at(old, j)
}

/// The edges lie within the first `width` columns and take the color of the
/// column they lead to.
pub open spec fn edges_ok(edges: Seq<GraphEdge>, width: int) -> bool {
    forall|e: int|
        0 <= e < edges.len() ==> (#[trigger] edges[e]).from_column < width && edges[e].to_column < width
            && edges[e].color_index == edges[e].to_column
}

/// The straight edge of a row in column `col` down to its first parent,
/// dashed for a stash.
pub open spec fn own_edge(col: usize, is_stash: bool) -> GraphEdge {
    GraphEdge { from_column: col, to_column: col, edge_type: EdgeType::Straight, color_index: col, dashed: is_stash }
}

/// The fork edge from column `from` up to a child's lane `to`, by side.
pub open spec fn fork_type(from: int, to: int) -> EdgeType {
    if to > from {
        EdgeType::ForkRight
    } else {
        EdgeType::ForkLeft
    }
}

/// `e` is a fork edge from column `from` to column `to`.
pub open spec fn fork_at(e: GraphEdge, from: int, to: int) -> bool {
    e.from_column == from && e.to_column == to && e.edge_type == fork_type(from, to)
}

/// The edges hold a fork edge from column `from` to column `to`.
pub open spec fn has_fork(edges: Seq<GraphEdge>, from: int, to: int) -> bool {
    exists|e: int| 0 <= e < edges.len() && #[trigger] fork_at(edges[e], from, to)
}

/// `e` is a merge edge of a row in column `from`: solid, and a left or right
/// merge by the side of the column it leads to.
pub open spec fn merge_at(e: GraphEdge, from: int) -> bool {
    &&& e.from_column == from
    &&& e.edge_type == if e.to_column < from {
        EdgeType::MergeLeft
    } else {
        EdgeType::MergeRight
    }
    &&& !e.dashed
}

/// Where, among `len` edges of a row with `n` parents, the merge edge to
/// parent `p` (counted from 0) stands: the merge edges come last, in parent
/// order.
pub open spec fn merge_index(len: int, n: int, p: int) -> int {
    len - (n - p)
}

/// A fork edge pushed after others keeps those the edges held.
proof fn lemma_push_keeps_fork(edges: Seq<GraphEdge>, x: GraphEdge, from: int, to: int)
    requires
        has_fork(edges, from, to),
    ensures
        has_fork(edges.push(x), from, to),
{
    let e = choose|e: int| 0 <= e < edges.len() && #[trigger] fork_at(edges[e], from, to);
    assert(edges.push(x)[e] == edges[e]);
    assert(fork_at(edges.push(x)[e], from, to));
}

/// The first lane that waits for `oid`, if any.
fn find_lane(lanes: &Vec<Option<String>>, oid: &str) -> (r: Option<usize>)
    ensures
        match r {
            Some(j) => j < lanes@.len() && lane_at(lanes@, j as int) == Some(oid@) && forall|i: int|
                0 <= i < j ==> #[trigger] lane_at(lanes@, i) != Some(oid@),
            None => forall|i: int| 0 <= i < lanes@.len() ==> #[trigger] lane_at(lanes@, i) != Some(oid@),
        },
{
    let mut j: usize = 0;
    while j < lanes.len()
        invariant
            j <= lanes@.len(),
            forall|i: int| 0 <= i < j ==> #[trigger] lane_at(lanes@, i) != Some(oid@),
        decreases lanes.len() - j,
    {
        match &lanes[j] {
            Some(s) => {
                if str_eq(s.as_str(), oid) {
                    return Some(j);
                }
            },
            None => {},
        }
        j += 1;
    }
    None
}

/// A free lane at `start` or beyond: the first one, else a new one at the
/// end (with an empty lane before it when the lanes are shorter than
/// `start`). No lane changes.
fn place(lanes: &mut Vec<Option<String>>, dashed: &mut Vec<bool>, start: usize) -> (col: usize)
    requires
        old(lanes)@.len() == old(dashed)@.len(),
        start <= 1,
    ensures
        final(lanes)@.len() == final(dashed)@.len(),
        old(lanes)@.len() <= final(lanes)@.len(),
        start <= col < final(lanes)@.len(),
        final(lanes)@[col as int] is None,
        col < old(lanes)@.len() ==> old(lanes)@[col as int] is None,
        forall|j: int| 0 <= j < old(lanes)@.len() ==> final(lanes)@[j] == old(lanes)@[j],
        forall|j: int| 0 <= j < old(dashed)@.len() ==> final(dashed)@[j] == old(dashed)@[j],
        forall|j: int| old(lanes)@.len() <= j < final(lanes)@.len() ==> final(lanes)@[j] is None,
{
    let mut j: usize = start;
    while j < lanes.len()
        invariant
            start <= j,
            start <= 1,
            lanes@ == old(lanes)@,
            dashed@ == old(dashed)@,
            old(lanes)@.len() == old(dashed)@.len(),
        decreases lanes.len() - j,
    {
        if lanes[j].is_none() {
            return j;
        }
        j += 1;
    }
    if lanes.len() < start {
        lanes.push(None);
        dashed.push(false);
    }
    lanes.push(None);
    dashed.push(false);
    lanes.len() - 1
}

/// `e` is a straight edge down column `j`.
pub open spec fn straight_at(e: GraphEdge, j: int) -> bool {
    e.from_column == j && e.to_column == j && e.edge_type == EdgeType::Straight
}

/// The edges hold a straight edge down column `j`, dashed as `dashed`.
pub open spec fn has_straight(edges: Seq<GraphEdge>, j: int, dashed: bool) -> bool {
    exists|e: int| 0 <= e < edges.len() && #[trigger] straight_at(edges[e], j) && edges[e].dashed == dashed
}

/// An edge pushed after others keeps the straight edges they held.
proof fn lemma_push_keeps_straight(edges: Seq<GraphEdge>, x: GraphEdge, j: int, d: bool)
    requires
        has_straight(edges, j, d),
    ensures
        has_straight(edges.push(x), j, d),
{
    let e = choose|e: int| 0 <= e < edges.len() && #[trigger] straight_at(edges[e], j) && edges[e].dashed == d;
    assert(edges.push(x)[e] == edges[e]);
    assert(straight_at(edges.push(x)[e], j));
}

/// What `advance` promises of the lines it draws and of the dashed flags of
/// the lanes (`old_d` before the row, `new_d` after it): the row's lane is
/// dashed exactly for a stash; every other lane that waits on, for another
/// commit than the row's, keeps its flag and is drawn straight through the
/// row with it; and the row's column is a lane that was free or waited for
/// the row.
pub open spec fn advance_lines(
    old: Seq<Option<String>>,
    old_d: Seq<bool>,
    new_d: Seq<bool>,
    node: GraphNode,
    row: RowLayout,
) -> bool {
    &&& row.column < new_d.len()
    &&& new_d[row.column as int] == node.is_stash
    &&& row.column >= old.len() || lane_at(old, row.column as int) is None || (!node.is_stash && lane_at(
        old,
        row.column as int,
    ) == Some(node.oid@))
    &&& forall|j: int|
        0 <= j < old.len() && #[trigger] lane_at(old, j) is Some && lane_at(old, j) != (if node.is_stash {
            None
        } else {
            Some(node.oid@)
        }) ==> j != row.column && j < new_d.len() && new_d[j] == old_d[j] && has_straight(row.edges@, j, old_d[j])
}

/// What `advance` promises of a row `row` drawn for `node` on the lanes
/// `old`, leaving the lanes `new`.
pub open spec fn advance_post(old: Seq<Option<String>>, new: Seq<Option<String>>, node: GraphNode, row: RowLayout) -> bool {
    &&& keeps(old, new, if node.is_stash { None } else { Some(node.oid@) })
    &&& row.column < new.len()
    &&& lane_at(new, row.column as int) == first_parent(node)
    &&& node.is_stash ==> row.column >= 1
    &&& !node.is_stash ==> ((row.column < old.len() && lane_at(old, row.column as int) == Some(node.oid@) && forall|
        i: int,
    | 0 <= i < row.column ==> #[trigger] lane_at(old, i) != Some(node.oid@)) || ((forall|i: int|
        0 <= i < old.len() ==> #[trigger] lane_at(old, i) != Some(node.oid@)) && (row.column >= old.len() || lane_at(
        old,
        row.column as int,
    ) is None)))
    &&& edges_ok(row.edges@, new.len() as int)
    &&& node.parents@.len() > 0 ==> row.edges@.len() > 0 && row.edges@[0] == own_edge(row.column, node.is_stash)
    &&& forall|p: int|
        #![trigger node.parents@[p]]
        1 <= p < node.parents@.len() ==> row.edges@.len() >= node.parents@.len() && merge_at(
            row.edges@[merge_index(row.edges@.len() as int, node.parents@.len() as int, p)],
            row.column as int,
        ) && lane_at(new, row.edges@[merge_index(row.edges@.len() as int, node.parents@.len() as int, p)].to_column as int)
            == Some(node.parents@[p]@)
    &&& forall|j: int|
        0 <= j < old.len() && j != row.column && !node.is_stash && #[trigger] lane_at(old, j) == Some(node.oid@)
            ==> has_fork(row.edges@, row.column as int, j)
}

/// Draws the row of `node` on the lanes and moves them on past it: the row
/// takes the first lane waiting for it (a stash, or a commit no lane waits
/// for, takes a free lane, never column 0 for a stash); each other lane
/// waiting for it gets a fork edge and ends there; its lane then waits for
/// its first parent, and each further parent gets a merge edge to the lane
/// already waiting for it or to a free one.
fn advance(lanes: &mut Vec<Option<String>>, dashed: &mut Vec<bool>, node: &GraphNode) -> (row: RowLayout)
    requires
        old(lanes)@.len() == old(dashed)@.len(),
    ensures
        final(lanes)@.len() == final(dashed)@.len(),
        advance_post(old(lanes)@, final(lanes)@, *node, row),
        advance_lines(old(lanes)@, old(dashed)@, final(dashed)@, *node, row),
        node.is_stash ==> row.column >= old(lanes)@.len() || lane_at(old(lanes)@, row.column as int) is None,
        forall|j: int|
            0 <= j < old(lanes)@.len() && j != row.column && !node.is_stash && #[trigger] lane_at(old(lanes)@, j)
                == Some(node.oid@) ==> has_fork(row.edges@, row.column as int, j) && (lane_at(final(lanes)@, j) is None
                || exists|q: int|
                1 <= q < node.parents@.len() && lane_at(final(lanes)@, j) == Some((#[trigger] node.parents@[q])@)),
{
    let ghost start = lanes@;
    let ghost start_d = dashed@;
    let col = if node.is_stash {
        place(lanes, dashed, 1)
    } else {
        match find_lane(lanes, node.oid.as_str()) {
            Some(j) => j,
            None => place(lanes, dashed, 0),
        }
    };
    let ghost freed: Option<Seq<char>> = if node.is_stash { None } else { Some(node.oid@) };
    let ghost mid = lanes@;
    let ghost mid_d = dashed@;
    assert(forall|i: int| 0 <= i < start.len() ==> mid[i] == start[i] && mid_d[i] == start_d[i]);
    assert(lane_at(mid, col as int) is None || lane_at(mid, col as int) == freed);
    assert(keeps(start, mid, freed)) by {
        assert forall|j: int|
            0 <= j < start.len() && (#[trigger] lane_at(start, j)) is Some && lane_at(start, j) != freed implies lane_at(
            mid,
            j,
        ) == lane_at(start, j) by {
            assert(mid[j] == start[j]);
        }
    }
    assert forall|j: int| 0 <= j < start.len() implies #[trigger] lane_at(mid, j) == lane_at(start, j) by {
        assert(mid[j] == start[j]);
    }
    let mut edges: Vec<GraphEdge> = Vec::new();
    if node.parents.len() > 0 {
        edges.push(
            GraphEdge {
                from_column: col,
                to_column: col,
                edge_type: EdgeType::Straight,
                color_index: col,
                dashed: node.is_stash,
            },
        );
    }
    let n = lanes.len();
    let mut j: usize = 0;
    while j < n
        invariant
            n == lanes@.len(),
            n == dashed@.len(),
            n == mid.len(),
            col < n,
            j <= n,
            lanes@[col as int] == mid[col as int],
            forall|i: int| j <= i < n ==> lanes@[i] == mid[i],
            keeps(mid, lanes@, freed),
            freed == (if node.is_stash { None } else { Some(node.oid@) }),
            edges_ok(edges@, n as int),
            node.parents@.len() > 0 ==> edges@.len() > 0 && edges@[0] == own_edge(col, node.is_stash),
            forall|i: int|
                0 <= i < j && i != col && !node.is_stash && #[trigger] lane_at(mid, i) == Some(node.oid@) ==> lanes@[i] is None
                    && has_fork(edges@, col as int, i),
            dashed@ == mid_d,
            forall|i: int|
                0 <= i < j && i != col && #[trigger] lane_at(mid, i) is Some && lane_at(mid, i) != freed ==> has_straight(
                    edges@,
                    i,
                    mid_d[i],
                ),
        decreases n - j,
    {
        if j != col {
            let ends_here = match &lanes[j] {
                Some(s) => Some(!node.is_stash && str_eq(s.as_str(), node.oid.as_str())),
                None => None,
            };
            let ghost before_edges = edges@;
            match ends_here {
                Some(true) => {
                    let d = dashed[j];
                    let e = GraphEdge {
                        from_column: col,
                        to_column: j,
                        edge_type: if j > col {
                            EdgeType::ForkRight
                        } else {
                            EdgeType::ForkLeft
                        },
                        color_index: j,
                        dashed: d,
                    };
                    edges.push(e);
                    let ghost before = lanes@;
                    lanes.set(j, None);
                    assert forall|i: int|
                        0 <= i < mid.len() && (#[trigger] lane_at(mid, i)) is Some && lane_at(mid, i) != freed implies lane_at(
                        lanes@,
                        i,
                    ) == lane_at(mid, i) by {
                        if i == j {
                            assert(lane_at(before, i) == lane_at(mid, i));
                        } else {
                            assert(lanes@[i] == before[i]);
                        }
                    }
                    assert(fork_at(edges@[edges@.len() - 1], col as int, j as int));
                    assert forall|i: int|
                        0 <= i < j + 1 && i != col && !node.is_stash && #[trigger] lane_at(mid, i) == Some(node.oid@) implies lanes@[i] is None
                            && has_fork(edges@, col as int, i) by {
                        if i < j {
                            lemma_push_keeps_fork(before_edges, e, col as int, i);
                            assert(lanes@[i] == before[i]);
                        }
                    }
                    assert forall|i: int|
                        0 <= i < j + 1 && i != col && #[trigger] lane_at(mid, i) is Some && lane_at(mid, i) != freed implies has_straight(
                        edges@,
                        i,
                        mid_d[i],
                    ) by {
                        if i < j {
                            lemma_push_keeps_straight(before_edges, e, i, mid_d[i]);
                        } else {
                            assert(lane_at(mid, j as int) == Some(node.oid@));
                        }
                    }
                },
                Some(false) => {
                    let d = dashed[j];
                    let e = GraphEdge {
                        from_column: j,
                        to_column: j,
                        edge_type: EdgeType::Straight,
                        color_index: j,
                        dashed: d,
                    };
                    edges.push(e);
                    assert forall|i: int|
                        0 <= i < j && i != col && !node.is_stash && #[trigger] lane_at(mid, i) == Some(node.oid@) implies lanes@[i] is None
                            && has_fork(edges@, col as int, i) by {
                        lemma_push_keeps_fork(before_edges, e, col as int, i);
                    }
                    assert(straight_at(edges@[edges@.len() - 1], j as int));
                    assert forall|i: int|
                        0 <= i < j + 1 && i != col && #[trigger] lane_at(mid, i) is Some && lane_at(mid, i) != freed implies has_straight(
                        edges@,
                        i,
                        mid_d[i],
                    ) by {
                        if i < j {
                            lemma_push_keeps_straight(before_edges, e, i, mid_d[i]);
                        } else {
                            assert(lanes@[i] == mid[i]);
                        }
                    }
                },
                None => {},
            }
        }
        j += 1;
    }
    let ghost before_fp = lanes@;
    let fp = if node.parents.len() > 0 {
        Some(node.parents[0].clone())
    } else {
        None
    };
    lanes.set(col, fp);
    dashed.set(col, node.is_stash);
    assert(lane_at(lanes@, col as int) == first_parent(*node));
    assert(keeps(mid, lanes@, freed)) by {
        assert forall|i: int|
            0 <= i < mid.len() && (#[trigger] lane_at(mid, i)) is Some && lane_at(mid, i) != freed implies lane_at(
            lanes@,
            i,
        ) == lane_at(mid, i) by {
            if i != col {
                assert(lanes@[i] == before_fp[i]);
            }
        }
    }
    assert forall|i: int|
        0 <= i < n && i != col && !node.is_stash && #[trigger] lane_at(mid, i) == Some(node.oid@) implies lanes@[i] is None
            && has_fork(edges@, col as int, i) by {
        assert(lanes@[i] == before_fp[i]);
    }
    assert forall|i: int|
        0 <= i < n && i != col && #[trigger] lane_at(mid, i) is Some && lane_at(mid, i) != freed implies dashed@[i]
            == mid_d[i] && has_straight(edges@, i, mid_d[i]) by {}
    let ghost base = edges@.len();
    assert(start.len() <= n);
    assert forall|i: int| 0 <= i < start.len() implies mid[i] == start[i] by {}
    let mut p: usize = 1;
    while p < node.parents.len()
        invariant
            lanes@.len() == dashed@.len(),
            mid.len() == n,
            start.len() <= n,
            forall|i: int| 0 <= i < start.len() ==> mid[i] == start[i],
            n <= lanes@.len(),
            col < lanes@.len(),
            1 <= p,
            p <= node.parents@.len() || p == 1,
            lane_at(lanes@, col as int) == first_parent(*node),
            keeps(mid, lanes@, freed),
            freed == (if node.is_stash { None } else { Some(node.oid@) }),
            edges_ok(edges@, lanes@.len() as int),
            dashed@[col as int] == node.is_stash,
            mid_d.len() == n,
            forall|i: int| 0 <= i < start.len() ==> mid_d[i] == start_d[i],
            forall|i: int|
                0 <= i < n && i != col && #[trigger] lane_at(mid, i) is Some && lane_at(mid, i) != freed ==> dashed@[i]
                    == mid_d[i] && has_straight(edges@, i, mid_d[i]),
            node.parents@.len() > 0 ==> base >= 1,
            node.parents@.len() > 0 ==> edges@.len() > 0 && edges@[0] == own_edge(col, node.is_stash),
            edges@.len() == base + p - 1,
            forall|q: int|
                1 <= q < p ==> merge_at(#[trigger] edges@[base + q - 1], col as int) && edges@[base + q - 1].to_column
                    < lanes@.len() && lane_at(lanes@, edges@[base + q - 1].to_column as int) == Some(
                    node.parents@[q]@,
                ),
            forall|i: int|
                0 <= i < n && i != col && !node.is_stash && #[trigger] lane_at(mid, i) == Some(node.oid@) ==> has_fork(
                    edges@,
                    col as int,
                    i,
                ) && (lanes@[i] is None || exists|q: int|
                    1 <= q < p && lane_at(lanes@, i) == Some((#[trigger] node.parents@[q])@)),
        decreases node.parents.len() - p,
    {
        let ghost pre_edges = edges@;
        let ghost pre = lanes@;
        let target = match find_lane(lanes, node.parents[p].as_str()) {
            Some(k) => k,
            None => {
                let k = place(lanes, dashed, 0);
                let ghost placed = lanes@;
                lanes.set(k, Some(node.parents[p].clone()));
                dashed.set(k, false);
                assert forall|i: int|
                    0 <= i < mid.len() && (#[trigger] lane_at(mid, i)) is Some && lane_at(mid, i) != freed implies lane_at(
                    lanes@,
                    i,
                ) == lane_at(mid, i) by {
                    if i == k {
                        assert(lane_at(pre, i) == lane_at(mid, i));
                        assert(placed[i] == pre[i]);
                    } else {
                        assert(lanes@[i] == placed[i]);
                        assert(placed[i] == pre[i]);
                    }
                }
                assert(lanes@[col as int] == placed[col as int]);
                assert(placed[col as int] == pre[col as int]);
                assert forall|i: int|
                    0 <= i < n && i != col && #[trigger] lane_at(mid, i) is Some && lane_at(mid, i) != freed implies dashed@[i]
                        == mid_d[i] by {
                    assert(placed[i] == pre[i]);
                    assert(lane_at(pre, i) == lane_at(mid, i));
                    assert(i != k);
                }
                assert forall|q: int| 1 <= q < p implies #[trigger] lanes@[pre_edges[base + q - 1].to_column as int]
                    == pre[pre_edges[base + q - 1].to_column as int] by {
                    let t = pre_edges[base + q - 1].to_column as int;
                    assert(placed[t] == pre[t]);
                }
                assert forall|i: int|
                    0 <= i < n && i != col && !node.is_stash && #[trigger] lane_at(mid, i) == Some(node.oid@) implies (
                    lanes@[i] is None || exists|q: int|
                        1 <= q < p + 1 && lane_at(lanes@, i) == Some((#[trigger] node.parents@[q])@)) by {
                    assert(placed[i] == pre[i]);
                    if i == k {
                        assert(lane_at(lanes@, i) == Some(node.parents@[p as int]@));
                    } else {
                        assert(lanes@[i] == pre[i]);
                        if !(pre[i] is None) {
                            let q = choose|q: int|
                                1 <= q < p && lane_at(pre, i) == Some((#[trigger] node.parents@[q])@);
                            assert(lane_at(lanes@, i) == Some(node.parents@[q]@));
                        }
                    }
                }
                k
            },
        };
        let e = GraphEdge {
            from_column: col,
            to_column: target,
            edge_type: if target < col {
                EdgeType::MergeLeft
            } else {
                EdgeType::MergeRight
            },
            color_index: target,
            dashed: false,
        };
        let ghost post = lanes@;
        edges.push(e);
        proof {
            assert forall|i: int|
                0 <= i < n && i != col && #[trigger] lane_at(mid, i) is Some && lane_at(mid, i) != freed implies dashed@[i]
                    == mid_d[i] && has_straight(edges@, i, mid_d[i]) by {
                lemma_push_keeps_straight(pre_edges, e, i, mid_d[i]);
            }
            assert forall|i: int|
                0 <= i < n && i != col && !node.is_stash && #[trigger] lane_at(mid, i) == Some(node.oid@) implies has_fork(
                edges@,
                col as int,
                i,
            ) && (lanes@[i] is None || exists|q: int|
                1 <= q < p + 1 && lane_at(lanes@, i) == Some((#[trigger] node.parents@[q])@)) by {
                lemma_push_keeps_fork(pre_edges, e, col as int, i);
                if !(lanes@[i] is None) && post == pre {
                    let q = choose|q: int| 1 <= q < p && lane_at(pre, i) == Some((#[trigger] node.parents@[q])@);
                    assert(lane_at(lanes@, i) == Some(node.parents@[q]@));
                }
            }
            assert forall|q: int|
                1 <= q < p + 1 implies merge_at(#[trigger] edges@[base + q - 1], col as int) && edges@[base + q
                - 1].to_column < lanes@.len() && lane_at(lanes@, edges@[base + q - 1].to_column as int) == Some(
                node.parents@[q]@,
            ) by {
                if q < p {
                    assert(edges@[base + q - 1] == pre_edges[base + q - 1]);
                }
            }
        }
        p += 1;
    }
    proof {
        assert forall|i: int|
            0 <= i < start.len() && (#[trigger] lane_at(start, i)) is Some && lane_at(start, i) != freed implies lane_at(
            lanes@,
            i,
        ) == lane_at(start, i) by {
            assert(mid[i] == start[i]);
            assert(lane_at(mid, i) == lane_at(start, i));
        }
        assert forall|j: int|
            0 <= j < start.len() && j != col && !node.is_stash && #[trigger] lane_at(start, j) == Some(node.oid@) implies has_fork(
            edges@,
            col as int,
            j,
        ) && (lane_at(lanes@, j) is None || exists|q: int|
            1 <= q < node.parents@.len() && lane_at(lanes@, j) == Some((#[trigger] node.parents@[q])@)) by {
            assert(mid[j] == start[j]);
            assert(lane_at(mid, j) == Some(node.oid@));
            assert(j < n);
            assert(has_fork(edges@, col as int, j));
            if !(lanes@[j] is None) {
                assert(exists|q: int| 1 <= q < p && lane_at(lanes@, j) == Some((#[trigger] node.parents@[q])@));
                let q = choose|q: int| 1 <= q < p && lane_at(lanes@, j) == Some((#[trigger] node.parents@[q])@);
                assert(q < node.parents@.len());
                assert(lane_at(lanes@, j) == Some(node.parents@[q]@));
                assert(exists|q: int|
                    1 <= q < node.parents@.len() && lane_at(lanes@, j) == Some((#[trigger] node.parents@[q])@));
            }
        }
        assert forall|j: int|
            0 <= j < start.len() && #[trigger] lane_at(start, j) is Some && lane_at(start, j) != freed implies j != col
                && j < dashed@.len() && dashed@[j] == start_d[j] && has_straight(edges@, j, start_d[j]) by {
            assert(mid[j] == start[j]);
            assert(lane_at(mid, j) == lane_at(start, j));
        }
        assert(col >= start.len() || lane_at(start, col as int) is None || (!node.is_stash && lane_at(
            start,
            col as int,
        ) == Some(node.oid@))) by {
            if col < start.len() {
                assert(mid[col as int] == start[col as int]);
            }
        }
        assert forall|q: int| 1 <= q < node.parents@.len() implies merge_index(
            edges@.len() as int,
            node.parents@.len() as int,
            q,
        ) == base + q - 1 by {}
    }
    RowLayout { column: col, edges }
}

/// The row with the edges `edges`, `n` parents and column `col` has its
/// merge edge to parent `p` (see `merge_index`).
pub open spec fn merge_at_p(edges: Seq<GraphEdge>, n: int, p: int, col: int) -> bool {
    edges.len() >= n && merge_at(edges[merge_index(edges.len() as int, n, p)], col)
}

/// The row with the edges `edges`, in column `col`, with `n` parents, has a
/// merge edge for each parent after the first.
pub open spec fn row_merges_ok(edges: Seq<GraphEdge>, col: int, n: int) -> bool {
    forall|p: int| 1 <= p < n ==> #[trigger] merge_at_p(edges, n, p, col)
}

/// The column the merge edge of a row with the edges `edges` and `n`
/// parents leads to for its parent `p` (see `merge_index`).
pub open spec fn merge_target(edges: Seq<GraphEdge>, n: int, p: int) -> int {
    edges[merge_index(edges.len() as int, n, p)].to_column as int
}

/// The laws of a layout that draws the rows `keys` in the columns `cols`
/// with the edges `edges`, `width` columns wide:
/// - every row and edge lies within the width, and a stash is never in
///   column 0;
/// - a row with a parent has its straight edge down to it first, and a
///   merge edge, left or right by side, for each further parent;
/// - a commit drawn further down than a row that has it as a parent (with
///   no row of that commit between) is drawn in the lane that waited for it
///   or one further left: the column of the child for a first parent, the
///   column the merge edge leads to for a further parent;
/// - and when it is drawn in another column than that lane, its row has a
///   fork edge up to the lane, which so ends there (no lane is left
///   waiting for a commit already drawn);
/// - and every lane still waiting at a row, for another commit than the
///   row's, is drawn straight through it (see `through_ok`).
pub open spec fn lanes_ok(cols: Seq<usize>, edges: Seq<Seq<GraphEdge>>, width: int, keys: Seq<LaneKey>) -> bool {
    &&& cols.len() == keys.len()
    &&& edges.len() == keys.len()
    &&& forall|k: int| 0 <= k < cols.len() ==> (#[trigger] cols[k]) < width && edges_ok(edges[k], width)
    &&& forall|k: int| 0 <= k < cols.len() && (#[trigger] keys[k]).2 ==> cols[k] >= 1
    &&& forall|k: int|
        0 <= k < cols.len() && (#[trigger] keys[k]).1 is Some ==> edges[k].len() > 0 && edges[k][0] == own_edge(
            cols[k],
            keys[k].2,
        )
    &&& forall|k: int|
        0 <= k < cols.len() ==> row_merges_ok(edges[k], cols[k] as int, (#[trigger] keys[k]).3.len() as int)
    &&& forall|i: int, j: int|
        0 <= i < j < cols.len() && (#[trigger] keys[i]).1 == Some((#[trigger] keys[j]).0) && !keys[j].2 && no_row_named(
            keys,
            i + 1,
            j,
            keys[j].0,
        ) ==> cols[j] <= cols[i] && (cols[j] != cols[i] ==> has_fork(edges[j], cols[j] as int, cols[i] as int))
    &&& forall|i: int, j: int, p: int|
        0 <= i < j < cols.len() && 1 <= p < keys[i].3.len() && (#[trigger] keys[i].3[p]) == (#[trigger] keys[j]).0
            && !keys[j].2 && no_row_named(keys, i + 1, j, keys[j].0) ==> cols[j] <= merge_target(
            edges[i],
            keys[i].3.len() as int,
            p,
        ) && (cols[j] != merge_target(edges[i], keys[i].3.len() as int, p) ==> has_fork(
            edges[j],
            cols[j] as int,
            merge_target(edges[i], keys[i].3.len() as int, p),
        ))

    &&& through_ok(cols, edges, keys)
}

/// Every lane still waiting at a row, for another commit than the row's,
/// is drawn straight through it: the lane of a row's first parent, dashed
/// when that row is a stash, and the lane a merge edge leads to.
#[verifier::opaque]
pub open spec fn through_ok(cols: Seq<usize>, edges: Seq<Seq<GraphEdge>>, keys: Seq<LaneKey>) -> bool {
    &&& forall|i: int, j: int|
        #![trigger edges[j], keys[i]]
        0 <= i < j < cols.len() && keys[i].1 is Some && no_row_named(keys, i + 1, j + 1, keys[i].1->0) ==> cols[j]
            != cols[i] && has_straight(edges[j], cols[i] as int, keys[i].2)
    &&& forall|i: int, j: int, p: int|
        #![trigger edges[j], keys[i].3[p]]
        0 <= i < j < cols.len() && 1 <= p < keys[i].3.len() && no_row_named(keys, i + 1, j + 1, keys[i].3[p]) ==> cols[j]
            != merge_target(edges[i], keys[i].3.len() as int, p) && (has_straight(
            edges[j],
            merge_target(edges[i], keys[i].3.len() as int, p),
            true,
        ) || has_straight(edges[j], merge_target(edges[i], keys[i].3.len() as int, p), false))
}

/// A lane still waiting at a row for another commit than the row's own is
/// drawn through that row: the lane of an earlier row's first parent, not
/// drawn yet, is in another column than the row and has a straight edge
/// down its column in the row, dashed exactly when that earlier row is a
/// stash.
pub proof fn law_waiting_lanes_are_drawn_through(
    cols: Seq<usize>,
    edges: Seq<Seq<GraphEdge>>,
    width: int,
    keys: Seq<LaneKey>,
    i: int,
    j: int,
)
    requires
        lanes_ok(cols, edges, width, keys),
        0 <= i < j < cols.len(),
        keys[i].1 is Some,
        no_row_named(keys, i + 1, j + 1, keys[i].1->0),
    ensures
        cols[j] != cols[i],
        exists|e: int|
            0 <= e < edges[j].len() && edges[j][e].from_column == cols[i] && edges[j][e].to_column == cols[i]
                && edges[j][e].edge_type == EdgeType::Straight && edges[j][e].dashed == keys[i].2,
{
    reveal(through_ok);
    assert(edges[j] == edges[j]);
    assert(keys[i] == keys[i]);
    let e = choose|e: int| 0 <= e < edges[j].len() && #[trigger] straight_at(edges[j][e], cols[i] as int) && edges[j][e].dashed == keys[i].2;
    assert(edges[j][e].from_column == cols[i]);
}

/// The lane a merge edge opened or joined for a further parent, while that
/// parent is not drawn yet, is drawn straight through every later row.
pub proof fn law_merge_lanes_are_drawn_through(
    cols: Seq<usize>,
    edges: Seq<Seq<GraphEdge>>,
    width: int,
    keys: Seq<LaneKey>,
    i: int,
    j: int,
    p: int,
)
    requires
        lanes_ok(cols, edges, width, keys),
        0 <= i < j < cols.len(),
        1 <= p < keys[i].3.len(),
        no_row_named(keys, i + 1, j + 1, keys[i].3[p]),
    ensures
        cols[j] != merge_target(edges[i], keys[i].3.len() as int, p),
        exists|e: int|
            0 <= e < edges[j].len() && edges[j][e].from_column == merge_target(edges[i], keys[i].3.len() as int, p)
                && edges[j][e].to_column == edges[j][e].from_column && edges[j][e].edge_type == EdgeType::Straight,
{
    reveal(through_ok);
    assert(edges[j] == edges[j]);
    assert(keys[i].3[p] == keys[i].3[p]);
    let t = merge_target(edges[i], keys[i].3.len() as int, p);
    if has_straight(edges[j], t, true) {
        let e = choose|e: int| 0 <= e < edges[j].len() && #[trigger] straight_at(edges[j][e], t) && edges[j][e].dashed == true;
        assert(edges[j][e].from_column == t);
    } else {
        let e = choose|e: int| 0 <= e < edges[j].len() && #[trigger] straight_at(edges[j][e], t) && edges[j][e].dashed == false;
        assert(edges[j][e].from_column == t);
    }
}

/// HEAD's first-parent chain, from the commit `head`, is drawn in column 0.
pub open spec fn head_chain_ok(cols: Seq<usize>, keys: Seq<LaneKey>, head: Option<Seq<char>>) -> bool {
    forall|k: int|
        0 <= k < cols.len() && !(#[trigger] keys[k]).2 && head_lane(keys, head, k as nat) == Some(keys[k].0) ==> cols[k]
            == 0
}

/// The laws of a layout (see `lanes_ok`), with HEAD's chain in column 0.
pub open spec fn layout_ok(
    cols: Seq<usize>,
    edges: Seq<Seq<GraphEdge>>,
    width: int,
    keys: Seq<LaneKey>,
    head: Option<Seq<char>>,
) -> bool {
    lanes_ok(cols, edges, width, keys) && head_chain_ok(cols, keys, head)
}

/// The columns of laid-out rows.
pub open spec fn row_cols(rows: Seq<RowLayout>) -> Seq<usize> {
    Seq::new(rows.len(), |k: int| rows[k].column)
}

/// The edges of laid-out rows.
pub open spec fn row_edges(rows: Seq<RowLayout>) -> Seq<Seq<GraphEdge>> {
    Seq::new(rows.len(), |k: int| rows[k].edges@)
}

/// The key of a node.
pub open spec fn node_key(n: GraphNode) -> LaneKey {
    (n.oid@, first_parent(n), n.is_stash, n.parents@.map_values(|s: String| s@))
}

/// The rows drawn so far lie within the lanes, keep stashes off column 0,
/// and have their own and merge edges.
#[verifier::opaque]
pub open spec fn rows_part(rows: Seq<RowLayout>, width: int, keys: Seq<LaneKey>) -> bool {
    &&& forall|i: int| 0 <= i < rows.len() ==> (#[trigger] rows[i]).column < width && edges_ok(rows[i].edges@, width)
    &&& forall|i: int| 0 <= i < rows.len() && (#[trigger] keys[i]).2 ==> rows[i].column >= 1
    &&& forall|i: int|
        0 <= i < rows.len() && (#[trigger] keys[i]).1 is Some ==> rows[i].edges@.len() > 0 && rows[i].edges@[0]
            == own_edge(rows[i].column, keys[i].2)
    &&& forall|i: int|
        0 <= i < rows.len() ==> row_merges_ok(rows[i].edges@, rows[i].column as int, (#[trigger] keys[i]).3.len() as int)
}

/// HEAD's chain so far is in column 0, and lane 0 waits for its next commit.
#[verifier::opaque]
pub open spec fn head_part(rows: Seq<RowLayout>, lanes: Seq<Option<String>>, keys: Seq<LaneKey>, hv: Option<Seq<char>>) -> bool {
    &&& forall|i: int|
        0 <= i < rows.len() && !(#[trigger] keys[i]).2 && head_lane(keys, hv, i as nat) == Some(keys[i].0)
            ==> rows[i].column == 0
    &&& head_lane(keys, hv, rows.len()) matches Some(h) ==> 0 < lanes.len() && lane_at(lanes, 0) == Some(h)
}

/// The first-parent law over the rows drawn so far.
#[verifier::opaque]
pub open spec fn first_parent_part(rows: Seq<RowLayout>, keys: Seq<LaneKey>) -> bool {
    forall|i: int, j: int|
        0 <= i < j < rows.len() && (#[trigger] keys[i]).1 == Some((#[trigger] keys[j]).0) && !keys[j].2 && no_row_named(
            keys,
            i + 1,
            j,
            keys[j].0,
        ) ==> rows[j].column <= rows[i].column && (rows[j].column != rows[i].column ==> has_fork(
            rows[j].edges@,
            rows[j].column as int,
            rows[i].column as int,
        ))
}

/// The further-parent law over the rows drawn so far.
#[verifier::opaque]
pub open spec fn merge_part(rows: Seq<RowLayout>, keys: Seq<LaneKey>) -> bool {
    forall|i: int, j: int, p: int|
        0 <= i < j < rows.len() && 1 <= p < keys[i].3.len() && (#[trigger] keys[i].3[p]) == (#[trigger] keys[j]).0
            && !keys[j].2 && no_row_named(keys, i + 1, j, keys[j].0) ==> rows[j].column <= merge_target(
            rows[i].edges@,
            keys[i].3.len() as int,
            p,
        ) && (rows[j].column != merge_target(rows[i].edges@, keys[i].3.len() as int, p) ==> has_fork(
            rows[j].edges@,
            rows[j].column as int,
            merge_target(rows[i].edges@, keys[i].3.len() as int, p),
        ))
}

/// Each parent of a drawn row that is not drawn yet has a lane waiting for
/// it: the row's own lane for its first parent, the lane its merge edge
/// leads to for a further one.
#[verifier::opaque]
pub open spec fn pending_part(rows: Seq<RowLayout>, lanes: Seq<Option<String>>, keys: Seq<LaneKey>) -> bool {
    &&& forall|i: int|
        0 <= i < rows.len() && (#[trigger] keys[i]).1 is Some && no_row_named(keys, i + 1, rows.len() as int, keys[i].1->0)
            ==> lane_at(lanes, rows[i].column as int) == keys[i].1
    &&& forall|i: int, p: int|
        0 <= i < rows.len() && 1 <= p < keys[i].3.len() && no_row_named(keys, i + 1, rows.len() as int, #[trigger] keys[i].3[p])
            ==> lane_at(lanes, merge_target(rows[i].edges@, keys[i].3.len() as int, p)) == Some(keys[i].3[p])
}

/// The lane of each drawn row whose first parent is not drawn yet is dashed
/// exactly when the row is a stash.
#[verifier::opaque]
pub open spec fn dashed_part(rows: Seq<RowLayout>, dashed: Seq<bool>, keys: Seq<LaneKey>) -> bool {
    forall|i: int|
        0 <= i < rows.len() && (#[trigger] keys[i]).1 is Some && no_row_named(keys, i + 1, rows.len() as int, keys[i].1->0)
            ==> rows[i].column < dashed.len() && dashed[rows[i].column as int] == keys[i].2
}

/// The lanes still waiting are drawn straight through the rows drawn so far.
#[verifier::opaque]
pub open spec fn through_part(rows: Seq<RowLayout>, keys: Seq<LaneKey>) -> bool {
    &&& forall|i: int, j: int|
        #![trigger rows[j], keys[i]]
        0 <= i < j < rows.len() && keys[i].1 is Some && no_row_named(keys, i + 1, j + 1, keys[i].1->0) ==> rows[j].column
            != rows[i].column && has_straight(rows[j].edges@, rows[i].column as int, keys[i].2)
    &&& forall|i: int, j: int, p: int|
        #![trigger rows[j], keys[i].3[p]]
        0 <= i < j < rows.len() && 1 <= p < keys[i].3.len() && no_row_named(keys, i + 1, j + 1, keys[i].3[p])
            ==> rows[j].column != merge_target(rows[i].edges@, keys[i].3.len() as int, p) && (has_straight(
            rows[j].edges@,
            merge_target(rows[i].edges@, keys[i].3.len() as int, p),
            true,
        ) || has_straight(rows[j].edges@, merge_target(rows[i].edges@, keys[i].3.len() as int, p), false))
}

proof fn lemma_step_dashed(
    rows: Seq<RowLayout>,
    old: Seq<Option<String>>,
    old_d: Seq<bool>,
    new_d: Seq<bool>,
    node: GraphNode,
    row: RowLayout,
    keys: Seq<LaneKey>,
)
    requires
        rows.len() < keys.len(),
        keys[rows.len() as int] == node_key(node),
        advance_lines(old, old_d, new_d, node, row),
        rows_part(rows, old.len() as int, keys),
        pending_part(rows, old, keys),
        dashed_part(rows, old_d, keys),
    ensures
        dashed_part(rows.push(row), new_d, keys),
{
    reveal(pending_part);
    reveal(rows_part);
    reveal(dashed_part);
    let k = rows.len() as int;
    let r2 = rows.push(row);
    assert forall|i: int|
        0 <= i < r2.len() && (#[trigger] keys[i]).1 is Some && no_row_named(keys, i + 1, r2.len() as int, keys[i].1->0)
            implies r2[i].column < new_d.len() && new_d[r2[i].column as int] == keys[i].2 by {
        if i < k {
            let p = keys[i].1->0;
            let c = rows[i].column as int;
            assert(r2[i] == rows[i]);
            assert(no_row_named(keys, i + 1, k, p));
            assert(!(!keys[k].2 && keys[k].0 == p));
            assert(lane_at(old, c) == Some(p));
            assert(lane_at(old, c) is Some);
        }
    }
}

proof fn lemma_step_through(
    rows: Seq<RowLayout>,
    old: Seq<Option<String>>,
    old_d: Seq<bool>,
    new_d: Seq<bool>,
    node: GraphNode,
    row: RowLayout,
    keys: Seq<LaneKey>,
)
    requires
        rows.len() < keys.len(),
        keys[rows.len() as int] == node_key(node),
        advance_lines(old, old_d, new_d, node, row),
        rows_part(rows, old.len() as int, keys),
        pending_part(rows, old, keys),
        dashed_part(rows, old_d, keys),
        through_part(rows, keys),
    ensures
        through_part(rows.push(row), keys),
{
    reveal(pending_part);
    reveal(rows_part);
    reveal(dashed_part);
    reveal(through_part);
    let k = rows.len() as int;
    let r2 = rows.push(row);
    assert forall|i: int, j: int|
        #![trigger r2[j], keys[i]]
        0 <= i < j < r2.len() && keys[i].1 is Some && no_row_named(keys, i + 1, j + 1, keys[i].1->0) implies r2[j].column
            != r2[i].column && has_straight(r2[j].edges@, r2[i].column as int, keys[i].2) by {
        assert(keys[j] == keys[j]);
        assert(r2[i] == rows[i]);
        if j < k {
            assert(r2[j] == rows[j]);
            assert(rows[j].column != rows[i].column && has_straight(rows[j].edges@, rows[i].column as int, keys[i].2));
        } else {
            let p = keys[i].1->0;
            let c = rows[i].column as int;
            assert(r2[j] == row);
            assert(no_row_named(keys, i + 1, k, p));
            assert(!(!keys[k].2 && keys[k].0 == p));
            assert(lane_at(old, c) == Some(p));
            assert(lane_at(old, c) is Some);
            assert(old_d[c] == keys[i].2);
            assert(c != row.column && has_straight(row.edges@, c, old_d[c]));
        }
    }
    assert forall|i: int, j: int, p: int|
        #![trigger r2[j], keys[i].3[p]]
        0 <= i < j < r2.len() && 1 <= p < keys[i].3.len() && no_row_named(keys, i + 1, j + 1, keys[i].3[p])
            implies r2[j].column != merge_target(r2[i].edges@, keys[i].3.len() as int, p) && (has_straight(
            r2[j].edges@,
            merge_target(r2[i].edges@, keys[i].3.len() as int, p),
            true,
        ) || has_straight(r2[j].edges@, merge_target(r2[i].edges@, keys[i].3.len() as int, p), false)) by {
        assert(keys[j] == keys[j]);
        assert(keys[i].3[p] == keys[i].3[p]);
        assert(r2[i] == rows[i]);
        if j < k {
            assert(r2[j] == rows[j]);
            assert(rows[j].column != merge_target(rows[i].edges@, keys[i].3.len() as int, p) && (has_straight(
                rows[j].edges@,
                merge_target(rows[i].edges@, keys[i].3.len() as int, p),
                true,
            ) || has_straight(rows[j].edges@, merge_target(rows[i].edges@, keys[i].3.len() as int, p), false)));
        } else {
            assert(r2[j] == row);
            let x = keys[i].3[p];
            let t = merge_target(rows[i].edges@, keys[i].3.len() as int, p);
            assert(no_row_named(keys, i + 1, k, x));
            assert(!(!keys[k].2 && keys[k].0 == x));
            let m = merge_index(rows[i].edges@.len() as int, keys[i].3.len() as int, p);
            assert(merge_at_p(rows[i].edges@, keys[i].3.len() as int, p, rows[i].column as int));
            assert(edges_ok(rows[i].edges@, old.len() as int));
            assert(rows[i].edges@[m].to_column < old.len());
            assert(lane_at(old, t) == Some(x));
            assert(lane_at(old, t) is Some);
            assert(t != row.column && has_straight(row.edges@, t, old_d[t]));
        }
    }
}

proof fn lemma_key_parents(node: GraphNode)
    ensures
        node_key(node).3.len() == node.parents@.len(),
        forall|p: int| 0 <= p < node.parents@.len() ==> #[trigger] node_key(node).3[p] == node.parents@[p]@,
{
}

proof fn lemma_step_rows(rows: Seq<RowLayout>, old: Seq<Option<String>>, new: Seq<Option<String>>, node: GraphNode, row: RowLayout, keys: Seq<LaneKey>)
    requires
        rows.len() < keys.len(),
        keys[rows.len() as int] == node_key(node),
        advance_post(old, new, node, row),
        rows_part(rows, old.len() as int, keys),
    ensures
        rows_part(rows.push(row), new.len() as int, keys),
{
    reveal(rows_part);
    lemma_key_parents(node);
    let k = rows.len() as int;
    let r2 = rows.push(row);
    assert forall|i: int| 0 <= i < r2.len() implies (#[trigger] r2[i]).column < new.len() && edges_ok(r2[i].edges@, new.len() as int) by {
        if i < k {
            assert(r2[i] == rows[i]);
            assert forall|e: int| 0 <= e < r2[i].edges@.len() implies (#[trigger] r2[i].edges@[e]).from_column < new.len() && r2[i].edges@[e].to_column < new.len()
                && r2[i].edges@[e].color_index == r2[i].edges@[e].to_column by {
                assert(rows[i].edges@[e].from_column < old.len());
            }
        }
    }
    assert forall|i: int|
        0 <= i < r2.len() implies row_merges_ok(r2[i].edges@, r2[i].column as int, (#[trigger] keys[i]).3.len() as int) by {
        if i < k {
            assert(r2[i] == rows[i]);
        } else {
            assert(r2[i] == row);
            assert(keys[i].3.len() == node.parents@.len());
            assert forall|p: int| 1 <= p < node.parents@.len() implies #[trigger] merge_at_p(
                row.edges@,
                node.parents@.len() as int,
                p,
                row.column as int,
            ) by {
                assert(node_key(node).3[p] == node.parents@[p]@);
                let m = merge_index(row.edges@.len() as int, node.parents@.len() as int, p);
                assert(row.edges@.len() >= node.parents@.len() && merge_at(row.edges@[m], row.column as int));
            }
        }
    }
    assert forall|i: int| 0 <= i < r2.len() && (#[trigger] keys[i]).2 implies r2[i].column >= 1 by {
        if i < k {
            assert(r2[i] == rows[i]);
        }
    }
    assert forall|i: int|
        0 <= i < r2.len() && (#[trigger] keys[i]).1 is Some implies r2[i].edges@.len() > 0 && r2[i].edges@[0]
            == own_edge(r2[i].column, keys[i].2) by {
        if i < k {
            assert(r2[i] == rows[i]);
        }
    }
}

proof fn lemma_step_head(rows: Seq<RowLayout>, old: Seq<Option<String>>, new: Seq<Option<String>>, node: GraphNode, row: RowLayout, keys: Seq<LaneKey>, hv: Option<Seq<char>>)
    requires
        rows.len() < keys.len(),
        keys[rows.len() as int] == node_key(node),
        advance_post(old, new, node, row),
        head_part(rows, old, keys, hv),
    ensures
        head_part(rows.push(row), new, keys, hv),
{
    reveal(head_part);
    let k = rows.len() as int;
    let key = keys[k];
    let r2 = rows.push(row);
    let hk = head_lane(keys, hv, k as nat);
    assert(head_lane(keys, hv, (k + 1) as nat) == if !key.2 && hk == Some(key.0) {
        key.1
    } else {
        hk
    });
    if !key.2 && hk == Some(key.0) {
        assert(lane_at(old, 0) == Some(key.0));
        if row.column != 0 {
            assert(lane_at(old, 0) != Some(node.oid@));
        }
    }
    assert forall|i: int|
        0 <= i < r2.len() && !(#[trigger] keys[i]).2 && head_lane(keys, hv, i as nat) == Some(keys[i].0)
            implies r2[i].column == 0 by {
        if i < k {
            assert(r2[i] == rows[i]);
        }
    }
}

proof fn lemma_step_first_parent(rows: Seq<RowLayout>, old: Seq<Option<String>>, new: Seq<Option<String>>, node: GraphNode, row: RowLayout, keys: Seq<LaneKey>)
    requires
        rows.len() < keys.len(),
        keys[rows.len() as int] == node_key(node),
        advance_post(old, new, node, row),
        rows_part(rows, old.len() as int, keys),
        first_parent_part(rows, keys),
        pending_part(rows, old, keys),
    ensures
        first_parent_part(rows.push(row), keys),
{
    reveal(first_parent_part);
    reveal(pending_part);
    reveal(rows_part);
    let k = rows.len() as int;
    let key = keys[k];
    let r2 = rows.push(row);
    assert forall|i: int, j: int|
        0 <= i < j < r2.len() && (#[trigger] keys[i]).1 == Some((#[trigger] keys[j]).0) && !keys[j].2 && no_row_named(
            keys,
            i + 1,
            j,
            keys[j].0,
        ) implies r2[j].column <= r2[i].column && (r2[j].column != r2[i].column ==> has_fork(
            r2[j].edges@,
            r2[j].column as int,
            r2[i].column as int,
        )) by {
        assert(r2[i] == rows[i]);
        if j < k {
            assert(r2[j] == rows[j]);
        } else {
            let c = rows[i].column as int;
            assert(lane_at(old, c) == Some(node.oid@));
            if c < row.column {
                assert(lane_at(old, c) != Some(node.oid@));
            }
        }
    }
}

proof fn lemma_step_merge(rows: Seq<RowLayout>, old: Seq<Option<String>>, new: Seq<Option<String>>, node: GraphNode, row: RowLayout, keys: Seq<LaneKey>)
    requires
        rows.len() < keys.len(),
        keys[rows.len() as int] == node_key(node),
        advance_post(old, new, node, row),
        rows_part(rows, old.len() as int, keys),
        merge_part(rows, keys),
        pending_part(rows, old, keys),
    ensures
        merge_part(rows.push(row), keys),
{
    reveal(merge_part);
    reveal(pending_part);
    reveal(rows_part);
    let k = rows.len() as int;
    let r2 = rows.push(row);
    assert forall|i: int, j: int, p: int|
        0 <= i < j < r2.len() && 1 <= p < keys[i].3.len() && (#[trigger] keys[i].3[p]) == (#[trigger] keys[j]).0
            && !keys[j].2 && no_row_named(keys, i + 1, j, keys[j].0) implies r2[j].column <= merge_target(
            r2[i].edges@,
            keys[i].3.len() as int,
            p,
        ) && (r2[j].column != merge_target(r2[i].edges@, keys[i].3.len() as int, p) ==> has_fork(
            r2[j].edges@,
            r2[j].column as int,
            merge_target(r2[i].edges@, keys[i].3.len() as int, p),
        )) by {
        assert(r2[i] == rows[i]);
        if j < k {
            assert(r2[j] == rows[j]);
        } else {
            let t = merge_target(rows[i].edges@, keys[i].3.len() as int, p);
            assert(1 <= p < (keys[i]).3.len());
            assert(merge_at_p(rows[i].edges@, keys[i].3.len() as int, p, rows[i].column as int));
            assert(rows[i].edges@.len() >= keys[i].3.len());
            let m = merge_index(rows[i].edges@.len() as int, keys[i].3.len() as int, p);
            assert(0 <= m < rows[i].edges@.len());
            assert(edges_ok(rows[i].edges@, old.len() as int));
            assert(rows[i].edges@[m].to_column < old.len());
            assert(lane_at(old, t) == Some(node.oid@));
            if t < row.column {
                assert(lane_at(old, t) != Some(node.oid@));
            }
        }
    }
}

proof fn lemma_step_pending(rows: Seq<RowLayout>, old: Seq<Option<String>>, new: Seq<Option<String>>, node: GraphNode, row: RowLayout, keys: Seq<LaneKey>)
    requires
        rows.len() < keys.len(),
        keys[rows.len() as int] == node_key(node),
        advance_post(old, new, node, row),
        rows_part(rows, old.len() as int, keys),
        pending_part(rows, old, keys),
    ensures
        pending_part(rows.push(row), new, keys),
{
    reveal(pending_part);
    reveal(rows_part);
    lemma_key_parents(node);
    let k = rows.len() as int;
    let r2 = rows.push(row);
    assert forall|i: int|
        0 <= i < r2.len() && (#[trigger] keys[i]).1 is Some && no_row_named(keys, i + 1, r2.len() as int, keys[i].1->0)
            implies lane_at(new, r2[i].column as int) == keys[i].1 by {
        if i < k {
            let p = keys[i].1->0;
            assert(r2[i] == rows[i]);
            assert(no_row_named(keys, i + 1, k, p));
            assert(!(!keys[k].2 && keys[k].0 == p));
            assert(lane_at(old, rows[i].column as int) == Some(p));
        }
    }
    assert forall|i: int, p: int|
        0 <= i < r2.len() && 1 <= p < keys[i].3.len() && no_row_named(keys, i + 1, r2.len() as int, #[trigger] keys[i].3[p])
            implies lane_at(new, merge_target(r2[i].edges@, keys[i].3.len() as int, p)) == Some(keys[i].3[p]) by {
        if i < k {
            let x = keys[i].3[p];
            assert(r2[i] == rows[i]);
            assert(no_row_named(keys, i + 1, k, x));
            assert(!(!keys[k].2 && keys[k].0 == x));
            let m = merge_index(rows[i].edges@.len() as int, keys[i].3.len() as int, p);
            assert(merge_at_p(rows[i].edges@, keys[i].3.len() as int, p, rows[i].column as int));
            assert(rows[i].edges@.len() >= keys[i].3.len());
            assert(edges_ok(rows[i].edges@, old.len() as int));
            assert(rows[i].edges@[m].to_column < old.len());
            assert(lane_at(old, merge_target(rows[i].edges@, keys[i].3.len() as int, p)) == Some(x));
        } else {
            assert(node_key(node).3[p] == node.parents@[p]@);
        }
    }
}

proof fn lemma_through_done(rows: Seq<RowLayout>, keys: Seq<LaneKey>)
    requires
        rows.len() == keys.len(),
        through_part(rows, keys),
    ensures
        through_ok(row_cols(rows), row_edges(rows), keys),
{
    reveal(through_part);
    reveal(through_ok);
    let cols = row_cols(rows);
    let edges = row_edges(rows);
    assert forall|i: int, j: int|
        #![trigger edges[j], keys[i]]
        0 <= i < j < cols.len() && keys[i].1 is Some && no_row_named(keys, i + 1, j + 1, keys[i].1->0) implies cols[j]
            != cols[i] && has_straight(edges[j], cols[i] as int, keys[i].2) by {
        assert(cols[i] == rows[i].column && cols[j] == rows[j].column && edges[j] == rows[j].edges@);
        assert(has_straight(rows[j].edges@, rows[i].column as int, keys[i].2) == has_straight(edges[j], cols[i] as int, keys[i].2));
    }
    assert forall|i: int, j: int, p: int|
        #![trigger edges[j], keys[i].3[p]]
        0 <= i < j < cols.len() && 1 <= p < keys[i].3.len() && no_row_named(keys, i + 1, j + 1, keys[i].3[p]) implies cols[j]
            != merge_target(edges[i], keys[i].3.len() as int, p) && (has_straight(
            edges[j],
            merge_target(edges[i], keys[i].3.len() as int, p),
            true,
        ) || has_straight(edges[j], merge_target(edges[i], keys[i].3.len() as int, p), false)) by {
        assert(cols[j] == rows[j].column && edges[j] == rows[j].edges@ && edges[i] == rows[i].edges@);
        assert(has_straight(rows[j].edges@, merge_target(rows[i].edges@, keys[i].3.len() as int, p), true)
            == has_straight(edges[j], merge_target(edges[i], keys[i].3.len() as int, p), true));
    }
}

proof fn lemma_layout_done(rows: Seq<RowLayout>, lanes: Seq<Option<String>>, keys: Seq<LaneKey>, hv: Option<Seq<char>>)
    requires
        rows.len() == keys.len(),
        rows_part(rows, lanes.len() as int, keys),
        head_part(rows, lanes, keys, hv),
        first_parent_part(rows, keys),
        merge_part(rows, keys),
        through_part(rows, keys),
    ensures
        layout_ok(row_cols(rows), row_edges(rows), lanes.len() as int, keys, hv),
{
    lemma_through_done(rows, keys);
    reveal(rows_part);
    reveal(head_part);
    reveal(first_parent_part);
    reveal(merge_part);
    let cols = row_cols(rows);
    let edges = row_edges(rows);
    let w = lanes.len() as int;
    assert forall|k: int| 0 <= k < cols.len() implies #[trigger] cols[k] == rows[k].column && edges[k] == rows[k].edges@ by {}
    assert forall|k: int| 0 <= k < cols.len() implies (#[trigger] cols[k]) < w && edges_ok(edges[k], w) by {
        assert(rows[k].column < w);
    }
    assert forall|k: int| 0 <= k < cols.len() && (#[trigger] keys[k]).2 implies cols[k] >= 1 by {
        assert(cols[k] == rows[k].column);
    }
    assert forall|k: int|
        0 <= k < cols.len() && (#[trigger] keys[k]).1 is Some implies edges[k].len() > 0 && edges[k][0] == own_edge(
            cols[k],
            keys[k].2,
        ) by {
        assert(cols[k] == rows[k].column);
    }
    assert forall|k: int|
        0 <= k < cols.len() implies row_merges_ok(edges[k], cols[k] as int, (#[trigger] keys[k]).3.len() as int) by {
        assert(cols[k] == rows[k].column);
        assert(edges[k] == rows[k].edges@);
    }
    assert forall|i: int, j: int|
        0 <= i < j < cols.len() && (#[trigger] keys[i]).1 == Some((#[trigger] keys[j]).0) && !keys[j].2 && no_row_named(
            keys,
            i + 1,
            j,
            keys[j].0,
        ) implies cols[j] <= cols[i] && (cols[j] != cols[i] ==> has_fork(edges[j], cols[j] as int, cols[i] as int)) by {
        assert(cols[i] == rows[i].column);
        assert(cols[j] == rows[j].column);
        assert(edges[j] == rows[j].edges@);
    }
    assert forall|i: int, j: int, p: int|
        0 <= i < j < cols.len() && 1 <= p < keys[i].3.len() && (#[trigger] keys[i].3[p]) == (#[trigger] keys[j]).0
            && !keys[j].2 && no_row_named(keys, i + 1, j, keys[j].0) implies cols[j] <= merge_target(
            edges[i],
            keys[i].3.len() as int,
            p,
        ) && (cols[j] != merge_target(edges[i], keys[i].3.len() as int, p) ==> has_fork(
            edges[j],
            cols[j] as int,
            merge_target(edges[i], keys[i].3.len() as int, p),
        )) by {
        assert(cols[j] == rows[j].column);
        assert(edges[i] == rows[i].edges@);
        assert(edges[j] == rows[j].edges@);
    }
    assert forall|k: int|
        0 <= k < cols.len() && !(#[trigger] keys[k]).2 && head_lane(keys, hv, k as nat) == Some(keys[k].0) implies cols[k]
            == 0 by {
        assert(cols[k] == rows[k].column);
    }
}

/// Lays out the rows `nodes`, newest first, with HEAD at the commit `head`
/// (none when HEAD is unborn): the rows' columns and edges (see `advance`)
/// and the number of columns used.
pub fn lay_out_lanes(nodes: &Vec<GraphNode>, head: &Option<String>) -> (r: (Vec<RowLayout>, usize))
    ensures
        layout_ok(row_cols(r.0@), row_edges(r.0@), r.1 as int, node_keys(nodes@), opt_view(*head)),
{
    let ghost keys = node_keys(nodes@);
    let ghost hv = opt_view(*head);
    let mut lanes: Vec<Option<String>> = Vec::new();
    let mut dashed: Vec<bool> = Vec::new();
    match head {
        Some(h) => {
            lanes.push(Some(h.clone()));
            dashed.push(false);
        },
        None => {},
    }
    let mut rows: Vec<RowLayout> = Vec::new();
    proof {
        reveal(rows_part);
        reveal(head_part);
        reveal(first_parent_part);
        reveal(merge_part);
        reveal(pending_part);
        reveal(dashed_part);
        reveal(through_part);
    }
    let mut k: usize = 0;
    while k < nodes.len()
        invariant
            k <= nodes@.len(),
            keys == node_keys(nodes@),
            hv == opt_view(*head),
            lanes@.len() == dashed@.len(),
            rows@.len() == k,
            rows_part(rows@, lanes@.len() as int, keys),
            head_part(rows@, lanes@, keys, hv),
            first_parent_part(rows@, keys),
            merge_part(rows@, keys),
            pending_part(rows@, lanes@, keys),
            dashed_part(rows@, dashed@, keys),
            through_part(rows@, keys),
        decreases nodes.len() - k,
    {
        let ghost old_lanes = lanes@;
        let ghost old_dashed = dashed@;
        let ghost old_rows = rows@;
        let node = &nodes[k];
        let row = advance(&mut lanes, &mut dashed, node);
        proof {
            assert(keys[k as int] == node_key(*node));
            lemma_step_rows(old_rows, old_lanes, lanes@, *node, row, keys);
            lemma_step_head(old_rows, old_lanes, lanes@, *node, row, keys, hv);
            lemma_step_first_parent(old_rows, old_lanes, lanes@, *node, row, keys);
            lemma_step_merge(old_rows, old_lanes, lanes@, *node, row, keys);
            lemma_step_dashed(old_rows, old_lanes, old_dashed, dashed@, *node, row, keys);
            lemma_step_through(old_rows, old_lanes, old_dashed, dashed@, *node, row, keys);
            lemma_step_pending(old_rows, old_lanes, lanes@, *node, row, keys);
        }
        rows.push(row);
        k += 1;
    }
    proof {
        lemma_layout_done(rows@, lanes@, keys, hv);
    }
    let width = lanes.len();
    (rows, width)
}

/// Some row before row `k` has `oid` among its parents.
pub open spec fn is_parent_above(keys: Seq<LaneKey>, k: int, oid: Seq<char>) -> bool {
    exists|i: int, p: int| 0 <= i < k && 0 <= p < keys[i].3.len() && #[trigger] keys[i].3[p] == oid
}

/// Which rows are branch tips: a stash, or a commit that no row drawn above
/// it has as a parent.
pub fn branch_tips(nodes: &Vec<GraphNode>) -> (tips: Vec<bool>)
    ensures
        tips@.len() == nodes@.len(),
        forall|k: int|
            0 <= k < nodes@.len() ==> #[trigger] tips@[k] == (nodes@[k].is_stash || !is_parent_above(
                node_keys(nodes@),
                k,
                nodes@[k].oid@,
            )),
{
    let ghost keys = node_keys(nodes@);
    let mut seen: StringHashMap<bool> = StringHashMap::new();
    let mut tips: Vec<bool> = Vec::new();
    let mut k: usize = 0;
    while k < nodes.len()
        invariant
            k <= nodes@.len(),
            keys == node_keys(nodes@),
            tips@.len() == k,
            forall|x: Seq<char>| #[trigger] seen@.contains_key(x) <==> is_parent_above(keys, k as int, x),
            forall|i: int|
                0 <= i < k ==> #[trigger] tips@[i] == (nodes@[i].is_stash || !is_parent_above(keys, i, nodes@[i].oid@)),
        decreases nodes.len() - k,
    {
        let node = &nodes[k];
        let tip = node.is_stash || !seen.contains_key(node.oid.as_str());
        tips.push(tip);
        let ghost key = keys[k as int];
        proof {
            lemma_key_parents(*node);
            assert(key == node_key(*node));
        }
        let mut q: usize = 0;
        while q < node.parents.len()
            invariant
                k < nodes@.len(),
                keys == node_keys(nodes@),
                node == &nodes@[k as int],
                key == node_key(*node),
                key.3.len() == node.parents@.len(),
                forall|p: int| 0 <= p < node.parents@.len() ==> #[trigger] key.3[p] == node.parents@[p]@,
                q <= node.parents@.len(),
                forall|x: Seq<char>|
                    #[trigger] seen@.contains_key(x) <==> (is_parent_above(keys, k as int, x) || exists|p: int|
                        0 <= p < q && #[trigger] key.3[p] == x),
            decreases node.parents.len() - q,
        {
            let ghost before = seen@;
            seen.insert(node.parents[q].clone(), true);
            assert forall|x: Seq<char>|
                #[trigger] seen@.contains_key(x) <==> (is_parent_above(keys, k as int, x) || exists|p: int|
                    0 <= p < q + 1 && #[trigger] key.3[p] == x) by {
                if x == node.parents@[q as int]@ {
                    assert(key.3[q as int] == x);
                } else {
                    if exists|p: int| 0 <= p < q + 1 && #[trigger] key.3[p] == x {
                        let p = choose|p: int| 0 <= p < q + 1 && #[trigger] key.3[p] == x;
                        assert(p != q);
                    }
                }
            }
            q += 1;
        }
        proof {
            assert forall|x: Seq<char>| #[trigger] seen@.contains_key(x) <==> is_parent_above(keys, k + 1, x) by {
                if is_parent_above(keys, k + 1, x) {
                    let (i, p) = choose|i: int, p: int|
                        0 <= i < k + 1 && 0 <= p < keys[i].3.len() && #[trigger] keys[i].3[p] == x;
                    if i < k {
                        assert(is_parent_above(keys, k as int, x));
                    } else {
                        assert(key.3[p] == x);
                    }
                }
                if exists|p: int| 0 <= p < node.parents@.len() && #[trigger] key.3[p] == x {
                    let p = choose|p: int| 0 <= p < node.parents@.len() && #[trigger] key.3[p] == x;
                    assert(keys[k as int].3[p] == x);
                }
                if is_parent_above(keys, k as int, x) {
                    let (i, p) = choose|i: int, p: int|
                        0 <= i < k && 0 <= p < keys[i].3.len() && #[trigger] keys[i].3[p] == x;
                    assert(keys[i].3[p] == x);
                }
            }
        }
        k += 1;
    }
    tips
}

} // verus!
