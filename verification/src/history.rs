//! The commit graph as the frontend receives it, paging through it, and
//! searching it by SHA prefix, message, ref name and author.

use vstd::prelude::*;
use vstd::string::*;
use crate::error::TrunkError;
use crate::graph::GraphEdge;
use crate::text::{
    chars_of, contains, contains_str, is_blank, lowercase_of, starts_with, starts_with_str,
    to_lowercase, trim, trim_str,
};

verus! {

/// What kind of ref a label names.
#[derive(PartialEq, Eq, Structural, Clone, Copy, Debug)]
pub enum RefType {
    LocalBranch,
    RemoteBranch,
    Tag,
    Stash,
}

/// A ref drawn next to a commit in the graph.
#[derive(Debug)]
pub struct RefLabel {
    pub name: String,
    pub short_name: String,
    pub ref_type: RefType,
    pub is_head: bool,
    pub color_index: usize,
}

/// One commit row of the graph.
#[derive(Debug)]
pub struct GraphCommit {
    pub oid: String,
    pub short_oid: String,
    pub summary: String,
    pub body: Option<String>,
    pub author_name: String,
    pub author_email: String,
    pub author_timestamp: i64,
    pub parent_oids: Vec<String>,
    pub refs: Vec<RefLabel>,
    pub column: usize,
    pub color_index: usize,
    pub is_merge: bool,
    pub is_stash: bool,
    pub is_branch_tip: bool,
    pub edges: Vec<GraphEdge>,
}

/// A whole walked history: its commits, newest first, and the widest row.
#[derive(Debug)]
pub struct GraphResult {
    pub commits: Vec<GraphCommit>,
    pub max_columns: usize,
}

/// One page of the graph, as sent to the frontend.
#[derive(Debug)]
pub struct GraphResponse {
    pub commits: Vec<GraphCommit>,
    pub max_columns: usize,
}

/// Which field of a commit a search query matched.
#[derive(PartialEq, Eq, Structural, Clone, Copy, Debug)]
pub enum MatchType {
    Sha,
    Message,
    Ref,
    Author,
}

/// A commit that matched a search, with the fields it matched in.
#[derive(Debug)]
pub struct SearchResult {
    pub oid: String,
    pub match_types: Vec<MatchType>,
}

/// The number of commits in one page of the graph.
pub const PAGE_SIZE: usize = 200;

/// A copy of a ref label.
pub fn copy_ref_label(r: &RefLabel) -> (c: RefLabel)
    ensures
        c == *r,
{
    RefLabel {
        name: r.name.clone(),
        short_name: r.short_name.clone(),
        ref_type: r.ref_type,
        is_head: r.is_head,
        color_index: r.color_index,
    }
}

/// A copy of a vector of strings.
pub fn copy_strings(v: &Vec<String>) -> (c: Vec<String>)
    ensures
        c@ == v@,
{
    let mut c: Vec<String> = Vec::new();
    let mut i: usize = 0;
    while i < v.len()
        invariant
            i <= v@.len(),
            c@ == v@.subrange(0, i as int),
        decreases v.len() - i,
    {
        c.push(v[i].clone());
        i += 1;
        assert(c@ == v@.subrange(0, i as int));
    }
    assert(v@.subrange(0, v@.len() as int) == v@);
    c
}

/// A copy of a vector of ref labels.
pub fn copy_ref_labels(v: &Vec<RefLabel>) -> (c: Vec<RefLabel>)
    ensures
        c@ == v@,
{
    let mut c: Vec<RefLabel> = Vec::new();
    let mut i: usize = 0;
    while i < v.len()
        invariant
            i <= v@.len(),
            c@ == v@.subrange(0, i as int),
        decreases v.len() - i,
    {
        c.push(copy_ref_label(&v[i]));
        i += 1;
        assert(c@ == v@.subrange(0, i as int));
    }
    assert(v@.subrange(0, v@.len() as int) == v@);
    c
}

/// Two graph commits hold the same fields (vectors compared by content).
pub open spec fn same_commit(a: GraphCommit, b: GraphCommit) -> bool {
    &&& a.oid == b.oid
    &&& a.short_oid == b.short_oid
    &&& a.summary == b.summary
    &&& a.body == b.body
    &&& a.author_name == b.author_name
    &&& a.author_email == b.author_email
    &&& a.author_timestamp == b.author_timestamp
    &&& a.parent_oids@ == b.parent_oids@
    &&& a.refs@ == b.refs@
    &&& a.column == b.column
    &&& a.color_index == b.color_index
    &&& a.is_merge == b.is_merge
    &&& a.is_stash == b.is_stash
    &&& a.is_branch_tip == b.is_branch_tip
    &&& a.edges@ == b.edges@
}

/// Two lists of graph commits hold the same commits in the same order.
pub open spec fn same_commits(a: Seq<GraphCommit>, b: Seq<GraphCommit>) -> bool {
    a.len() == b.len() && forall|k: int| 0 <= k < a.len() ==> same_commit(#[trigger] a[k], b[k])
}

/// A copy of a graph commit.
pub fn copy_commit(g: &GraphCommit) -> (c: GraphCommit)
    ensures
        same_commit(c, *g),
{
    let body = match &g.body {
        Some(b) => Some(b.clone()),
        None => None,
    };
    GraphCommit {
        oid: g.oid.clone(),
        short_oid: g.short_oid.clone(),
        summary: g.summary.clone(),
        body,
        author_name: g.author_name.clone(),
        author_email: g.author_email.clone(),
        author_timestamp: g.author_timestamp,
        parent_oids: copy_strings(&g.parent_oids),
        refs: copy_ref_labels(&g.refs),
        column: g.column,
        color_index: g.color_index,
        is_merge: g.is_merge,
        is_stash: g.is_stash,
        is_branch_tip: g.is_branch_tip,
        edges: copy_edges(&g.edges),
    }
}

/// A copy of a row's edges.
pub fn copy_edges(v: &Vec<GraphEdge>) -> (c: Vec<GraphEdge>)
    ensures
        c@ == v@,
{
    let mut c: Vec<GraphEdge> = Vec::new();
    let mut i: usize = 0;
    while i < v.len()
        invariant
            i <= v@.len(),
            c@ == v@.subrange(0, i as int),
        decreases v.len() - i,
    {
        c.push(v[i]);
        i += 1;
        assert(c@ == v@.subrange(0, i as int));
    }
    assert(v@.subrange(0, v@.len() as int) == v@);
    c
}

/// The first index of a page that starts at `offset` in a list of `len`.
pub open spec fn page_start(offset: int, len: int) -> int {
    if offset < len {
        offset
    } else {
        len
    }
}

/// One past the last index of that page.
pub open spec fn page_end(offset: int, len: int) -> int {
    if offset + PAGE_SIZE < len {
        offset + PAGE_SIZE
    } else {
        len
    }
}

/// The page of at most 200 commits that starts at `offset`: the commits
/// `[min(offset, len), min(offset + 200, len))` and the graph's width.
pub fn graph_page(result: &GraphResult, offset: usize) -> (page: GraphResponse)
    requires
        offset + PAGE_SIZE <= usize::MAX,
    ensures
        page.max_columns == result.max_columns,
        same_commits(
            page.commits@,
            result.commits@.subrange(
                page_start(offset as int, result.commits@.len() as int),
                page_end(offset as int, result.commits@.len() as int),
            ),
        ),
{
    let len = result.commits.len();
    let start = if offset < len {
        offset
    } else {
        len
    };
    let end = if offset + PAGE_SIZE < len {
        offset + PAGE_SIZE
    } else {
        len
    };
    let mut commits: Vec<GraphCommit> = Vec::new();
    let mut i = start;
    while i < end
        invariant
            start <= i <= end,
            end <= result.commits@.len(),
            same_commits(commits@, result.commits@.subrange(start as int, i as int)),
        decreases end - i,
    {
        commits.push(copy_commit(&result.commits[i]));
        i += 1;
        assert(same_commits(commits@, result.commits@.subrange(start as int, i as int))) by {
            let sub = result.commits@.subrange(start as int, i as int);
            assert forall|k: int| 0 <= k < commits@.len() implies same_commit(
                #[trigger] commits@[k],
                sub[k],
            ) by {
                if k < commits@.len() - 1 {
                    assert(sub[k] == result.commits@.subrange(start as int, i - 1)[k]);
                }
            }
        }
    }
    GraphResponse { commits, max_columns: result.max_columns }
}

/// Pages at consecutive offsets tile the history: each page ends where the
/// next one starts, holds at most `PAGE_SIZE` commits, and only a page that
/// starts past the end is empty.
pub proof fn lemma_pages_tile(offset: int, len: int)
    requires
        0 <= offset,
        0 <= len,
    ensures
        page_end(offset, len) == page_start(offset + PAGE_SIZE, len),
        page_start(offset, len) <= page_end(offset, len) <= page_start(offset, len) + PAGE_SIZE,
        (page_start(offset, len) == page_end(offset, len)) <==> offset >= len,
{
}

/// Some ref label of the commit has a short name that contains `q`,
/// compared in lowercase.
pub open spec fn refs_match(refs: Seq<RefLabel>, q: Seq<char>) -> bool {
    exists|k: int| 0 <= k < refs.len() && contains(lowercase_of(#[trigger] refs[k].short_name@), q)
}

/// The summary or, when there is one, the body contains `q`, in lowercase.
pub open spec fn message_matches(c: GraphCommit, q: Seq<char>) -> bool {
    contains(lowercase_of(c.summary@), q) || match c.body {
        Some(b) => contains(lowercase_of(b@), q),
        None => false,
    }
}

/// The fields of a commit that the lowercase query `q` matches, in the order
/// SHA prefix, message, ref, author.
pub open spec fn match_types_for(c: GraphCommit, q: Seq<char>) -> Seq<MatchType> {
    let sha: Seq<MatchType> = if starts_with(lowercase_of(c.oid@), q) {
        seq![MatchType::Sha]
    } else {
        Seq::empty()
    };
    let msg: Seq<MatchType> = if message_matches(c, q) {
        seq![MatchType::Message]
    } else {
        Seq::empty()
    };
    let rf: Seq<MatchType> = if refs_match(c.refs@, q) {
        seq![MatchType::Ref]
    } else {
        Seq::empty()
    };
    let author: Seq<MatchType> = if contains(lowercase_of(c.author_name@), q) {
        seq![MatchType::Author]
    } else {
        Seq::empty()
    };
    sha + msg + rf + author
}

/// The search results for the lowercase query `q` over `commits`: each commit
/// that matches some field, as its oid and match types, in graph order.
pub open spec fn search_spec(commits: Seq<GraphCommit>, q: Seq<char>) -> Seq<(Seq<char>, Seq<MatchType>)>
    decreases commits.len(),
{
    if commits.len() == 0 {
        Seq::empty()
    } else {
        let before = search_spec(commits.drop_last(), q);
        let m = match_types_for(commits.last(), q);
        if m.len() > 0 {
            before.push((commits.last().oid@, m))
        } else {
            before
        }
    }
}

/// `idx` picks, in increasing order, the commits of `commits` that `rs`
/// reports, each with its oid and its match types.
pub open spec fn picks_in_order(
    rs: Seq<(Seq<char>, Seq<MatchType>)>,
    commits: Seq<GraphCommit>,
    q: Seq<char>,
    idx: Seq<int>,
) -> bool {
    &&& idx.len() == rs.len()
    &&& forall|k: int| 0 <= k < idx.len() ==> 0 <= #[trigger] idx[k] < commits.len()
    &&& forall|a: int, b: int| 0 <= a < b < idx.len() ==> idx[a] < idx[b]
    &&& forall|k: int|
        0 <= k < rs.len() ==> #[trigger] rs[k] == (
            commits[idx[k]].oid@,
            match_types_for(commits[idx[k]], q),
        )
}

/// Search results come in graph order and are exactly the commits that
/// match: each result is a commit with a non-empty list of match types, the
/// results' commits appear in the order of the graph, and every commit that
/// matches some field is among them.
pub proof fn lemma_search_is_ordered_filter(commits: Seq<GraphCommit>, q: Seq<char>) -> (idx: Seq<int>)
    ensures
        picks_in_order(search_spec(commits, q), commits, q, idx),
        forall|k: int| 0 <= k < idx.len() ==> match_types_for(commits[#[trigger] idx[k]], q).len() > 0,
        forall|i: int|
            0 <= i < commits.len() && match_types_for(#[trigger] commits[i], q).len() > 0 ==> exists|k: int|
                0 <= k < idx.len() && idx[k] == i,
    decreases commits.len(),
{
    if commits.len() == 0 {
        Seq::empty()
    } else {
        let p = commits.drop_last();
        let prev = lemma_search_is_ordered_filter(p, q);
        let last = commits.len() - 1;
        assert(commits.last() == commits[last]);
        assert forall|i: int| 0 <= i < p.len() implies #[trigger] p[i] == commits[i] by {}
        let m = match_types_for(commits.last(), q);
        if m.len() > 0 {
            let idx = prev.push(last);
            let rs = search_spec(commits, q);
            assert(rs == search_spec(p, q).push((commits.last().oid@, m)));
            assert forall|i: int|
                0 <= i < commits.len() && match_types_for(#[trigger] commits[i], q).len() > 0 implies exists|k: int|
                0 <= k < idx.len() && idx[k] == i by {
                if i < last {
                    assert(p[i] == commits[i]);
                    let k = choose|k: int| 0 <= k < prev.len() && prev[k] == i;
                    assert(idx[k] == i);
                } else {
                    assert(idx[prev.len() as int] == i);
                }
            }
            assert forall|k: int| 0 <= k < rs.len() implies #[trigger] rs[k] == (
                commits[idx[k]].oid@,
                match_types_for(commits[idx[k]], q),
            ) by {
                if k < prev.len() {
                    assert(p[prev[k]] == commits[prev[k]]);
                }
            }
            assert forall|k: int| 0 <= k < idx.len() implies match_types_for(
                commits[#[trigger] idx[k]],
                q,
            ).len() > 0 by {
                if k < prev.len() {
                    assert(p[prev[k]] == commits[prev[k]]);
                }
            }
            idx
        } else {
            assert forall|i: int|
                0 <= i < commits.len() && match_types_for(#[trigger] commits[i], q).len() > 0 implies exists|k: int|
                0 <= k < prev.len() && prev[k] == i by {
                if i < last {
                    assert(p[i] == commits[i]);
                }
            }
            assert forall|k: int| 0 <= k < prev.len() implies match_types_for(
                commits[#[trigger] prev[k]],
                q,
            ).len() > 0 by {
                assert(p[prev[k]] == commits[prev[k]]);
            }
            let rs = search_spec(commits, q);
            assert forall|k: int| 0 <= k < rs.len() implies #[trigger] rs[k] == (
                commits[prev[k]].oid@,
                match_types_for(commits[prev[k]], q),
            ) by {
                assert(p[prev[k]] == commits[prev[k]]);
            }
            prev
        }
    }
}

/// The oids and match types of a list of search results.
pub open spec fn results_view(rs: Seq<SearchResult>) -> Seq<(Seq<char>, Seq<MatchType>)> {
    rs.map_values(|r: SearchResult| (r.oid@, r.match_types@))
}

/// Whether some ref label's short name contains the lowercase query.
fn any_ref_matches(refs: &Vec<RefLabel>, q: &str) -> (b: bool)
    ensures
        b == refs_match(refs@, q@),
{
    let mut i: usize = 0;
    while i < refs.len()
        invariant
            i <= refs@.len(),
            forall|k: int| 0 <= k < i ==> !contains(lowercase_of(#[trigger] refs@[k].short_name@), q@),
        decreases refs.len() - i,
    {
        let lower = to_lowercase(refs[i].short_name.as_str());
        if contains_str(lower.as_str(), q) {
            return true;
        }
        i += 1;
    }
    false
}

/// The match types of one commit for the lowercase query `q`.
pub fn match_types_of(c: &GraphCommit, q: &str) -> (m: Vec<MatchType>)
    ensures
        m@ == match_types_for(*c, q@),
{
    let mut m: Vec<MatchType> = Vec::new();
    let oid_lower = to_lowercase(c.oid.as_str());
    if starts_with_str(oid_lower.as_str(), q) {
        m.push(MatchType::Sha);
    }
    let summary_lower = to_lowercase(c.summary.as_str());
    let mut msg = contains_str(summary_lower.as_str(), q);
    if !msg {
        match &c.body {
            Some(b) => {
                let body_lower = to_lowercase(b.as_str());
                msg = contains_str(body_lower.as_str(), q);
            },
            None => {},
        }
    }
    if msg {
        m.push(MatchType::Message);
    }
    if any_ref_matches(&c.refs, q) {
        m.push(MatchType::Ref);
    }
    let author_lower = to_lowercase(c.author_name.as_str());
    if contains_str(author_lower.as_str(), q) {
        m.push(MatchType::Author);
    }
    proof {
        let s = match_types_for(*c, q@);
        assert(m@ =~= s);
    }
    m
}

/// The search results of the lowercase query `q` over `commits`.
pub fn search_graph(commits: &Vec<GraphCommit>, q: &str) -> (rs: Vec<SearchResult>)
    ensures
        results_view(rs@) == search_spec(commits@, q@),
{
    let mut rs: Vec<SearchResult> = Vec::new();
    let mut i: usize = 0;
    while i < commits.len()
        invariant
            i <= commits@.len(),
            results_view(rs@) == search_spec(commits@.subrange(0, i as int), q@),
        decreases commits.len() - i,
    {
        let ghost before = commits@.subrange(0, i as int);
        let ghost upto = commits@.subrange(0, i + 1);
        assert(upto.drop_last() == before);
        assert(upto.last() == commits@[i as int]);
        let m = match_types_of(&commits[i], q);
        if m.len() > 0 {
            let ghost old_rs = rs@;
            rs.push(SearchResult { oid: commits[i].oid.clone(), match_types: m });
            assert(results_view(rs@) =~= results_view(old_rs).push(
                (commits@[i as int].oid@, match_types_for(commits@[i as int], q@)),
            ));
        }
        i += 1;
    }
    assert(commits@.subrange(0, commits@.len() as int) == commits@);
    rs
}

/// The lowercase form of the trimmed query that a search runs with.
pub open spec fn normalized_query(query: Seq<char>) -> Seq<char> {
    lowercase_of(trim(query))
}

/// The cached commit graphs of the open repositories, keyed by path.
pub struct CommitCache {
    pub graphs: vstd::hash_map::StringHashMap<GraphResult>,
}

impl CommitCache {
    /// An empty cache.
    pub fn new() -> (c: CommitCache)
        ensures
            c.graphs@ == Map::<Seq<char>, GraphResult>::empty(),
    {
        CommitCache { graphs: vstd::hash_map::StringHashMap::new() }
    }

    /// Stores the graph of `path`, replacing any earlier one.
    pub fn insert(&mut self, path: String, graph: GraphResult)
        ensures
            final(self).graphs@ == old(self).graphs@.insert(path@, graph),
    {
        self.graphs.insert(path, graph);
    }

    /// The cached graph of `path`, if there is one.
    pub fn get(&self, path: &str) -> (g: Option<&GraphResult>)
        ensures
            match g {
                Some(r) => self.graphs@.contains_key(path@) && *r == self.graphs@[path@],
                None => !self.graphs@.contains_key(path@),
            },
    {
        self.graphs.get(path)
    }
}

/// The error for a path that is not an open repository.
pub open spec fn not_open_message(path: Seq<char>) -> Seq<char> {
    "Repository not open: "@ + path
}

/// Builds the `not_open` error for `path`.
pub fn not_open_error(path: &str) -> (e: TrunkError)
    ensures
        e.code@ == "not_open"@,
        e.message@ == not_open_message(path@),
{
    let mut msg = String::new();
    crate::text::append_str(&mut msg, "Repository not open: ");
    crate::text::append_str(&mut msg, path);
    TrunkError::with_message("not_open", msg)
}

/// The page of the cached graph of `path` that starts at `offset`; a path
/// with no cached graph fails with `repo_not_open`.
pub fn get_commit_graph(path: &str, offset: usize, cache: &CommitCache) -> (r: Result<
    GraphResponse,
    TrunkError,
>)
    requires
        offset + PAGE_SIZE <= usize::MAX,
    ensures
        r is Err <==> !cache.graphs@.contains_key(path@),
        r matches Err(e) ==> e.code@ == "repo_not_open"@ && e.message@ == "Repository not open"@,
        r matches Ok(page) ==> ({
            let g = cache.graphs@[path@];
            &&& page.max_columns == g.max_columns
            &&& same_commits(
                page.commits@,
                g.commits@.subrange(
                    page_start(offset as int, g.commits@.len() as int),
                    page_end(offset as int, g.commits@.len() as int),
                ),
            )
        }),
{
    match cache.get(path) {
        Some(g) => Ok(graph_page(g, offset)),
        None => Err(TrunkError::new("repo_not_open", "Repository not open")),
    }
}

/// Searches the cached graph of `path` for `query`. A blank query finds
/// nothing; otherwise the trimmed query is lowercased and each commit is
/// matched against its SHA (as a prefix), its summary and body, its ref
/// labels' short names and its author name, all in lowercase. Results keep
/// graph order. A path with no cached graph is an error.
pub fn search_commits_inner(path: &str, query: &str, cache_map: &CommitCache) -> (r: Result<
    Vec<SearchResult>,
    TrunkError,
>)
    ensures
        r is Err <==> !cache_map.graphs@.contains_key(path@),
        r matches Err(e) ==> e.code@ == "not_open"@ && e.message@ == not_open_message(path@),
        r matches Ok(rs) ==> (if trim(query@).len() == 0 {
            rs@.len() == 0
        } else {
            results_view(rs@) == search_spec(
                cache_map.graphs@[path@].commits@,
                normalized_query(query@),
            )
        }),
{
    let graph = match cache_map.get(path) {
        Some(g) => g,
        None => return Err(not_open_error(path)),
    };
    if is_blank(query) {
        return Ok(Vec::new());
    }
    let trimmed = trim_str(query);
    let q = to_lowercase(trimmed.as_str());
    Ok(search_graph(&graph.commits, q.as_str()))
}


/// A query found in a commit's body is a message match, whatever its summary.
pub proof fn law_body_text_is_searched(c: GraphCommit, q: Seq<char>)
    requires
        c.body matches Some(b) && contains(lowercase_of(b@), q),
    ensures
        match_types_for(c, q).contains(MatchType::Message),
{
    lemma_message_is_listed(c, q);
}

/// A query found in a commit's summary is a message match.
pub proof fn law_summary_text_is_searched(c: GraphCommit, q: Seq<char>)
    requires
        contains(lowercase_of(c.summary@), q),
    ensures
        match_types_for(c, q).contains(MatchType::Message),
{
    lemma_message_is_listed(c, q);
}

proof fn lemma_message_is_listed(c: GraphCommit, q: Seq<char>)
    requires
        contains(lowercase_of(c.summary@), q) || (c.body matches Some(b) && contains(lowercase_of(b@), q)),
    ensures
        match_types_for(c, q).contains(MatchType::Message),
{
    let sha: Seq<MatchType> = if starts_with(lowercase_of(c.oid@), q) {
        seq![MatchType::Sha]
    } else {
        Seq::empty()
    };
    let m = match_types_for(c, q);
    assert(m[sha.len() as int] == MatchType::Message);
}

/// Every commit that matches the query in some field is among the search
/// results, with its oid and its match types.
pub proof fn law_matching_commits_are_results(commits: Seq<GraphCommit>, q: Seq<char>, k: int)
    requires
        0 <= k < commits.len(),
        match_types_for(commits[k], q).len() > 0,
    ensures
        search_spec(commits, q).contains((commits[k].oid@, match_types_for(commits[k], q))),
    decreases commits.len(),
{
    let last = commits.len() - 1;
    let before = search_spec(commits.drop_last(), q);
    if k == last {
        assert(search_spec(commits, q) == before.push((commits.last().oid@, match_types_for(commits.last(), q))));
        assert(search_spec(commits, q)[before.len() as int] == (commits[k].oid@, match_types_for(commits[k], q)));
    } else {
        assert(commits.drop_last()[k] == commits[k]);
        law_matching_commits_are_results(commits.drop_last(), q, k);
        let j = choose|j: int|
            0 <= j < before.len() && before[j] == (commits[k].oid@, match_types_for(commits[k], q));
        let m = match_types_for(commits.last(), q);
        if m.len() > 0 {
            assert(search_spec(commits, q)[j] == before[j]);
        }
    }
}

} // verus!
