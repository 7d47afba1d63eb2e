//! Reading a repository through git2: whether a directory is a repository,
//! the ref labels of each commit, the branch an oid names, the commits an
//! interactive rebase replays, and a snapshot of the working tree.

use vstd::prelude::*;
use vstd::string::*;
use crate::error::TrunkError;
use crate::git;
use crate::graph::{through_ok, branch_tips, is_parent_above, lanes_ok, lay_out_lanes, layout_ok, node_keys, opt_view, row_cols, row_edges, GraphEdge, GraphNode, LaneKey};
use crate::history::{copy_edges, copy_ref_label, copy_strings, GraphCommit, GraphResult, RefLabel, RefType};
use crate::messages::{decimal_i64, short_oid, short_oid_spec, signed_decimal};
use crate::repo_ops::{from_git_error, git_op_outcome, lemma_codes_differ_from_not_open, lookup_outcome, open_repo_from_state};
use crate::review_doc::str_eq;
use crate::state::RepoRegistry;
use crate::text::{append_str, copy_opt_string};

verus! {

/// Checks that `path` is a git repository git2 can open; when it is not, the
/// error is `not_a_git_repo` with git2's message.
pub fn validate_and_open(path: &str) -> (r: Result<(), TrunkError>)
    ensures
        r matches Err(e) ==> e.code@ == "not_a_git_repo"@,
{
    match git::repo_open(path) {
        Ok(_) => Ok(()),
        Err(e) => Err(TrunkError::with_message("not_a_git_repo", git::error_message(&e))),
    }
}

/// The ref labels of commits, by commit oid, in the order they were added.
#[derive(Debug)]
pub struct RefMap {
    pub pairs: Vec<(String, RefLabel)>,
}

/// The labels added for `oid`, in order.
pub open spec fn labels_of(pairs: Seq<(String, RefLabel)>, oid: Seq<char>) -> Seq<RefLabel>
    decreases pairs.len(),
{
    if pairs.len() == 0 {
        Seq::empty()
    } else {
        let before = labels_of(pairs.drop_last(), oid);
        if pairs.last().0@ == oid {
            before.push(pairs.last().1)
        } else {
            before
        }
    }
}

impl RefMap {
    /// No labels.
    pub fn new() -> (m: RefMap)
        ensures
            m.pairs@.len() == 0,
    {
        RefMap { pairs: Vec::new() }
    }

    /// Adds `label` to the labels of `oid`, after those it already has.
    pub fn add(&mut self, oid: String, label: RefLabel)
        ensures
            final(self).pairs@ == old(self).pairs@.push((oid, label)),
            labels_of(final(self).pairs@, oid@) == labels_of(old(self).pairs@, oid@).push(label),
            forall|o: Seq<char>|
                o != oid@ ==> labels_of(final(self).pairs@, o) == labels_of(old(self).pairs@, o),
    {
        let ghost before = self.pairs@;
        self.pairs.push((oid, label));
        assert(self.pairs@.drop_last() == before);
    }

    /// The labels of `oid`, in the order they were added.
    pub fn labels_for(&self, oid: &str) -> (v: Vec<RefLabel>)
        ensures
            v@ == labels_of(self.pairs@, oid@),
    {
        let mut v: Vec<RefLabel> = Vec::new();
        let mut i: usize = 0;
        while i < self.pairs.len()
            invariant
                i <= self.pairs@.len(),
                v@ == labels_of(self.pairs@.subrange(0, i as int), oid@),
            decreases self.pairs.len() - i,
        {
            assert(self.pairs@.subrange(0, i + 1).drop_last() == self.pairs@.subrange(0, i as int));
            if str_eq(self.pairs[i].0.as_str(), oid) {
                v.push(copy_ref_label(&self.pairs[i].1));
            }
            i += 1;
        }
        assert(self.pairs@.subrange(0, self.pairs@.len() as int) == self.pairs@);
        v
    }
}

/// Labeling `oid` in turn with `a` and `b` leaves its earlier labels first,
/// then `a`, then `b`; other oids keep their labels.
pub proof fn lemma_ref_map_add_keeps_order(
    pairs: Seq<(String, RefLabel)>,
    oid: String,
    a: RefLabel,
    b: RefLabel,
    other: Seq<char>,
)
    requires
        other != oid@,
    ensures
        labels_of(pairs.push((oid, a)).push((oid, b)), oid@) == labels_of(pairs, oid@).push(a).push(b),
        labels_of(pairs.push((oid, a)).push((oid, b)), other) == labels_of(pairs, other),
{
    let p1 = pairs.push((oid, a));
    let p2 = p1.push((oid, b));
    assert(p2.drop_last() == p1);
    assert(p1.drop_last() == pairs);
    assert(labels_of(p2, oid@) == labels_of(p1, oid@).push(b));
    assert(labels_of(p1, oid@) == labels_of(pairs, oid@).push(a));
    assert(labels_of(p2, other) == labels_of(p1, other));
    assert(labels_of(p1, other) == labels_of(pairs, other));
}

/// The kind of ref that a reference's flags show: a branch that is not
/// remote is local; a remote one is a remote branch; a tag is a tag; other
/// references (notes, HEAD, stash) get no label.
pub open spec fn ref_type_of(is_branch: bool, is_remote: bool, is_tag: bool) -> Option<RefType> {
    if is_branch && !is_remote {
        Some(RefType::LocalBranch)
    } else if is_remote {
        Some(RefType::RemoteBranch)
    } else if is_tag {
        Some(RefType::Tag)
    } else {
        None
    }
}

/// Classifies a reference by its flags (see `ref_type_of`).
pub fn classify_ref(is_branch: bool, is_remote: bool, is_tag: bool) -> (t: Option<RefType>)
    ensures
        t == ref_type_of(is_branch, is_remote, is_tag),
{
    if is_branch && !is_remote {
        Some(RefType::LocalBranch)
    } else if is_remote {
        Some(RefType::RemoteBranch)
    } else if is_tag {
        Some(RefType::Tag)
    } else {
        None
    }
}

/// The label of a reference: its full name, its shorthand (the full name
/// when git2 gave none), and whether it is the local branch HEAD points at.
pub fn make_ref_label(name: String, shorthand: Option<String>, ref_type: RefType, head_ref_name: &Option<String>) -> (l:
    RefLabel)
    ensures
        l.name == name,
        l.short_name == match shorthand {
            Some(s) => s,
            None => name,
        },
        l.ref_type == ref_type,
        l.is_head == (ref_type == RefType::LocalBranch && match head_ref_name {
            Some(h) => h@ == name@,
            None => false,
        }),
        l.color_index == 0,
{
    let short_name = match shorthand {
        Some(s) => s,
        None => name.clone(),
    };
    let is_head = ref_type == RefType::LocalBranch && match head_ref_name {
        Some(h) => str_eq(h.as_str(), name.as_str()),
        None => false,
    };
    RefLabel { name, short_name, ref_type, is_head, color_index: 0 }
}

/// The label of a stash: its message as name and `stash` as short name.
pub fn stash_label(message: String) -> (l: RefLabel)
    ensures
        l.name == message,
        l.short_name@ == "stash"@,
        l.ref_type == RefType::Stash,
        !l.is_head,
        l.color_index == 0,
{
    RefLabel { name: message, short_name: "stash".to_owned(), ref_type: RefType::Stash, is_head: false, color_index: 0 }
}

/// The full name of the reference HEAD resolves to, if any.
fn head_ref_name(repo: &git2::Repository) -> (r: Option<String>) {
    let head = match git::repo_head(repo) {
        Ok(h) => h,
        Err(_) => return None,
    };
    match git::reference_resolve(&head) {
        Ok(r) => git::reference_name(&r),
        Err(_) => None,
    }
}

/// A label as a ref map holds it: keyed by a forty-character oid, with no
/// color yet; only a local branch can be HEAD; a stash is called `stash` and
/// is never HEAD.
pub open spec fn map_label_ok(oid: String, l: RefLabel) -> bool {
    &&& oid@.len() == 40
    &&& l.color_index == 0
    &&& l.is_head ==> l.ref_type == RefType::LocalBranch
    &&& l.ref_type == RefType::Stash ==> l.short_name@ == "stash"@ && !l.is_head
}

/// What holds of a ref map whatever the repository holds: each label is
/// well formed, and the stash labels all come after the others.
pub open spec fn ref_map_ok(pairs: Seq<(String, RefLabel)>) -> bool {
    &&& forall|k: int| 0 <= k < pairs.len() ==> map_label_ok(#[trigger] pairs[k].0, pairs[k].1)
    &&& forall|i: int, j: int|
        0 <= i < j < pairs.len() && (#[trigger] pairs[i]).1.ref_type == RefType::Stash
            ==> (#[trigger] pairs[j]).1.ref_type == RefType::Stash
}

/// What git2 reported of one reference: its full name and shorthand (when
/// they are UTF-8), its kind flags, the oid it points at and, for a tag, the
/// oid of the commit it peels to, as text.
#[derive(Debug)]
pub struct RefFacts {
    pub name: Option<String>,
    pub shorthand: Option<String>,
    pub is_branch: bool,
    pub is_remote: bool,
    pub is_tag: bool,
    pub target: Option<String>,
    pub peeled: Option<String>,
}

/// The oids of the facts are forty characters long.
pub open spec fn ref_facts_ok(f: RefFacts) -> bool {
    &&& f.target matches Some(t) ==> t@.len() == 40
    &&& f.peeled matches Some(p) ==> p@.len() == 40
}

/// A label seen as plain values: name, short name, kind, HEAD flag, color.
pub open spec fn label_view(l: RefLabel) -> (Seq<char>, Seq<char>, RefType, bool, usize) {
    (l.name@, l.short_name@, l.ref_type, l.is_head, l.color_index)
}

/// A pair of a ref map seen as plain values.
pub open spec fn pair_view(p: (String, RefLabel)) -> (Seq<char>, (Seq<char>, Seq<char>, RefType, bool, usize)) {
    (p.0@, label_view(p.1))
}

/// The pair a reference adds to the ref map, if any: a reference with a
/// target and a kind is keyed by its target (a tag by the commit it peels
/// to, when it peels), named by its full name (empty when not UTF-8) and
/// short name (its full name when it has none), and is HEAD when it is the
/// local branch HEAD resolves to.
pub open spec fn fact_pair(f: RefFacts, head: Option<Seq<char>>) -> Option<
    (Seq<char>, (Seq<char>, Seq<char>, RefType, bool, usize)),
> {
    match f.target {
        None => None,
        Some(t) => match ref_type_of(f.is_branch, f.is_remote, f.is_tag) {
            None => None,
            Some(kind) => {
                let oid = if kind == RefType::Tag {
                    match f.peeled {
                        Some(p) => p@,
                        None => t@,
                    }
                } else {
                    t@
                };
                let name = or_empty(f.name);
                let short = match f.shorthand {
                    Some(s) => s@,
                    None => name,
                };
                Some((oid, (name, short, kind, kind == RefType::LocalBranch && head == Some(name), 0usize)))
            },
        },
    }
}

/// The pairs the references add, in their order.
pub open spec fn fact_pairs(facts: Seq<RefFacts>, head: Option<Seq<char>>) -> Seq<
    (Seq<char>, (Seq<char>, Seq<char>, RefType, bool, usize)),
>
    decreases facts.len(),
{
    if facts.len() == 0 {
        Seq::empty()
    } else {
        let before = fact_pairs(facts.drop_last(), head);
        match fact_pair(facts.last(), head) {
            Some(p) => before.push(p),
            None => before,
        }
    }
}

/// The pair a stash (position, message, commit oid) adds: keyed by its
/// commit, named by its message, short name `stash`.
pub open spec fn stash_pair(s: (usize, String, String)) -> (Seq<char>, (Seq<char>, Seq<char>, RefType, bool, usize)) {
    (s.2@, (s.1@, "stash"@, RefType::Stash, false, 0usize))
}

/// The ref map of the references, HEAD's resolved name and the stashes:
/// the references' pairs in order, then one pair per stash in order.
pub open spec fn ref_map_spec(
    facts: Seq<RefFacts>,
    head: Option<Seq<char>>,
    stashes: Seq<(usize, String, String)>,
) -> Seq<(Seq<char>, (Seq<char>, Seq<char>, RefType, bool, usize))> {
    fact_pairs(facts, head) + stashes.map_values(|s: (usize, String, String)| stash_pair(s))
}

/// Builds the ref map from what git2 reported (see `ref_map_spec`).
pub fn ref_map_from(facts: &Vec<RefFacts>, head: &Option<String>, stashes: &Vec<(usize, String, String)>) -> (m:
    RefMap)
    requires
        forall|k: int| 0 <= k < facts@.len() ==> ref_facts_ok(#[trigger] facts@[k]),
        forall|k: int| 0 <= k < stashes@.len() ==> (#[trigger] stashes@[k]).2@.len() == 40,
    ensures
        m.pairs@.map_values(|p: (String, RefLabel)| pair_view(p)) == ref_map_spec(
            facts@,
            crate::operation::opt_string(*head),
            stashes@,
        ),
        ref_map_ok(m.pairs@),
{
    let ghost h = crate::operation::opt_string(*head);
    let mut map = RefMap::new();
    let mut i: usize = 0;
    while i < facts.len()
        invariant
            i <= facts@.len(),
            h == crate::operation::opt_string(*head),
            forall|k: int| 0 <= k < facts@.len() ==> ref_facts_ok(#[trigger] facts@[k]),
            map.pairs@.map_values(|p: (String, RefLabel)| pair_view(p)) == fact_pairs(
                facts@.subrange(0, i as int),
                h,
            ),
            ref_map_ok(map.pairs@),
            forall|k: int| 0 <= k < map.pairs@.len() ==> (#[trigger] map.pairs@[k]).1.ref_type != RefType::Stash,
        decreases facts.len() - i,
    {
        let f = &facts[i];
        let ghost before = map.pairs@;
        assert(facts@.subrange(0, i + 1).drop_last() == facts@.subrange(0, i as int));
        assert(facts@.subrange(0, i + 1).last() == facts@[i as int]);
        match &f.target {
            Some(t) => match classify_ref(f.is_branch, f.is_remote, f.is_tag) {
                Some(kind) => {
                    let oid = if kind == RefType::Tag {
                        match &f.peeled {
                            Some(p) => p.clone(),
                            None => t.clone(),
                        }
                    } else {
                        t.clone()
                    };
                    let name = match &f.name {
                        Some(n) => n.clone(),
                        None => String::new(),
                    };
                    let short = match &f.shorthand {
                        Some(s) => Some(s.clone()),
                        None => None,
                    };
                    let label = make_ref_label(name, short, kind, head);
                    map.add(oid, label);
                    assert(map.pairs@.map_values(|p: (String, RefLabel)| pair_view(p)) =~= before.map_values(
                        |p: (String, RefLabel)| pair_view(p),
                    ).push(pair_view(map.pairs@.last())));
                },
                None => {},
            },
            None => {},
        }
        i += 1;
    }
    assert(facts@.subrange(0, facts@.len() as int) == facts@);
    let ghost refs_part = map.pairs@.map_values(|p: (String, RefLabel)| pair_view(p));
    let mut k: usize = 0;
    while k < stashes.len()
        invariant
            k <= stashes@.len(),
            forall|j: int| 0 <= j < stashes@.len() ==> (#[trigger] stashes@[j]).2@.len() == 40,
            map.pairs@.map_values(|p: (String, RefLabel)| pair_view(p)) == refs_part + stashes@.subrange(
                0,
                k as int,
            ).map_values(|s: (usize, String, String)| stash_pair(s)),
            ref_map_ok(map.pairs@),
        decreases stashes.len() - k,
    {
        let (_, name, oid) = &stashes[k];
        let ghost before = map.pairs@;
        map.add(oid.clone(), stash_label(name.clone()));
        assert(map.pairs@.map_values(|p: (String, RefLabel)| pair_view(p)) =~= before.map_values(
            |p: (String, RefLabel)| pair_view(p),
        ).push(pair_view(map.pairs@.last())));
        assert(stashes@.subrange(0, k + 1).map_values(|s: (usize, String, String)| stash_pair(s))
            =~= stashes@.subrange(0, k as int).map_values(|s: (usize, String, String)| stash_pair(s)).push(
            stash_pair(stashes@[k as int]),
        ));
        k += 1;
    }
    assert(stashes@.subrange(0, stashes@.len() as int) == stashes@);
    map
}

/// What git2 reports of one reference.
fn ref_facts(reference: &git2::Reference) -> (f: RefFacts)
    ensures
        ref_facts_ok(f),
{
    let is_tag = git::reference_is_tag(reference);
    let target = match git::reference_target(reference) {
        Some(o) => Some(git::oid_to_string(&o)),
        None => None,
    };
    let peeled = if is_tag {
        match git::reference_peel_to_commit(reference) {
            Ok(c) => Some(git::oid_to_string(&git::commit_id(&c))),
            Err(_) => None,
        }
    } else {
        None
    };
    RefFacts {
        name: git::reference_name(reference),
        shorthand: git::reference_shorthand(reference),
        is_branch: git::reference_is_branch(reference),
        is_remote: git::reference_is_remote(reference),
        is_tag,
        target,
        peeled,
    }
}

/// The ref labels of every commit: local and remote branches and tags (an
/// annotated tag labels the commit it points at) and then stashes, each
/// keyed by the oid it labels. The checked-out branch is the one whose full
/// name HEAD resolves to, so branches sharing a commit are told apart.
/// References git2 fails to list or read are left out, as are the stashes
/// when they cannot be read; what is listed is labelled by `ref_map_from`.
pub fn build_ref_map(repo: &mut git2::Repository) -> (m: RefMap)
    ensures
        ref_map_ok(m.pairs@),
{
    let head_name = head_ref_name(repo);
    let mut facts: Vec<RefFacts> = Vec::new();
    match git::repo_references(repo) {
        Ok(refs) => {
            let mut i: usize = 0;
            while i < refs.len()
                invariant
                    i <= refs@.len(),
                    forall|k: int| 0 <= k < facts@.len() ==> ref_facts_ok(#[trigger] facts@[k]),
                decreases refs.len() - i,
            {
                match &refs[i] {
                    Ok(reference) => facts.push(ref_facts(reference)),
                    Err(_) => {},
                }
                i += 1;
            }
        },
        Err(_) => {},
    }
    let mut stash_facts: Vec<(usize, String, String)> = Vec::new();
    match git::read_stashes(repo) {
        Ok(stashes) => {
            let mut k: usize = 0;
            while k < stashes.len()
                invariant
                    k <= stashes@.len(),
                    forall|j: int| 0 <= j < stash_facts@.len() ==> (#[trigger] stash_facts@[j]).2@.len() == 40,
                decreases stashes.len() - k,
            {
                let (idx, name, oid) = &stashes[k];
                stash_facts.push((*idx, name.clone(), git::oid_to_string(oid)));
                k += 1;
            }
        },
        Err(_) => {},
    }
    ref_map_from(&facts, &head_name, &stash_facts)
}

/// A row of the history as `list_history` lists it: a forty-character oid
/// and its short form, forty-character parent oids, a merge exactly when it
/// has several parents, the color of its column, and ref labels as a ref
/// map holds them.
pub open spec fn listed_row_ok(c: GraphCommit) -> bool {
    &&& c.oid@.len() == 40
    &&& c.short_oid@ == short_oid_spec(c.oid@)
    &&& c.color_index == c.column
    &&& c.is_merge == (c.parent_oids@.len() > 1)
    &&& forall|k: int| 0 <= k < c.parent_oids@.len() ==> (#[trigger] c.parent_oids@[k])@.len() == 40
    &&& forall|k: int| 0 <= k < c.refs@.len() ==> row_label_ok(c, #[trigger] c.refs@[k])
}

/// A label of the row `c`: in the row's color, `is_head` only on a local
/// branch, and a stash label named `stash` and never HEAD.
pub open spec fn row_label_ok(c: GraphCommit, l: RefLabel) -> bool {
    &&& l.color_index == c.color_index
    &&& l.is_head ==> l.ref_type == RefType::LocalBranch
    &&& l.ref_type == RefType::Stash ==> l.short_name@ == "stash"@ && !l.is_head
}

/// The label `l` in the color `color`.
pub open spec fn colored(l: RefLabel, color: usize) -> RefLabel {
    RefLabel { name: l.name, short_name: l.short_name, ref_type: l.ref_type, is_head: l.is_head, color_index: color }
}

/// The labels in the color `color`.
pub open spec fn labels_colored(labels: Seq<RefLabel>, color: usize) -> Seq<RefLabel> {
    Seq::new(labels.len(), |i: int| colored(labels[i], color))
}

/// The labels, drawn in the color `color` of their row.
pub fn recolor_labels(v: &Vec<RefLabel>, color: usize) -> (r: Vec<RefLabel>)
    ensures
        r@ == labels_colored(v@, color),
{
    let mut r: Vec<RefLabel> = Vec::new();
    let mut i: usize = 0;
    while i < v.len()
        invariant
            i <= v@.len(),
            r@ == labels_colored(v@.subrange(0, i as int), color),
        decreases v.len() - i,
    {
        let l = &v[i];
        r.push(
            RefLabel {
                name: l.name.clone(),
                short_name: l.short_name.clone(),
                ref_type: l.ref_type,
                is_head: l.is_head,
                color_index: color,
            },
        );
        i += 1;
        assert(r@ =~= labels_colored(v@.subrange(0, i as int), color));
    }
    assert(v@.subrange(0, v@.len() as int) == v@);
    r
}

/// The oids' strings.
fn oid_strings(oids: &Vec<git2::Oid>) -> (v: Vec<String>)
    ensures
        v@.len() == oids@.len(),
        forall|k: int| 0 <= k < v@.len() ==> (#[trigger] v@[k])@.len() == 40,
{
    let mut v: Vec<String> = Vec::new();
    let mut i: usize = 0;
    while i < oids.len()
        invariant
            i <= oids@.len(),
            v@.len() == i,
            forall|k: int| 0 <= k < v@.len() ==> (#[trigger] v@[k])@.len() == 40,
        decreases oids.len() - i,
    {
        v.push(git::oid_to_string(&oids[i]));
        i += 1;
    }
    v
}

/// A text git2 gave, or the empty text when it gave none.
pub open spec fn or_empty(s: Option<String>) -> Seq<char> {
    match s {
        Some(t) => t@,
        None => Seq::<char>::empty(),
    }
}

/// The history row of one commit from what git2 reported of it: its oid and
/// the oid's first seven characters, its parents, summary and author (empty
/// when git2 gave none), body, author time and ref labels; a merge exactly
/// when it has several parents; drawn in `column`, in the color of that
/// column, with the edges `edges`; a stash and a branch tip as given.
pub fn history_row(
    oid: String,
    parent_oids: Vec<String>,
    summary: Option<String>,
    body: Option<String>,
    author_name: Option<String>,
    author_email: Option<String>,
    author_timestamp: i64,
    refs: Vec<RefLabel>,
    column: usize,
    edges: Vec<GraphEdge>,
    is_stash: bool,
    is_branch_tip: bool,
) -> (c: GraphCommit)
    ensures
        c.oid == oid,
        c.short_oid@ == short_oid_spec(oid@),
        c.parent_oids == parent_oids,
        c.summary@ == or_empty(summary),
        c.body == body,
        c.author_name@ == or_empty(author_name),
        c.author_email@ == or_empty(author_email),
        c.author_timestamp == author_timestamp,
        c.refs == refs,
        c.column == column,
        c.color_index == column,
        c.edges == edges,
        c.is_merge == (parent_oids@.len() > 1),
        c.is_stash == is_stash,
        c.is_branch_tip == is_branch_tip,
{
    let is_merge = parent_oids.len() > 1;
    GraphCommit {
        short_oid: short_oid(oid.as_str()),
        summary: match summary {
            Some(s) => s,
            None => String::new(),
        },
        body,
        author_name: match author_name {
            Some(n) => n,
            None => String::new(),
        },
        author_email: match author_email {
            Some(e) => e,
            None => String::new(),
        },
        author_timestamp,
        parent_oids,
        refs,
        column,
        color_index: column,
        is_merge,
        is_stash,
        is_branch_tip,
        edges,
        oid,
    }
}

/// What git2 reported of one commit: its oid and its parents' oids as text,
/// its summary, body and author name and email (when UTF-8) and its time.
#[derive(Debug)]
pub struct CommitFacts {
    pub oid: String,
    pub parent_oids: Vec<String>,
    pub summary: Option<String>,
    pub body: Option<String>,
    pub author_name: Option<String>,
    pub author_email: Option<String>,
    pub author_timestamp: i64,
}

/// The oids of the facts are forty characters long.
pub open spec fn commit_facts_ok(f: CommitFacts) -> bool {
    &&& f.oid@.len() == 40
    &&& forall|k: int| 0 <= k < f.parent_oids@.len() ==> (#[trigger] f.parent_oids@[k])@.len() == 40
}

/// What git2 reports of the commit `oid`.
fn commit_facts(repo: &git2::Repository, oid: git2::Oid) -> (r: Result<CommitFacts, TrunkError>)
    ensures
        r matches Ok(f) ==> commit_facts_ok(f),
        r matches Err(e) ==> e.code@ == "git_error"@,
{
    let commit = match git::repo_find_commit(repo, oid) {
        Ok(c) => c,
        Err(e) => return Err(from_git_error(e)),
    };
    let author = git::commit_author(&commit);
    let time = git::commit_time(&commit);
    Ok(
        CommitFacts {
            oid: git::oid_to_string(&oid),
            parent_oids: oid_strings(&git::commit_parent_ids(&commit)),
            summary: git::commit_summary(&commit),
            body: git::commit_body(&commit),
            author_name: git::signature_name(&author),
            author_email: git::signature_email(&author),
            author_timestamp: git::time_seconds(&time),
        },
    )
}

/// What git2 reports of each walked commit, in walk order; the first error
/// of the walk or of a lookup ends it.
fn walk_facts(repo: &git2::Repository, oids: &Vec<Result<git2::Oid, git2::Error>>) -> (r: Result<
    Vec<CommitFacts>,
    TrunkError,
>)
    ensures
        r matches Ok(v) ==> v@.len() == oids@.len() && forall|k: int| 0 <= k < v@.len() ==> commit_facts_ok(
            #[trigger] v@[k],
        ),
        r matches Err(e) ==> e.code@ == "git_error"@,
{
    let mut facts: Vec<CommitFacts> = Vec::new();
    let mut i: usize = 0;
    while i < oids.len()
        invariant
            i <= oids@.len(),
            facts@.len() == i,
            forall|k: int| 0 <= k < facts@.len() ==> commit_facts_ok(#[trigger] facts@[k]),
        decreases oids.len() - i,
    {
        let oid = match &oids[i] {
            Ok(o) => *o,
            Err(e) => return Err(TrunkError::with_message("git_error", git::error_message(e))),
        };
        facts.push(commit_facts(repo, oid)?);
        i += 1;
    }
    Ok(facts)
}

/// The parents a row draws for the commit `f`: all of them, or for a
/// stash only the commit it was made on.
pub open spec fn drawn_parents(f: CommitFacts, stash: bool) -> Seq<String> {
    if stash {
        f.parent_oids@.take(if f.parent_oids@.len() > 0 { 1int } else { 0int })
    } else {
        f.parent_oids@
    }
}

/// The history row `c` is the one of the commit `f` with its labels in the
/// ref map `pairs`, a stash's row when `stash` (see `history_row`).
pub open spec fn row_from_facts(c: GraphCommit, f: CommitFacts, pairs: Seq<(String, RefLabel)>, stash: bool) -> bool {
    &&& c.oid == f.oid
    &&& c.short_oid@ == short_oid_spec(f.oid@)
    &&& c.parent_oids@ == drawn_parents(f, stash)
    &&& c.summary@ == or_empty(f.summary)
    &&& c.body == f.body
    &&& c.author_name@ == or_empty(f.author_name)
    &&& c.author_email@ == or_empty(f.author_email)
    &&& c.author_timestamp == f.author_timestamp
    &&& c.refs@ == labels_colored(labels_of(pairs, f.oid@), c.column)
    &&& c.is_merge == (c.parent_oids@.len() > 1)
    &&& c.is_stash == stash
}

/// What the lanes see of history rows (see `LaneKey`).
pub open spec fn row_keys(commits: Seq<GraphCommit>) -> Seq<LaneKey> {
    Seq::new(
        commits.len(),
        |k: int|
            (
                commits[k].oid@,
                if commits[k].parent_oids@.len() > 0 {
                    Some(commits[k].parent_oids@[0]@)
                } else {
                    None
                },
                commits[k].is_stash,
                commits[k].parent_oids@.map_values(|s: String| s@),
            ),
    )
}

/// The columns of history rows.
pub open spec fn commit_cols(commits: Seq<GraphCommit>) -> Seq<usize> {
    Seq::new(commits.len(), |k: int| commits[k].column)
}

/// The edges of history rows.
pub open spec fn commit_edges(commits: Seq<GraphCommit>) -> Seq<Seq<GraphEdge>> {
    Seq::new(commits.len(), |k: int| commits[k].edges@)
}

/// The parents a row draws (see `drawn_parents`).
fn drawn_parent_oids(f: &CommitFacts, stash: bool) -> (v: Vec<String>)
    ensures
        v@ == drawn_parents(*f, stash),
{
    if !stash {
        return copy_strings(&f.parent_oids);
    }
    let mut v: Vec<String> = Vec::new();
    if f.parent_oids.len() > 0 {
        v.push(f.parent_oids[0].clone());
    }
    assert(v@ =~= drawn_parents(*f, stash));
    v
}

/// The history graph: a row for each stash (the commits in `stashes`),
/// then one for each walked commit in walk order, each labelled from the
/// ref map, laid out on lanes with HEAD at the commit `head` (see
/// `lay_out_lanes`); each row has the color of its column.
pub fn lay_out_graph(facts: &Vec<CommitFacts>, stashes: &Vec<CommitFacts>, head: &Option<String>, map: &RefMap) -> (g:
    GraphResult)
    requires
        ref_map_ok(map.pairs@),
        forall|k: int| 0 <= k < facts@.len() ==> commit_facts_ok(#[trigger] facts@[k]),
        forall|k: int| 0 <= k < stashes@.len() ==> commit_facts_ok(#[trigger] stashes@[k]),
    ensures
        g.commits@.len() == stashes@.len() + facts@.len(),
        forall|k: int|
            0 <= k < stashes@.len() ==> row_from_facts(#[trigger] g.commits@[k], stashes@[k], map.pairs@, true),
        forall|k: int|
            0 <= k < facts@.len() ==> row_from_facts(
                #[trigger] g.commits@[stashes@.len() + k],
                facts@[k],
                map.pairs@,
                false,
            ),
        forall|k: int| 0 <= k < g.commits@.len() ==> listed_row_ok(#[trigger] g.commits@[k]),
        forall|k: int|
            0 <= k < g.commits@.len() ==> (#[trigger] g.commits@[k]).is_branch_tip == (g.commits@[k].is_stash
                || !is_parent_above(row_keys(g.commits@), k, g.commits@[k].oid@)),
        layout_ok(
            commit_cols(g.commits@),
            commit_edges(g.commits@),
            g.max_columns as int,
            row_keys(g.commits@),
            opt_view(*head),
        ),
{
    let s = stashes.len();
    let mut nodes: Vec<GraphNode> = Vec::new();
    let mut i: usize = 0;
    while i < s
        invariant
            s == stashes@.len(),
            i <= s,
            nodes@.len() == i,
            forall|k: int|
                0 <= k < i ==> (#[trigger] nodes@[k]).oid == stashes@[k].oid && nodes@[k].parents@ == drawn_parents(
                    stashes@[k],
                    true,
                ) && nodes@[k].is_stash,
        decreases s - i,
    {
        let f = &stashes[i];
        nodes.push(GraphNode { oid: f.oid.clone(), parents: drawn_parent_oids(f, true), is_stash: true });
        i += 1;
    }
    let mut i: usize = 0;
    while i < facts.len()
        invariant
            s == stashes@.len(),
            i <= facts@.len(),
            nodes@.len() == s + i,
            forall|k: int|
                0 <= k < s + i ==> (#[trigger] nodes@[k]).oid == (if k < s {
                    stashes@[k].oid
                } else {
                    facts@[k - s].oid
                }) && nodes@[k].parents@ == (if k < s {
                    drawn_parents(stashes@[k], true)
                } else {
                    drawn_parents(facts@[k - s], false)
                }) && nodes@[k].is_stash == (k < s),
        decreases facts.len() - i,
    {
        let f = &facts[i];
        nodes.push(GraphNode { oid: f.oid.clone(), parents: drawn_parent_oids(f, false), is_stash: false });
        i += 1;
    }
    let total = nodes.len();
    let (rows, width) = lay_out_lanes(&nodes, head);
    let tips = branch_tips(&nodes);
    let mut commits: Vec<GraphCommit> = Vec::new();
    let mut k: usize = 0;
    while k < total
        invariant
            s == stashes@.len(),
            total == s + facts@.len(),
            k <= total,
            nodes@.len() == total,
            rows@.len() == total,
            tips@.len() == total,
            commits@.len() == k,
            ref_map_ok(map.pairs@),
            forall|j: int| 0 <= j < facts@.len() ==> commit_facts_ok(#[trigger] facts@[j]),
            forall|j: int| 0 <= j < stashes@.len() ==> commit_facts_ok(#[trigger] stashes@[j]),
            forall|j: int|
                0 <= j < total ==> (#[trigger] nodes@[j]).oid == (if j < s {
                    stashes@[j].oid
                } else {
                    facts@[j - s].oid
                }) && nodes@[j].parents@ == (if j < s {
                    drawn_parents(stashes@[j], true)
                } else {
                    drawn_parents(facts@[j - s], false)
                }) && nodes@[j].is_stash == (j < s),
            forall|j: int|
                0 <= j < k ==> row_from_facts(
                    #[trigger] commits@[j],
                    if j < s {
                        stashes@[j]
                    } else {
                        facts@[j - s]
                    },
                    map.pairs@,
                    j < s,
                ) && listed_row_ok(commits@[j]) && commits@[j].column == rows@[j].column && commits@[j].edges@
                    == rows@[j].edges@ && commits@[j].is_branch_tip == tips@[j],
        decreases total - k,
    {
        let stash = k < s;
        let f = if stash {
            &stashes[k]
        } else {
            &facts[k - s]
        };
        let plain = map.labels_for(f.oid.as_str());
        proof {
            lemma_labels_of_ok(map.pairs@, f.oid@);
        }
        let refs = recolor_labels(&plain, rows[k].column);
        let row = history_row(
            f.oid.clone(),
            drawn_parent_oids(f, stash),
            copy_opt_string(&f.summary),
            copy_opt_string(&f.body),
            copy_opt_string(&f.author_name),
            copy_opt_string(&f.author_email),
            f.author_timestamp,
            refs,
            rows[k].column,
            copy_edges(&rows[k].edges),
            stash,
            tips[k],
        );
        commits.push(row);
        k += 1;
    }
    proof {
        assert(commit_cols(commits@) =~= row_cols(rows@));
        assert(commit_edges(commits@) =~= row_edges(rows@));
        assert(row_keys(commits@) =~= node_keys(nodes@)) by {
            assert forall|j: int| 0 <= j < total implies #[trigger] row_keys(commits@)[j] == node_keys(nodes@)[j] by {
                assert(commits@[j].parent_oids@ == nodes@[j].parents@);
            }
        }
        assert forall|j: int|
            0 <= j < commits@.len() implies (#[trigger] commits@[j]).is_branch_tip == (commits@[j].is_stash
                || !is_parent_above(row_keys(commits@), j, commits@[j].oid@)) by {
            assert(tips@[j] == (nodes@[j].is_stash || !is_parent_above(node_keys(nodes@), j, nodes@[j].oid@)));
        }
        assert forall|j: int| 0 <= j < facts@.len() implies row_from_facts(
            #[trigger] commits@[s + j],
            facts@[j],
            map.pairs@,
            false,
        ) by {
            assert(commits@[s + j] == commits@[s + j]);
        }
    }
    GraphResult { commits, max_columns: width }
}

/// The commit HEAD points at, as text; none when HEAD is unborn or cannot
/// be read.
fn head_commit_text(repo: &git2::Repository) -> (r: Option<String>) {
    match git::repo_head(repo) {
        Ok(h) => match git::reference_peel_to_commit(&h) {
            Ok(c) => Some(git::oid_to_string(&git::commit_id(&c))),
            Err(_) => None,
        },
        Err(_) => None,
    }
}

/// What git2 reports of each stash's commit, newest stash first; stashes
/// that cannot be read are left out.
fn stash_commit_facts(repo: &git2::Repository) -> (r: Vec<CommitFacts>)
    ensures
        forall|k: int| 0 <= k < r@.len() ==> commit_facts_ok(#[trigger] r@[k]),
{
    let mut out: Vec<CommitFacts> = Vec::new();
    match git::read_stashes(repo) {
        Ok(stashes) => {
            let mut i: usize = 0;
            while i < stashes.len()
                invariant
                    i <= stashes@.len(),
                    forall|k: int| 0 <= k < out@.len() ==> commit_facts_ok(#[trigger] out@[k]),
                decreases stashes.len() - i,
            {
                let (_, _, oid) = &stashes[i];
                match commit_facts(repo, *oid) {
                    Ok(f) => out.push(f),
                    Err(_) => {},
                }
                i += 1;
            }
        },
        Err(_) => {},
    }
    out
}

/// Lists the history: the stashes, then the commits reachable from HEAD and
/// from the local branches, remote branches and tags, newest first in
/// topological and time order, each with its ref labels (see
/// `build_ref_map`), laid out on lanes with HEAD's chain in column 0 (see
/// `lay_out_graph`, which decides on what git2 reported). An unborn HEAD
/// has no commits.
pub fn list_history(repo: &mut git2::Repository) -> (r: Result<GraphResult, TrunkError>)
    ensures
        r matches Err(e) ==> e.code@ == "git_error"@,
        r matches Ok(g) ==> forall|k: int| 0 <= k < g.commits@.len() ==> listed_row_ok(#[trigger] g.commits@[k]),
        r matches Ok(g) ==> lanes_ok(
            commit_cols(g.commits@),
            commit_edges(g.commits@),
            g.max_columns as int,
            row_keys(g.commits@),
        ),
{
    let map = build_ref_map(repo);
    if is_head_unborn(repo) {
        let g = GraphResult { commits: Vec::new(), max_columns: 0 };
        proof {
            reveal(through_ok);
        }
        assert(lanes_ok(commit_cols(g.commits@), commit_edges(g.commits@), 0, row_keys(g.commits@)));
        return Ok(g);
    }
    let mut walk = match git::repo_revwalk(repo) {
        Ok(w) => w,
        Err(e) => return Err(from_git_error(e)),
    };
    match git::revwalk_sort_topological_time(&mut walk) {
        Ok(()) => {},
        Err(e) => return Err(from_git_error(e)),
    }
    match git::revwalk_push_head(&mut walk) {
        Ok(()) => {},
        Err(e) => return Err(from_git_error(e)),
    }
    match git::revwalk_push_glob(&mut walk, "refs/heads") {
        Ok(()) => {},
        Err(e) => return Err(from_git_error(e)),
    }
    match git::revwalk_push_glob(&mut walk, "refs/remotes") {
        Ok(()) => {},
        Err(e) => return Err(from_git_error(e)),
    }
    match git::revwalk_push_glob(&mut walk, "refs/tags") {
        Ok(()) => {},
        Err(e) => return Err(from_git_error(e)),
    }
    let oids = git::revwalk_collect(walk);
    let facts = walk_facts(repo, &oids)?;
    let stashes = stash_commit_facts(repo);
    let head = head_commit_text(repo);
    let g = lay_out_graph(&facts, &stashes, &head, &map);
    assert(layout_ok(
        commit_cols(g.commits@),
        commit_edges(g.commits@),
        g.max_columns as int,
        row_keys(g.commits@),
        opt_view(head),
    ));
    Ok(g)
}

/// The labels a well-formed ref map holds for an oid are labels of that oid
/// as a ref map holds them.
proof fn lemma_labels_of_ok(pairs: Seq<(String, RefLabel)>, oid: Seq<char>)
    requires
        ref_map_ok(pairs),
    ensures
        forall|k: int| 0 <= k < labels_of(pairs, oid).len() ==> {
            let l = #[trigger] labels_of(pairs, oid)[k];
            &&& l.color_index == 0
            &&& l.is_head ==> l.ref_type == RefType::LocalBranch
            &&& l.ref_type == RefType::Stash ==> l.short_name@ == "stash"@ && !l.is_head
        },
    decreases pairs.len(),
{
    if pairs.len() > 0 {
        let front = pairs.drop_last();
        assert forall|i: int, j: int|
            0 <= i < j < front.len() && (#[trigger] front[i]).1.ref_type == RefType::Stash implies (
            #[trigger] front[j]).1.ref_type == RefType::Stash by {
            assert(front[i] == pairs[i]);
            assert(front[j] == pairs[j]);
        }
        assert forall|k: int| 0 <= k < front.len() implies map_label_ok(#[trigger] front[k].0, front[k].1) by {
            assert(front[k] == pairs[k]);
        }
        lemma_labels_of_ok(front, oid);
        assert(map_label_ok(pairs[pairs.len() - 1].0, pairs[pairs.len() - 1].1));
    }
}

/// What git2 reported of one reference, for finding the branch at an oid:
/// whether it is a local branch, the full text of the oid it points at, and
/// its shorthand.
pub struct BranchTarget {
    pub is_branch: bool,
    pub target: Option<String>,
    pub shorthand: Option<String>,
}

/// The shorthand of the first local branch whose target is the oid written
/// `oid` (itself `None` when git2 gave no shorthand), or `None` when no
/// branch points there.
pub open spec fn branch_at(refs: Seq<BranchTarget>, oid: Seq<char>) -> Option<Option<String>>
    decreases refs.len(),
{
    if refs.len() == 0 {
        None
    } else if refs[0].is_branch && (refs[0].target matches Some(t) && t@ == oid) {
        Some(refs[0].shorthand)
    } else {
        branch_at(refs.drop_first(), oid)
    }
}

/// The name shown for the oid written `oid_str` (one to forty hex digits):
/// the shorthand of the first local branch at that oid, else the text's
/// first seven characters.
pub open spec fn branch_name_at(refs: Seq<BranchTarget>, oid_str: Seq<char>) -> Option<Seq<char>> {
    match branch_at(refs, git::canonical_oid_text(oid_str)) {
        Some(Some(s)) => Some(s@),
        Some(None) => None,
        None => Some(short_oid_spec(oid_str)),
    }
}

/// The branch named for the text `oid_str`, given the references git2
/// listed: none when the text is no oid or the listing failed.
pub open spec fn resolved_branch(oid_str: Seq<char>, targets: Result<Vec<BranchTarget>, git2::Error>) -> Option<
    Seq<char>,
> {
    if !git::is_oid_text(oid_str) {
        None
    } else {
        match targets {
            Ok(v) => branch_name_at(v@, oid_str),
            Err(_) => None,
        }
    }
}

/// The name a rebase shows for the oid written `oid_str`: the shorthand of
/// the first local branch at it, else the text's first seven characters.
pub fn branch_or_short_oid(refs: &Vec<BranchTarget>, oid_str: &str) -> (r: Option<String>)
    requires
        git::is_oid_text(oid_str@),
    ensures
        (match r {
            Some(t) => Some(t@),
            None => None,
        }) == branch_name_at(refs@, oid_str@),
{
    let full = git::oid_text_of(oid_str);
    let mut i: usize = 0;
    assert(refs@.subrange(0, refs@.len() as int) == refs@);
    while i < refs.len()
        invariant
            i <= refs@.len(),
            full@ == git::canonical_oid_text(oid_str@),
            branch_at(refs@, full@) == branch_at(refs@.subrange(i as int, refs@.len() as int), full@),
        decreases refs.len() - i,
    {
        let ghost rest = refs@.subrange(i as int, refs@.len() as int);
        assert(rest[0] == refs@[i as int]);
        assert(rest.drop_first() == refs@.subrange(i + 1, refs@.len() as int));
        let r = &refs[i];
        if r.is_branch {
            match &r.target {
                Some(t) => {
                    if str_eq(t.as_str(), full.as_str()) {
                        return match &r.shorthand {
                            Some(s) => Some(s.clone()),
                            None => None,
                        };
                    }
                },
                None => {},
            }
        }
        i += 1;
    }
    Some(short_oid(oid_str))
}

/// The branch the text `oid_str` names, given the references git2 listed
/// (see `resolved_branch`).
pub fn branch_for_oid_text(oid_str: &str, targets: &Result<Vec<BranchTarget>, git2::Error>) -> (r: Option<String>)
    ensures
        (match r {
            Some(t) => Some(t@),
            None => None,
        }) == resolved_branch(oid_str@, *targets),
{
    if !git::is_oid_str(oid_str) {
        return None;
    }
    match targets {
        Ok(v) => branch_or_short_oid(v, oid_str),
        Err(_) => None,
    }
}

/// The references of the repository as git2 lists them (those it fails to
/// read are skipped), each with whether it is a local branch, the text of
/// the oid it points at, and its shorthand.
pub fn branch_targets(repo: &git2::Repository) -> (r: Result<Vec<BranchTarget>, git2::Error>) {
    let refs = git::repo_references(repo)?;
    let mut targets: Vec<BranchTarget> = Vec::new();
    let mut i: usize = 0;
    while i < refs.len()
        invariant
            i <= refs@.len(),
        decreases refs.len() - i,
    {
        match &refs[i] {
            Ok(reference) => {
                let target = match git::reference_target(reference) {
                    Some(o) => Some(git::oid_to_string(&o)),
                    None => None,
                };
                targets.push(
                    BranchTarget {
                        is_branch: git::reference_is_branch(reference),
                        target,
                        shorthand: git::reference_shorthand(reference),
                    },
                );
            },
            Err(_) => {},
        }
        i += 1;
    }
    Ok(targets)
}

/// The branch a rebase's `onto` oid names: the shorthand of the first local
/// branch that points exactly at it, else its first seven characters;
/// `None` when the text is no oid or the references cannot be listed (see
/// `branch_for_oid_text`, which decides on the references git2 listed).
pub fn resolve_oid_to_branch(repo: &git2::Repository, oid_str: &str) -> (r: Option<String>)
    ensures
        !git::is_oid_text(oid_str@) ==> r is None,
{
    if !git::is_oid_str(oid_str) {
        return None;
    }
    let targets = branch_targets(repo);
    branch_for_oid_text(oid_str, &targets)
}

/// A commit an interactive rebase replays.
#[derive(Debug)]
pub struct RebaseTodoItem {
    pub oid: String,
    pub short_oid: String,
    pub summary: String,
    pub author_name: String,
    pub author_timestamp: i64,
}

/// The todo item of a commit: its oid, the oid's first seven characters, its
/// summary and author name (empty when git2 gives none) and author time.
pub fn rebase_todo_item(oid: String, summary: Option<String>, author_name: Option<String>, author_timestamp: i64) -> (item:
    RebaseTodoItem)
    ensures
        item.oid == oid,
        item.short_oid@ == short_oid_spec(oid@),
        item.summary@ == match summary {
            Some(s) => s@,
            None => Seq::<char>::empty(),
        },
        item.author_name@ == match author_name {
            Some(a) => a@,
            None => Seq::<char>::empty(),
        },
        item.author_timestamp == author_timestamp,
{
    let short = short_oid(oid.as_str());
    RebaseTodoItem {
        oid,
        short_oid: short,
        summary: match summary {
            Some(s) => s,
            None => String::new(),
        },
        author_name: match author_name {
            Some(a) => a,
            None => String::new(),
        },
        author_timestamp,
    }
}

/// Each item's short oid abbreviates its oid, which has forty characters.
pub open spec fn todo_items_ok(items: Seq<RebaseTodoItem>) -> bool {
    forall|k: int|
        0 <= k < items.len() ==> (#[trigger] items[k]).short_oid@ == short_oid_spec(items[k].oid@)
            && items[k].oid@.len() == 40
}

/// The todo item `item` is the one of the commit `f` (see
/// `rebase_todo_item`).
pub open spec fn item_from_facts(item: RebaseTodoItem, f: CommitFacts) -> bool {
    &&& item.oid == f.oid
    &&& item.short_oid@ == short_oid_spec(f.oid@)
    &&& item.summary@ == or_empty(f.summary)
    &&& item.author_name@ == or_empty(f.author_name)
    &&& item.author_timestamp == f.author_timestamp
}

/// The todo of a newest-first walk: one item per walked commit, oldest
/// first, so item `k` is the commit `k`-th from the end of the walk.
pub fn todo_from(facts: &Vec<CommitFacts>) -> (items: Vec<RebaseTodoItem>)
    requires
        forall|k: int| 0 <= k < facts@.len() ==> commit_facts_ok(#[trigger] facts@[k]),
    ensures
        items@.len() == facts@.len(),
        forall|k: int|
            0 <= k < items@.len() ==> item_from_facts(#[trigger] items@[k], facts@[facts@.len() - 1 - k]),
        todo_items_ok(items@),
{
    let mut items: Vec<RebaseTodoItem> = Vec::new();
    let mut i: usize = facts.len();
    while i > 0
        invariant
            i <= facts@.len(),
            items@.len() == facts@.len() - i,
            forall|k: int| 0 <= k < facts@.len() ==> commit_facts_ok(#[trigger] facts@[k]),
            forall|k: int|
                0 <= k < items@.len() ==> item_from_facts(#[trigger] items@[k], facts@[facts@.len() - 1 - k]),
            todo_items_ok(items@),
        decreases i,
    {
        i -= 1;
        let f = &facts[i];
        let item = rebase_todo_item(
            f.oid.clone(),
            copy_opt_string(&f.summary),
            copy_opt_string(&f.author_name),
            f.author_timestamp,
        );
        items.push(item);
    }
    items
}

/// The revision range of the commits that a rebase onto the commit
/// `base` replays: `<base>..HEAD`, the base written out in full.
pub open spec fn todo_range_text(base: Seq<char>) -> Seq<char> {
    git::canonical_oid_text(base) + seq!['.', '.', 'H', 'E', 'A', 'D']
}

/// Writes the range `<base>..HEAD` for a base given as one to forty hex
/// digits: the walk it names holds the commits reachable from HEAD and not
/// from the base.
pub fn todo_range(base_oid: &str) -> (r: String)
    requires
        git::is_oid_text(base_oid@),
    ensures
        r@ == todo_range_text(base_oid@),
{
    let mut r = git::oid_text_of(base_oid);
    proof {
        reveal_strlit("..HEAD");
        assert("..HEAD"@ =~= seq!['.', '.', 'H', 'E', 'A', 'D']);
    }
    append_str(&mut r, "..HEAD");
    r
}

/// The commits an interactive rebase onto `base_oid` replays: those
/// reachable from HEAD and not from the base, oldest first (the reverse of a
/// topological, newest-first walk). A base that is not one to forty hex
/// digits fails with `invalid_oid`.
pub fn get_rebase_todo_inner(path: &str, base_oid: &str, registry: &RepoRegistry) -> (r: Result<
    Vec<RebaseTodoItem>,
    TrunkError,
>)
    ensures
        lookup_outcome(*registry, path@, r),
        r matches Err(e) ==> e.code@ == "not_open"@ || e.code@ == "git_error"@ || e.code@
            == "invalid_oid"@,
        r matches Err(e) && e.code@ == "invalid_oid"@ ==> !git::is_oid_text(base_oid@),
        registry.dirs@.contains_key(path@) && !git::is_oid_text(base_oid@) ==> r is Err,
        r matches Ok(items) ==> todo_items_ok(items@),
{
    proof {
        lemma_codes_differ_from_not_open();
        reveal_strlit("git_error");
        reveal_strlit("invalid_oid");
        assert("git_error"@[0] != "invalid_oid"@[0]);
    }
    let repo = open_repo_from_state(path, registry)?;
    match git::oid_from_str(base_oid) {
        Ok(_) => {},
        Err(e) => return Err(TrunkError::with_message("invalid_oid", git::error_display(&e))),
    }
    let mut walk = match git::repo_revwalk(&repo) {
        Ok(w) => w,
        Err(e) => return Err(from_git_error(e)),
    };
    match git::revwalk_sort_topological_time(&mut walk) {
        Ok(()) => {},
        Err(e) => return Err(from_git_error(e)),
    }
    let range = todo_range(base_oid);
    match git::revwalk_push_range(&mut walk, range.as_str()) {
        Ok(()) => {},
        Err(e) => return Err(from_git_error(e)),
    }
    let oids = git::revwalk_collect(walk);
    let facts = walk_facts(&repo, &oids)?;
    Ok(todo_from(&facts))
}

/// HEAD has no commit yet (a freshly initialised repository).
pub fn is_head_unborn(repo: &git2::Repository) -> (b: bool) {
    match git::repo_head(repo) {
        Err(e) => git::error_is_unborn_branch(&e),
        Ok(_) => false,
    }
}

/// The message of a working-tree snapshot taken at `seconds` since the epoch.
pub open spec fn snapshot_message_spec(seconds: int) -> Seq<char> {
    "Uncommitted changes — "@ + signed_decimal(seconds)
}

/// Composes the message of a working-tree snapshot.
pub fn snapshot_message(seconds: i64) -> (m: String)
    ensures
        m@ == snapshot_message_spec(seconds as int),
{
    let mut m = String::new();
    append_str(&mut m, "Uncommitted changes — ");
    let d = decimal_i64(seconds);
    append_str(&mut m, d.as_str());
    m
}

/// Records the working tree (staged, unstaged and untracked files that are
/// not ignored) as a commit that no reference points at, with HEAD's commit
/// as parent (none when HEAD is unborn), and returns its oid. It goes through
/// a fresh in-memory index, so the repository's `.git/index` is not written.
pub fn snapshot_working_tree(repo: &git2::Repository) -> (r: Result<git2::Oid, TrunkError>)
    ensures
        r matches Err(e) ==> e.code@ == "git_error"@,
{
    let mut fresh = match git::index_new() {
        Ok(i) => i,
        Err(e) => return Err(from_git_error(e)),
    };
    match git::repo_set_index(repo, &mut fresh) {
        Ok(()) => {},
        Err(e) => return Err(from_git_error(e)),
    }
    let mut idx = match git::repo_index(repo) {
        Ok(i) => i,
        Err(e) => return Err(from_git_error(e)),
    };
    match git::index_add_everything(&mut idx) {
        Ok(()) => {},
        Err(e) => return Err(from_git_error(e)),
    }
    let tree_oid = match git::index_write_tree_to(&mut idx, repo) {
        Ok(o) => o,
        Err(e) => return Err(from_git_error(e)),
    };
    let tree = match git::repo_find_tree(repo, tree_oid) {
        Ok(t) => t,
        Err(e) => return Err(from_git_error(e)),
    };
    let head_commit = if is_head_unborn(repo) {
        None
    } else {
        let head = match git::repo_head(repo) {
            Ok(h) => h,
            Err(e) => return Err(from_git_error(e)),
        };
        match git::reference_peel_to_commit(&head) {
            Ok(c) => Some(c),
            Err(e) => return Err(from_git_error(e)),
        }
    };
    let sig = match git::signature_now("Trunk", "review@trunk.local") {
        Ok(s) => s,
        Err(e) => return Err(from_git_error(e)),
    };
    let when = git::signature_when(&sig);
    let msg = snapshot_message(git::time_seconds(&when));
    match git::repo_commit_dangling(repo, &sig, msg.as_str(), &tree, head_commit.as_ref()) {
        Ok(oid) => Ok(oid),
        Err(e) => Err(from_git_error(e)),
    }
}

} // verus!
