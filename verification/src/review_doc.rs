//! Pieces of the markdown review document: how long a code fence must be so
//! that no backtick run inside an excerpt can close it, and which language
//! tag a file's excerpt is fenced with.

use vstd::prelude::*;
use vstd::string::*;
use crate::text::chars_of;

use crate::review::ReviewSession;

verus! {

/// The number of consecutive backticks at the very end of `s`.
pub open spec fn trailing_backticks(s: Seq<char>) -> nat
    decreases s.len(),
{
    if s.len() > 0 && s.last() == '`' {
        trailing_backticks(s.drop_last()) + 1
    } else {
        0
    }
}

/// The length of the longest run of consecutive backticks anywhere in `s`.
pub open spec fn longest_backtick_run(s: Seq<char>) -> nat
    decreases s.len(),
{
    if s.len() == 0 {
        0
    } else {
        let before = longest_backtick_run(s.drop_last());
        let here = trailing_backticks(s);
        if before >= here {
            before
        } else {
            here
        }
    }
}

/// `s[i..i + m]` is a run of `m` backticks.
pub open spec fn backtick_run_at(s: Seq<char>, i: int, m: nat) -> bool {
    0 <= i && i + m <= s.len() && forall|k: int| i <= k < i + m ==> s[k] == '`'
}

/// The fence for a body: one backtick longer than its longest backtick run,
/// and never shorter than three.
pub open spec fn fence_len_spec(body: Seq<char>) -> nat {
    if longest_backtick_run(body) + 1 >= 3 {
        longest_backtick_run(body) + 1
    } else {
        3
    }
}

proof fn lemma_trailing_le_len(s: Seq<char>)
    ensures
        trailing_backticks(s) <= s.len(),
        longest_backtick_run(s) <= s.len(),
    decreases s.len(),
{
    if s.len() > 0 {
        lemma_trailing_le_len(s.drop_last());
    }
}

/// The fence length that CommonMark needs around `body`: the longest run of
/// consecutive backticks in it plus one, and at least three. Runs do not join
/// across any other character, newlines included.
pub fn fence_length(body: &str) -> (r: usize)
    requires
        longest_backtick_run(body@) < usize::MAX,
    ensures
        r == fence_len_spec(body@),
{
    let v = chars_of(body);
    let mut longest: usize = 0;
    let mut current: usize = 0;
    let mut i: usize = 0;
    while i < v.len()
        invariant
            i <= v@.len(),
            v@ == body@,
            current == trailing_backticks(v@.subrange(0, i as int)),
            longest == longest_backtick_run(v@.subrange(0, i as int)),
            current <= i,
            longest <= i,
        decreases v.len() - i,
    {
        let ghost prev = v@.subrange(0, i as int);
        let ghost next = v@.subrange(0, i + 1);
        assert(next.drop_last() == prev);
        if v[i] == '`' {
            current += 1;
            if current > longest {
                longest = current;
            }
        } else {
            current = 0;
        }
        i += 1;
    }
    assert(v@.subrange(0, v@.len() as int) == v@);
    if longest + 1 >= 3 {
        longest + 1
    } else {
        3
    }
}

/// A run of backticks in `s` is never longer than `longest_backtick_run(s)`,
/// and a run of exactly that length occurs: the fence is strictly longer than
/// every backtick run of the body.
pub proof fn lemma_longest_run_is_maximal(s: Seq<char>)
    ensures
        backtick_run_at(s, s.len() - trailing_backticks(s), trailing_backticks(s)),
        exists|i: int| backtick_run_at(s, i, longest_backtick_run(s)),
        forall|i: int, m: nat| backtick_run_at(s, i, m) ==> m <= longest_backtick_run(s),
    decreases s.len(),
{
    if s.len() == 0 {
        assert(backtick_run_at(s, 0, 0));
        assert forall|i: int, m: nat| backtick_run_at(s, i, m) implies m <= longest_backtick_run(
            s,
        ) by {}
    } else {
        let p = s.drop_last();
        lemma_longest_run_is_maximal(p);
        lemma_trailing_le_len(s);
        let t = trailing_backticks(s);
        if s.last() == '`' {
            assert forall|k: int| s.len() - t <= k < s.len() implies s[k] == '`' by {
                if k < s.len() - 1 {
                    assert(s[k] == p[k]);
                }
            }
        }
        assert(backtick_run_at(s, s.len() - t, t));
        if longest_backtick_run(p) >= t {
            let w = choose|i: int| backtick_run_at(p, i, longest_backtick_run(p));
            assert forall|k: int| w <= k < w + longest_backtick_run(p) implies s[k] == '`' by {
                assert(s[k] == p[k]);
            }
            assert(backtick_run_at(s, w, longest_backtick_run(s)));
        } else {
            assert(backtick_run_at(s, s.len() - t, longest_backtick_run(s)));
        }
        assert forall|i: int, m: nat| backtick_run_at(s, i, m) implies m <= longest_backtick_run(
            s,
        ) by {
            if i + m < s.len() {
                assert(backtick_run_at(p, i, m)) by {
                    assert forall|k: int| i <= k < i + m implies p[k] == '`' by {
                        assert(s[k] == p[k]);
                    }
                }
            } else if m > t {
                lemma_run_reaching_end(s, i, m);
            }
        }
    }
}

/// A run that reaches the end of `s` is no longer than the trailing run.
proof fn lemma_run_reaching_end(s: Seq<char>, i: int, m: nat)
    requires
        backtick_run_at(s, i, m),
        i + m == s.len(),
    ensures
        m <= trailing_backticks(s),
    decreases m,
{
    if m > 0 {
        let p = s.drop_last();
        assert(s.last() == '`');
        assert(backtick_run_at(p, i, (m - 1) as nat)) by {
            assert forall|k: int| i <= k < i + (m - 1) implies p[k] == '`' by {
                assert(s[k] == p[k]);
            }
        }
        lemma_run_reaching_end(p, i, (m - 1) as nat);
    }
}

/// The fence is at least three backticks long and longer than every run of
/// backticks in the body, so no run inside the excerpt can close it.
pub proof fn lemma_fence_exceeds_every_run(body: Seq<char>)
    ensures
        fence_len_spec(body) >= 3,
        forall|i: int, m: nat| backtick_run_at(body, i, m) ==> m < fence_len_spec(body),
{
    lemma_longest_run_is_maximal(body);
}

/// The fence language tag for a file extension, `text` when it is unknown.
pub open spec fn language_tag(ext: Seq<char>) -> Seq<char> {
    if ext == "rs"@ {
        "rust"@
    } else if ext == "ts"@ || ext == "mts"@ || ext == "cts"@ {
        "typescript"@
    } else if ext == "tsx"@ {
        "tsx"@
    } else if ext == "js"@ || ext == "mjs"@ || ext == "cjs"@ {
        "javascript"@
    } else if ext == "jsx"@ {
        "jsx"@
    } else if ext == "svelte"@ {
        "svelte"@
    } else if ext == "json"@ {
        "json"@
    } else if ext == "md"@ || ext == "markdown"@ {
        "markdown"@
    } else if ext == "toml"@ {
        "toml"@
    } else if ext == "yaml"@ || ext == "yml"@ {
        "yaml"@
    } else if ext == "css"@ {
        "css"@
    } else if ext == "html"@ || ext == "htm"@ {
        "html"@
    } else if ext == "sh"@ || ext == "bash"@ {
        "bash"@
    } else if ext == "py"@ {
        "python"@
    } else if ext == "go"@ {
        "go"@
    } else {
        "text"@
    }
}

/// Whether two strings hold the same characters.
pub fn str_eq(a: &str, b: &str) -> (r: bool)
    ensures
        r == (a@ == b@),
{
    let x = chars_of(a);
    let y = chars_of(b);
    if x.len() != y.len() {
        return false;
    }
    let mut i: usize = 0;
    while i < x.len()
        invariant
            x@ == a@,
            y@ == b@,
            x@.len() == y@.len(),
            i <= x@.len(),
            forall|k: int| 0 <= k < i ==> x@[k] == y@[k],
        decreases x.len() - i,
    {
        if x[i] != y[i] {
            return false;
        }
        i += 1;
    }
    assert(x@ == y@);
    true
}

/// The markdown fence language for a file extension.
pub fn language_for_extension(ext: &str) -> (r: &'static str)
    ensures
        r@ == language_tag(ext@),
{
    if str_eq(ext, "rs") {
        "rust"
    } else if str_eq(ext, "ts") || str_eq(ext, "mts") || str_eq(ext, "cts") {
        "typescript"
    } else if str_eq(ext, "tsx") {
        "tsx"
    } else if str_eq(ext, "js") || str_eq(ext, "mjs") || str_eq(ext, "cjs") {
        "javascript"
    } else if str_eq(ext, "jsx") {
        "jsx"
    } else if str_eq(ext, "svelte") {
        "svelte"
    } else if str_eq(ext, "json") {
        "json"
    } else if str_eq(ext, "md") || str_eq(ext, "markdown") {
        "markdown"
    } else if str_eq(ext, "toml") {
        "toml"
    } else if str_eq(ext, "yaml") || str_eq(ext, "yml") {
        "yaml"
    } else if str_eq(ext, "css") {
        "css"
    } else if str_eq(ext, "html") || str_eq(ext, "htm") {
        "html"
    } else if str_eq(ext, "sh") || str_eq(ext, "bash") {
        "bash"
    } else if str_eq(ext, "py") {
        "python"
    } else if str_eq(ext, "go") {
        "go"
    } else {
        "text"
    }
}

/// What `Path::new(p).extension()` gives for a UTF-8 path: the part of the
/// file name after its last `.`, if it has one that does not start it.
pub uninterp spec fn path_extension(p: Seq<char>) -> Option<Seq<char>>;

/// `std::path::Path::extension` on a UTF-8 path, converted back to a string.
/// Its documentation states that the extension is the portion of the file
/// name after the final `.`, so it holds no `.`; which file name the path
/// has is left to the name `path_extension`.
#[verifier::external_body]
fn extension_of(file_path: &str) -> (r: Option<String>)
    ensures
        r matches Some(e) ==> path_extension(file_path@) == Some(e@),
        r is None ==> path_extension(file_path@) is None,
        r matches Some(e) ==> forall|k: int| 0 <= k < e@.len() ==> e@[k] != '.',
{
    std::path::Path::new(file_path).extension().and_then(|e| e.to_str()).map(|e| e.to_owned())
}

/// The language tag a path's extension selects, `text` when there is none.
pub open spec fn fence_language_spec(file_path: Seq<char>) -> Seq<char> {
    match path_extension(file_path) {
        Some(e) => language_tag(e),
        None => language_tag(Seq::empty()),
    }
}

/// The fence language tag for an excerpt of `file_path`, chosen by its
/// extension.
pub fn fence_language(file_path: &str) -> (r: &'static str)
    ensures
        r@ == fence_language_spec(file_path@),
{
    match extension_of(file_path) {
        Some(e) => {
            let r = language_for_extension(e.as_str());
            assert(r@ == language_tag(e@));
            r
        },
        None => {
            proof {
                reveal_strlit("");
            }
            assert(""@ == Seq::<char>::empty());
            let r = language_for_extension("");
            assert(r@ == language_tag(""@));
            r
        },
    }
}

/// Renders a review session as markdown. The renderer is still a stub: it
/// produces the empty document for every session.
pub fn render(session: &ReviewSession, repo: &git2::Repository) -> (r: String)
    ensures
        r@ == Seq::<char>::empty(),
{
    String::new()
}

} // verus!
