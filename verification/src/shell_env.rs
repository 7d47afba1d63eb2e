//! Reading back the `PATH` that the user's shell reports, so that git
//! subprocesses find the same tools as the user's terminal does.

use vstd::prelude::*;
use vstd::string::*;
use crate::text::{
    chars_of, find_chars, first_occurrence, lemma_first_char_after, lemma_first_occurrence_prefix,
    string_from_chars, suffix_chars,
};

verus! {

/// The marker printed just before the `PATH` value.
pub open spec fn path_begin() -> Seq<char> {
    "__TRUNK_PATH_BEGIN__"@
}

/// The marker printed just after the `PATH` value.
pub open spec fn path_end() -> Seq<char> {
    "__TRUNK_PATH_END__"@
}

/// The begin marker.
pub fn path_begin_marker() -> (m: &'static str)
    ensures
        m@ == path_begin(),
{
    "__TRUNK_PATH_BEGIN__"
}

/// The end marker.
pub fn path_end_marker() -> (m: &'static str)
    ensures
        m@ == path_end(),
{
    "__TRUNK_PATH_END__"
}

/// The text between the first begin marker and the first end marker after
/// it; `None` when a marker is missing or nothing lies between them.
pub open spec fn marked_path_spec(out: Seq<char>) -> Option<Seq<char>> {
    match first_occurrence(out, path_begin()) {
        None => None,
        Some(i) => {
            let rest = out.subrange(i + path_begin().len(), out.len() as int);
            match first_occurrence(rest, path_end()) {
                None => None,
                Some(j) => if j == 0 {
                    None
                } else {
                    Some(rest.subrange(0, j))
                },
            }
        },
    }
}

/// Extracts the `PATH` that the login shell printed between the markers, so
/// that any banner its startup files print around them is ignored.
pub fn parse_marked_path(stdout: &str) -> (r: Option<String>)
    ensures
        match r {
            Some(p) => marked_path_spec(stdout@) == Some(p@),
            None => marked_path_spec(stdout@) is None,
        },
{
    let out = chars_of(stdout);
    let begin = chars_of(path_begin_marker());
    let end = chars_of(path_end_marker());
    let i = match find_chars(&out, &begin) {
        Some(i) => i,
        None => return None,
    };
    let start = i + begin.len();
    let rest = suffix_chars(&out, start);
    let j = match find_chars(&rest, &end) {
        Some(j) => j,
        None => return None,
    };
    if j == 0 {
        None
    } else {
        Some(string_from_chars(&rest, 0, j))
    }
}

/// The text between the first two double quotes, as `path_helper -s` and
/// `path_helper -c` print it (`PATH="..."; export PATH;`).
pub open spec fn path_helper_spec(out: Seq<char>) -> Option<Seq<char>> {
    match first_occurrence(out, seq!['"']) {
        None => None,
        Some(i) => {
            let rest = out.subrange(i + 1, out.len() as int);
            match first_occurrence(rest, seq!['"']) {
                None => None,
                Some(j) => Some(rest.subrange(0, j)),
            }
        },
    }
}

/// Extracts the quoted `PATH` from `path_helper` output.
pub fn parse_path_helper_output(stdout: &str) -> (r: Option<String>)
    ensures
        match r {
            Some(p) => path_helper_spec(stdout@) == Some(p@),
            None => path_helper_spec(stdout@) is None,
        },
{
    let out = chars_of(stdout);
    let mut quote: Vec<char> = Vec::new();
    quote.push('"');
    assert(quote@ == seq!['"']);
    let i = match find_chars(&out, &quote) {
        Some(i) => i,
        None => return None,
    };
    let rest = suffix_chars(&out, i + 1);
    let j = match find_chars(&rest, &quote) {
        Some(j) => j,
        None => return None,
    };
    Some(string_from_chars(&rest, 0, j))
}

/// The `PATH` git subprocesses run with: the one the login shell printed
/// between the markers; else the one `path_helper` printed (on macOS); else
/// the process's own `PATH` (empty when unset).
pub open spec fn resolved_path(
    login_stdout: Option<Seq<char>>,
    helper_stdout: Option<Seq<char>>,
    env_path: Seq<char>,
) -> Seq<char> {
    let from_shell = match login_stdout {
        Some(o) => marked_path_spec(o),
        None => None,
    };
    let from_helper = match helper_stdout {
        Some(o) => path_helper_spec(o),
        None => None,
    };
    match from_shell {
        Some(p) => p,
        None => match from_helper {
            Some(p) => p,
            None => env_path,
        },
    }
}

/// Chooses the `PATH` for git subprocesses from what the login shell printed
/// (`None` when it could not be run or failed), what `path_helper` printed
/// (`None` off macOS or on failure) and the process's `PATH`: the user's
/// shell is asked first, since `path_helper` only knows the system
/// directories.
pub fn system_path(login_shell_stdout: Option<&str>, path_helper_stdout: Option<&str>, env_path: &str) -> (p:
    String)
    ensures
        p@ == resolved_path(
            crate::messages::opt_view(login_shell_stdout),
            crate::messages::opt_view(path_helper_stdout),
            env_path@,
        ),
{
    match login_shell_stdout {
        Some(out) => match parse_marked_path(out) {
            Some(p) => return p,
            None => {},
        },
        None => {},
    }
    match path_helper_stdout {
        Some(out) => match parse_path_helper_output(out) {
            Some(p) => return p,
            None => {},
        },
        None => {},
    }
    env_path.to_owned()
}

/// Whatever banner the shell's startup files print around the markers, the
/// path between them is read back exactly, provided the banner does not
/// hold the begin marker (not even running into it), the path does not
/// hold the end marker, and the path is not empty.
pub proof fn lemma_marked_path_roundtrip(banner: Seq<char>, path: Seq<char>, tail: Seq<char>)
    requires
        first_occurrence(banner + path_begin(), path_begin()) == Some(banner.len() as int),
        first_occurrence(path + path_end(), path_end()) == Some(path.len() as int),
        path.len() > 0,
    ensures
        marked_path_spec(banner + path_begin() + path + path_end() + tail) == Some(path),
{
    let out = banner + path_begin() + path + path_end() + tail;
    let rest = path + path_end() + tail;
    assert(out == (banner + path_begin()) + rest);
    lemma_first_occurrence_prefix(banner + path_begin(), rest, path_begin(), banner.len() as int);
    assert(out.subrange((banner.len() + path_begin().len()) as int, out.len() as int) == rest);
    assert(rest == (path + path_end()) + tail);
    lemma_first_occurrence_prefix(path + path_end(), tail, path_end(), path.len() as int);
    assert(rest.subrange(0, path.len() as int) == path);
}

/// `path_helper` output of the shape `<prefix>"<path>"<suffix>` gives back
/// the path, when neither the prefix nor the path holds a double quote.
pub proof fn lemma_path_helper_roundtrip(prefix: Seq<char>, path: Seq<char>, suffix: Seq<char>)
    requires
        forall|k: int| 0 <= k < prefix.len() ==> prefix[k] != '"',
        forall|k: int| 0 <= k < path.len() ==> path[k] != '"',
    ensures
        path_helper_spec(prefix + seq!['"'] + path + seq!['"'] + suffix) == Some(path),
{
    let out = prefix + seq!['"'] + path + seq!['"'] + suffix;
    let after = path + seq!['"'] + suffix;
    assert(out == prefix + seq!['"'] + after);
    lemma_first_char_after(prefix, '"', after);
    assert(out.subrange(prefix.len() + 1int, out.len() as int) == after);
    lemma_first_char_after(path, '"', suffix);
    assert(after.subrange(0, path.len() as int) == path);
}

} // verus!
