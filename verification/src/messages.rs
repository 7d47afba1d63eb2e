//! The texts Trunk composes: commit messages from a subject and a body, tag
//! and stash messages with their defaults, stash names, and short oids.

use vstd::prelude::*;
use vstd::string::*;
use crate::text::{append_str, chars_of, is_blank, push_char, string_from_chars, trim};

verus! {

/// The commit message for a subject and an optional body: the body follows
/// after a blank line unless it is missing or only whitespace.
pub open spec fn commit_message(subject: Seq<char>, body: Option<Seq<char>>) -> Seq<char> {
    match body {
        Some(b) => if trim(b).len() > 0 {
            subject + "\n\n"@ + b
        } else {
            subject
        },
        None => subject,
    }
}

/// The view of an optional string.
pub open spec fn opt_view(s: Option<&str>) -> Option<Seq<char>> {
    match s {
        Some(t) => Some(t@),
        None => None,
    }
}

/// Composes a commit message from a subject and an optional body.
pub fn build_message(subject: &str, body: Option<&str>) -> (m: String)
    ensures
        m@ == commit_message(subject@, opt_view(body)),
{
    let mut m = subject.to_owned();
    match body {
        Some(b) => {
            if !is_blank(b) {
                append_str(&mut m, "\n\n");
                append_str(&mut m, b);
            }
        },
        None => {},
    }
    m
}

/// The message of a new tag: the given message, or the tag name when the
/// message is blank.
pub open spec fn tag_message_spec(tag_name: Seq<char>, message: Seq<char>) -> Seq<char> {
    if trim(message).len() == 0 {
        tag_name
    } else {
        message
    }
}

/// Chooses the message of a new tag.
pub fn tag_message(tag_name: &str, message: &str) -> (m: String)
    ensures
        m@ == tag_message_spec(tag_name@, message@),
{
    if is_blank(message) {
        tag_name.to_owned()
    } else {
        message.to_owned()
    }
}

/// The message of a new stash: the given message, or `WIP on <branch>` when
/// it is blank, naming `HEAD` when there is no branch shorthand.
pub open spec fn stash_message_spec(message: Seq<char>, head_shorthand: Option<Seq<char>>) -> Seq<char> {
    if trim(message).len() == 0 {
        "WIP on "@ + match head_shorthand {
            Some(b) => b,
            None => "HEAD"@,
        }
    } else {
        message
    }
}

/// Chooses the message of a new stash.
pub fn stash_message(message: &str, head_shorthand: Option<&str>) -> (m: String)
    ensures
        m@ == stash_message_spec(message@, opt_view(head_shorthand)),
{
    if is_blank(message) {
        let mut m = String::new();
        append_str(&mut m, "WIP on ");
        match head_shorthand {
            Some(b) => append_str(&mut m, b),
            None => append_str(&mut m, "HEAD"),
        }
        m
    } else {
        message.to_owned()
    }
}

/// The decimal digit for `d` (below 10).
pub open spec fn digit_char(d: nat) -> char {
    ((d + 48) as u8) as char
}

/// The decimal representation of `n`, without leading zeros.
pub open spec fn decimal(n: nat) -> Seq<char>
    decreases n,
{
    if n < 10 {
        seq![digit_char(n)]
    } else {
        decimal(n / 10).push(digit_char(n % 10))
    }
}

/// Formats `n` in decimal.
pub fn decimal_u64(n: u64) -> (s: String)
    ensures
        s@ == decimal(n as nat),
    decreases n,
{
    if n < 10 {
        let mut s = String::new();
        push_char(&mut s, ((n + 48) as u8) as char);
        s
    } else {
        let mut s = decimal_u64(n / 10);
        push_char(&mut s, ((n % 10 + 48) as u8) as char);
        s
    }
}

/// Formats `n` in decimal.
pub fn decimal_string(n: usize) -> (s: String)
    ensures
        s@ == decimal(n as nat),
{
    decimal_u64(n as u64)
}

/// The decimal representation of a signed number, with a leading `-` when
/// it is negative.
pub open spec fn signed_decimal(n: int) -> Seq<char> {
    if n < 0 {
        "-"@ + decimal((-n) as nat)
    } else {
        decimal(n as nat)
    }
}

/// Formats a signed number in decimal, as `Display` for `i64` does.
pub fn decimal_i64(n: i64) -> (s: String)
    ensures
        s@ == signed_decimal(n as int),
{
    if n < 0 {
        let m: u64 = (0i128 - (n as i128)) as u64;
        let mut s = String::new();
        append_str(&mut s, "-");
        let d = decimal_u64(m);
        append_str(&mut s, d.as_str());
        s
    } else {
        decimal_u64(n as u64)
    }
}

/// The name git shows for the stash at `index`: `stash@{index}`.
pub open spec fn stash_short_name_spec(index: nat) -> Seq<char> {
    "stash@{"@ + decimal(index) + "}"@
}

/// Names the stash at `index`.
pub fn stash_short_name(index: usize) -> (s: String)
    ensures
        s@ == stash_short_name_spec(index as nat),
{
    let mut s = String::new();
    append_str(&mut s, "stash@{");
    let d = decimal_string(index);
    append_str(&mut s, d.as_str());
    append_str(&mut s, "}");
    s
}

/// The first seven characters of an oid, or all of it when it is shorter.
pub open spec fn short_oid_spec(oid: Seq<char>) -> Seq<char> {
    if oid.len() <= 7 {
        oid
    } else {
        oid.subrange(0, 7)
    }
}

/// Abbreviates an oid to its first seven characters.
pub fn short_oid(oid: &str) -> (s: String)
    ensures
        s@ == short_oid_spec(oid@),
{
    let v = chars_of(oid);
    if v.len() <= 7 {
        string_from_chars(&v, 0, v.len())
    } else {
        string_from_chars(&v, 0, 7)
    }
}


/// A commit message keeps the whole body when it is not blank: the subject,
/// a blank line, then every character of the body.
pub proof fn law_commit_message_keeps_the_whole_body(subject: Seq<char>, body: Seq<char>)
    requires
        trim(body).len() > 0,
    ensures
        commit_message(subject, Some(body)).len() == subject.len() + 2 + body.len(),
        commit_message(subject, Some(body)).subrange(0, subject.len() as int) == subject,
        commit_message(subject, Some(body))[subject.len() as int] == '\n',
        commit_message(subject, Some(body))[subject.len() as int + 1] == '\n',
        commit_message(subject, Some(body)).subrange(subject.len() as int + 2, subject.len() as int + 2 + body.len() as int) == body,
{
    reveal_strlit("\n\n");
    let m = commit_message(subject, Some(body));
    assert(m == subject + "\n\n"@ + body);
    assert(m.subrange(0, subject.len() as int) =~= subject);
    assert(m.subrange(subject.len() as int + 2, subject.len() as int + 2 + body.len() as int) =~= body);
}

/// A missing or blank body leaves the message as the subject alone.
pub proof fn law_commit_message_without_body_is_the_subject(subject: Seq<char>, body: Option<Seq<char>>)
    requires
        body matches Some(b) ==> trim(b).len() == 0,
    ensures
        commit_message(subject, body) == subject,
{
}

} // verus!
