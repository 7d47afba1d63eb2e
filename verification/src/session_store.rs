//! The decisions of per-repository review-session persistence: the on-disk
//! file name of a session (a build-stable FNV-1a hash of the canonical repo
//! path) and the recovery state machine that loading a session file follows.

use vstd::prelude::*;
use vstd::string::*;
use crate::text::push_char;

verus! {

/// The FNV-1a 64-bit offset basis.
pub const FNV_OFFSET_BASIS: u64 = 0xcbf2_9ce4_8422_2325;

/// The FNV-1a 64-bit prime.
pub const FNV_PRIME: u64 = 0x0000_0100_0000_01b3;

/// The highest `schema_version` this build reads.
pub const CURRENT_SCHEMA_VERSION: u32 = 1;

/// One FNV-1a step: xor the byte in, then multiply by the prime modulo 2^64.
pub open spec fn fnv_step(h: u64, b: u8) -> u64 {
    (((h ^ (b as u64)) as nat * FNV_PRIME as nat) % 0x1_0000_0000_0000_0000nat) as u64
}

/// The FNV-1a 64-bit hash of `bytes`.
pub open spec fn fnv1a(bytes: Seq<u8>) -> u64
    decreases bytes.len(),
{
    if bytes.len() == 0 {
        FNV_OFFSET_BASIS
    } else {
        fnv_step(fnv1a(bytes.drop_last()), bytes.last())
    }
}

/// The lowercase hexadecimal digit for `d` (below 16).
pub open spec fn hex_char(d: nat) -> char {
    if d < 10 {
        ((d + 48) as u8) as char
    } else {
        ((d + 87) as u8) as char
    }
}

/// The lowest `n` hexadecimal digits of `h`, most significant first, padded
/// with zeros: `format!("{:0n$x}", h)` for `h` below `16^n`.
pub open spec fn hex_digits(h: nat, n: nat) -> Seq<char>
    decreases n,
{
    if n == 0 {
        Seq::empty()
    } else {
        hex_digits(h / 16, (n - 1) as nat).push(hex_char(h % 16))
    }
}

/// The session file name for a canonical repository path: the FNV-1a hash of
/// the path's UTF-8 bytes as sixteen hex digits, then `.json`.
pub open spec fn session_filename_spec(canonical: Seq<char>) -> Seq<char> {
    hex_digits(fnv1a(vstd::utf8::encode_utf8(canonical)) as nat, 16) + ".json"@
}

/// One FNV-1a step.
fn fnv_step_exec(h: u64, b: u8) -> (r: u64)
    ensures
        r == fnv_step(h, b),
{
    (h ^ (b as u64)).wrapping_mul(FNV_PRIME)
}

/// The hex digit for `d`.
fn hex_char_exec(d: u64) -> (c: char)
    requires
        d < 16,
    ensures
        c == hex_char(d as nat),
{
    if d < 10 {
        ((d + 48) as u8) as char
    } else {
        ((d + 87) as u8) as char
    }
}

/// The lowest `n` hex digits of `h`.
fn hex_digits_exec(h: u64, n: usize) -> (s: String)
    ensures
        s@ == hex_digits(h as nat, n as nat),
    decreases n,
{
    if n == 0 {
        String::new()
    } else {
        let mut s = hex_digits_exec(h / 16, n - 1);
        push_char(&mut s, hex_char_exec(h % 16));
        s
    }
}

/// The FNV-1a hash of a byte slice.
pub fn fnv1a_hash(bytes: &[u8]) -> (h: u64)
    ensures
        h == fnv1a(bytes@),
{
    let mut hash: u64 = FNV_OFFSET_BASIS;
    let mut i: usize = 0;
    while i < bytes.len()
        invariant
            i <= bytes@.len(),
            hash == fnv1a(bytes@.subrange(0, i as int)),
        decreases bytes.len() - i,
    {
        assert(bytes@.subrange(0, i + 1).drop_last() == bytes@.subrange(0, i as int));
        hash = fnv_step_exec(hash, bytes[i]);
        i += 1;
    }
    assert(bytes@.subrange(0, bytes@.len() as int) == bytes@);
    hash
}

/// The file name, inside the sessions directory, of the session for a
/// canonical repository path. The hash is stable across builds and leaves no
/// room for `..` or path separators in the name.
pub fn session_filename(canonical: &str) -> (name: String)
    ensures
        name@ == session_filename_spec(canonical@),
{
    let hash = fnv1a_hash(canonical.as_bytes());
    let mut name = hex_digits_exec(hash, 16);
    crate::text::append_str(&mut name, ".json");
    name
}

/// `hex_digits(h, n)` has `n` characters, each a lowercase hex digit.
pub proof fn lemma_hex_digits_shape(h: nat, n: nat)
    ensures
        hex_digits(h, n).len() == n,
        forall|k: int|
            0 <= k < n ==> {
                let c = #[trigger] hex_digits(h, n)[k];
                ('0' <= c <= '9') || ('a' <= c <= 'f')
            },
    decreases n,
{
    if n > 0 {
        lemma_hex_digits_shape(h / 16, (n - 1) as nat);
        let d = h % 16;
        if d < 10 {
            assert(((d + 48) as u8) as char == hex_char(d));
        }
    }
}

/// A session file name is sixteen lowercase hex digits followed by `.json`:
/// it holds no path separator and no `..`, whatever the canonical path is.
pub proof fn lemma_session_filename_is_flat(canonical: Seq<char>)
    ensures
        session_filename_spec(canonical).len() == 21,
        forall|k: int|
            0 <= k < 21 ==> #[trigger] session_filename_spec(canonical)[k] != '/'
                && session_filename_spec(canonical)[k] != '\\',
        forall|k: int|
            0 <= k < 20 ==> !(#[trigger] session_filename_spec(canonical)[k] == '.'
                && session_filename_spec(canonical)[k + 1] == '.'),
{
    let h = fnv1a(vstd::utf8::encode_utf8(canonical)) as nat;
    lemma_hex_digits_shape(h, 16);
    reveal_strlit(".json");
    let name = session_filename_spec(canonical);
    assert forall|k: int| 0 <= k < 21 implies #[trigger] name[k] != '/' && name[k] != '\\' by {
        if k < 16 {
            assert(name[k] == hex_digits(h, 16)[k]);
        } else {
            assert(name[k] == ".json"@[k - 16]);
        }
    }
    assert forall|k: int| 0 <= k < 20 implies !(#[trigger] name[k] == '.' && name[k + 1] == '.') by {
        if k < 16 {
            assert(name[k] == hex_digits(h, 16)[k]);
        } else {
            assert(name[k + 1] == ".json"@[k + 1 - 16]);
        }
    }
}

} // verus!
