//! The identity codec: forward hashing of a normalized path, the literal
//! escape hatch, and best-effort reversal for diagnostics.
//!
//! The identity of a resource is the host's 64-bit hash of its canonical
//! path string. A filename of the form `0x<hex>` with no extension encodes
//! the identity literally, bypassing hashing. Reversal goes through an
//! external read-only dictionary; an identity the dictionary does not know
//! is rendered as a `0x` hex literal.

use vstd::prelude::*;

use crate::bridge::chars_to_string;
use crate::bridge::hash40_chars;
use crate::bridge::hash40_of;
use crate::bridge::lower_of;
use crate::bridge::lowercase;
use crate::path_norm::alias_legacy_ext;
use crate::path_norm::alias_legacy_ext_spec;
use crate::path_norm::canon_separators;
use crate::path_norm::canon_separators_spec;
use crate::path_norm::extension_of;
use crate::path_norm::file_name_chars;
use crate::path_norm::file_name_spec;
use crate::path_norm::strip_region_chars;
use crate::path_norm::strip_region_spec;
use crate::strutil::rfind_char;
use crate::strutil::str_chars;
use crate::strutil::subvec;
use crate::strutil::trim_leading;
use crate::strutil::trim_leading_chars;

verus! {

/// Whether `c` is a hexadecimal digit (either case).
pub open spec fn is_hex_digit(c: char) -> bool {
    (('0' as u32) <= (c as u32) && (c as u32) <= ('9' as u32)) || (('a' as u32) <= (c as u32) && (c
        as u32) <= ('f' as u32)) || (('A' as u32) <= (c as u32) && (c as u32) <= ('F' as u32))
}

/// The value of a hexadecimal digit; zero for any other character.
pub open spec fn hex_digit_val(c: char) -> nat {
    if ('0' as u32) <= (c as u32) && (c as u32) <= ('9' as u32) {
        ((c as u32) - ('0' as u32)) as nat
    } else if ('a' as u32) <= (c as u32) && (c as u32) <= ('f' as u32) {
        ((c as u32) - ('a' as u32) + 10) as nat
    } else if ('A' as u32) <= (c as u32) && (c as u32) <= ('F' as u32) {
        ((c as u32) - ('A' as u32) + 10) as nat
    } else {
        0
    }
}

/// Whether every character of `s` is a hexadecimal digit.
pub open spec fn all_hex(s: Seq<char>) -> bool {
    forall|i: int| 0 <= i < s.len() ==> is_hex_digit(s[i])
}

/// The number the digits of `s` denote, most significant first.
pub open spec fn hex_val(s: Seq<char>) -> nat
    decreases s.len(),
{
    if s.len() == 0 {
        0
    } else {
        hex_val(s.drop_last()) * 16 + hex_digit_val(s.last())
    }
}

/// What parsing `s` as a hexadecimal 64-bit integer yields: the denoted
/// value when `s` is non-empty, all digits, and the value fits in 64 bits;
/// nothing otherwise.
pub open spec fn parse_hex_spec(s: Seq<char>) -> Option<u64> {
    if s.len() > 0 && all_hex(s) && hex_val(s) <= u64::MAX {
        Some(hex_val(s) as u64)
    } else {
        None
    }
}

/// Sixteen to the power `n`.
pub open spec fn pow16(n: nat) -> nat
    decreases n,
{
    if n == 0 {
        1nat
    } else {
        16 * pow16((n - 1) as nat)
    }
}

/// The denoted value is bounded by sixteen to the number of digits.
pub proof fn lemma_hex_val_bound(s: Seq<char>)
    ensures
        hex_val(s) < pow16(s.len()),
    decreases s.len(),
{
    if s.len() == 0 {
    } else {
        lemma_hex_val_bound(s.drop_last());
        assert(hex_digit_val(s.last()) < 16);
    }
}

/// Sixteen digits at most denote a value that fits in 64 bits.
pub proof fn lemma_hex_val_fits(s: Seq<char>)
    requires
        s.len() <= 16,
    ensures
        hex_val(s) <= u64::MAX,
{
    lemma_hex_val_bound(s);
    lemma_pow16_mono(s.len(), 16);
    assert(pow16(16) == 0x1_0000_0000_0000_0000) by {
        reveal_with_fuel(pow16, 17);
    }
}

/// `pow16` grows with its argument.
pub proof fn lemma_pow16_mono(a: nat, b: nat)
    requires
        a <= b,
    ensures
        pow16(a) <= pow16(b),
    decreases b,
{
    if a < b {
        lemma_pow16_mono(a, (b - 1) as nat);
        assert(pow16(b) == 16 * pow16((b - 1) as nat));
        assert(pow16((b - 1) as nat) >= 1) by {
            lemma_pow16_pos((b - 1) as nat);
        }
    }
}

/// `pow16` is positive.
pub proof fn lemma_pow16_pos(n: nat)
    ensures
        pow16(n) >= 1,
    decreases n,
{
    if n > 0 {
        lemma_pow16_pos((n - 1) as nat);
    }
}

/// The denoted value never shrinks as digits are appended.
proof fn lemma_hex_val_ge_prefix(s: Seq<char>, i: int)
    requires
        0 <= i <= s.len(),
    ensures
        hex_val(s) >= hex_val(s.subrange(0, i)),
    decreases s.len() - i,
{
    if i == s.len() {
        assert(s.subrange(0, i) =~= s);
    } else {
        lemma_hex_val_ge_prefix(s, i + 1);
        let t = s.subrange(0, i + 1);
        assert(t.drop_last() =~= s.subrange(0, i));
        assert(hex_val(t) == hex_val(s.subrange(0, i)) * 16 + hex_digit_val(t.last()));
    }
}

/// The value of a hexadecimal digit, if `c` is one.
fn hex_digit(c: char) -> (r: Option<u64>)
    ensures
        r is Some <==> is_hex_digit(c),
        r is Some ==> r->0 == hex_digit_val(c) && r->0 < 16,
{
    let u = c as u32;
    if 48 <= u && u <= 57 {
        Some((u - 48) as u64)
    } else if 97 <= u && u <= 102 {
        Some((u - 97 + 10) as u64)
    } else if 65 <= u && u <= 70 {
        Some((u - 65 + 10) as u64)
    } else {
        None
    }
}

/// Parses `v` as a hexadecimal 64-bit integer: non-empty, digits only,
/// value within 64 bits; anything else yields `None`.
pub fn parse_hex(v: &Vec<char>) -> (r: Option<u64>)
    ensures
        r == parse_hex_spec(v@),
{
    let n = v.len();
    if n == 0 {
        return None;
    }
    let mut acc: u64 = 0;
    let mut i: usize = 0;
    while i < n
        invariant
            i <= n,
            n == v@.len(),
            forall|k: int| 0 <= k < i ==> is_hex_digit(v@[k]),
            acc == hex_val(v@.subrange(0, i as int)),
        decreases n - i,
    {
        let d = match hex_digit(v[i]) {
            Some(d) => d,
            None => {
                return None;
            },
        };
        if acc > 0x0fff_ffff_ffff_ffff {
            proof {
                let t = v@.subrange(0, i + 1);
                assert(t.drop_last() =~= v@.subrange(0, i as int));
                assert(t.last() == v@[i as int]);
                assert(hex_val(t) == hex_val(v@.subrange(0, i as int)) * 16 + hex_digit_val(
                    v@[i as int],
                ));
                assert(hex_val(t) > u64::MAX);
                lemma_hex_val_ge_prefix(v@, i + 1);
            }
            return None;
        }
        proof {
            let t = v@.subrange(0, i + 1);
            assert(t.drop_last() =~= v@.subrange(0, i as int));
            assert(t.last() == v@[i as int]);
        }
        acc = acc * 16 + d;
        i += 1;
    }
    proof {
        assert(v@.subrange(0, n as int) =~= v@);
    }
    Some(acc)
}

/// The sixteen hexadecimal digit characters, lower case.
pub open spec fn hex_chars_table() -> Seq<char> {
    seq!['0', '1', '2', '3', '4', '5', '6', '7', '8', '9', 'a', 'b', 'c', 'd', 'e', 'f']
}

/// The lower-case hexadecimal rendering of `n`, no leading zeroes beyond
/// the natural width.
pub open spec fn hex_seq_of(n: nat) -> Seq<char>
    decreases n,
{
    if n < 16 {
        seq![hex_chars_table()[n as int]]
    } else {
        hex_seq_of(n / 16).push(hex_chars_table()[(n % 16) as int])
    }
}

/// The rendering of an identity as a literal: `0x` then the hex digits.
pub open spec fn hex_literal_spec(h: u64) -> Seq<char> {
    seq!['0', 'x'] + hex_seq_of(h as nat)
}

/// The hexadecimal digit character for `d`.
fn hex_char(d: u64) -> (c: char)
    requires
        d < 16,
    ensures
        c == hex_chars_table()[d as int],
{
    if d == 0 {
        '0'
    } else if d == 1 {
        '1'
    } else if d == 2 {
        '2'
    } else if d == 3 {
        '3'
    } else if d == 4 {
        '4'
    } else if d == 5 {
        '5'
    } else if d == 6 {
        '6'
    } else if d == 7 {
        '7'
    } else if d == 8 {
        '8'
    } else if d == 9 {
        '9'
    } else if d == 10 {
        'a'
    } else if d == 11 {
        'b'
    } else if d == 12 {
        'c'
    } else if d == 13 {
        'd'
    } else if d == 14 {
        'e'
    } else {
        'f'
    }
}

/// Appends the hexadecimal rendering of `n` to `out`.
fn push_hex(n: u64, out: &mut Vec<char>)
    ensures
        final(out)@ == old(out)@ + hex_seq_of(n as nat),
    decreases n,
{
    if n < 16 {
        let c = hex_char(n);
        out.push(c);
        proof {
            assert(out@ =~= old(out)@ + hex_seq_of(n as nat));
        }
    } else {
        push_hex(n / 16, out);
        let c = hex_char(n % 16);
        out.push(c);
        proof {
            assert(out@ =~= old(out)@ + hex_seq_of(n as nat));
        }
    }
}

/// The display string for an identity: the dictionary's original string
/// when the external dictionary knows the identity, else the `0x` hex
/// literal of the identity itself. Absence of a dictionary entry is not
/// an error.
pub fn get_path_from_hash(hash: u64, known: Option<String>) -> (r: String)
    ensures
        match known {
            Some(s) => r@ == s@,
            None => r@ == hex_literal_spec(hash),
        },
{
    match known {
        Some(s) => s,
        None => {
            let mut v: Vec<char> = Vec::new();
            v.push('0');
            v.push('x');
            push_hex(hash, &mut v);
            proof {
                assert(v@ =~= hex_literal_spec(hash));
            }
            chars_to_string(&v)
        },
    }
}

/// Whether a filename has the shape of a literal identity: the marker
/// `0x` followed by the rest.
pub open spec fn literal_form(f: Seq<char>) -> bool {
    f.len() >= 2 && f[0] == '0' && f[1] == 'x'
}

/// The canonical string a path is hashed as: lower-cased, separators
/// canonicalized, the legacy media extension aliased, the region suffix
/// stripped, leading slashes removed.
pub open spec fn normalized_spec(s: Seq<char>) -> Seq<char> {
    trim_leading(
        strip_region_spec(alias_legacy_ext_spec(canon_separators_spec(lower_of(s)))).0,
        '/',
    )
}

/// The identity a path denotes: a filename `0x<hex>` with no extension is
/// the literal identity it spells; any other path is normalized and
/// hashed.
pub open spec fn smash_hash_spec(s: Seq<char>) -> u64 {
    let f = file_name_spec(s);
    if extension_of(f) is None && literal_form(f) && parse_hex_spec(f.skip(2)) is Some {
        parse_hex_spec(f.skip(2))->0
    } else {
        hash40_of(normalized_spec(s))
    }
}

/// The identity a path denotes.
pub fn smash_hash(path: &str) -> (r: u64)
    ensures
        r == smash_hash_spec(path@),
{
    let v = str_chars(path);
    let f = file_name_chars(&v);
    proof {
        crate::strutil::lemma_last_index_of(f@, '.');
    }
    let has_ext = match rfind_char(&f, '.') {
        Some(d) => d > 0,
        None => false,
    };
    let m = f.len();
    if !has_ext && m >= 2 {
        if f[0] == '0' && f[1] == 'x' {
            let hex_part = subvec(&f, 2, m);
            proof {
                assert(hex_part@ =~= f@.skip(2));
            }
            if let Some(val) = parse_hex(&hex_part) {
                return val;
            }
        }
    }
    let lowered = lowercase(path);
    let lv = str_chars(lowered.as_str());
    let c1 = canon_separators(&lv);
    let c2 = alias_legacy_ext(&c1);
    let (stripped, _region) = strip_region_chars(&c2);
    let t = trim_leading_chars(&stripped, '/');
    hash40_chars(&t)
}

/// The identity of an already-canonical string: hashed as it stands, with
/// no normalization.
pub fn get_smash_hash(path: &str) -> (r: u64)
    ensures
        r == hash40_of(path@),
{
    let v = str_chars(path);
    hash40_chars(&v)
}

/// Law: computing the identity of a normalized string is deterministic —
/// equal strings yield equal identities, in this and in every run, since
/// the identity is a function of the characters alone.
pub proof fn lemma_identity_deterministic(s1: Seq<char>, s2: Seq<char>)
    requires
        s1 == s2,
    ensures
        hash40_of(s1) == hash40_of(s2),
        smash_hash_spec(s1) == smash_hash_spec(s2),
{
}

/// Law: a filename `0x<hex>` of one to sixteen hexadecimal digits and no
/// extension denotes the literal value of those digits, bypassing the
/// hash computation entirely.
pub proof fn lemma_literal_identity(h: Seq<char>)
    requires
        1 <= h.len() <= 16,
        all_hex(h),
    ensures
        smash_hash_spec(seq!['0', 'x'] + h) == hex_val(h) as u64,
{
    let s = seq!['0', 'x'] + h;
    assert forall|j: int| 0 <= j < s.len() implies s[j] != '/' && s[j] != '.' by {
        if j >= 2 {
            assert(s[j] == h[j - 2]);
            assert(is_hex_digit(h[j - 2]));
        }
    }
    crate::strutil::lemma_last_index_of_none(s, '/');
    assert(file_name_spec(s) =~= s);
    crate::strutil::lemma_last_index_of_none(s, '.');
    assert(extension_of(s) is None);
    assert(s.skip(2) =~= h);
    lemma_hex_val_fits(h);
    assert(parse_hex_spec(h) == Some(hex_val(h) as u64));
}

} // verus!
