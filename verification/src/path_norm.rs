//! Path shape and normalization steps: filename, extension, stream prefix,
//! separator canonicalization, legacy-extension aliasing, region suffix.
//!
//! A path is read as a sequence of characters. The filename is what follows
//! the last `/`; an extension is what follows the last `.` of the filename,
//! provided that dot is not the filename's first character. A region suffix
//! is a `+<tag>` segment sitting immediately before the final extension,
//! inside the filename only: stripping never crosses a `/`, and an
//! unrecognized tag is removed all the same but names no region.

use vstd::prelude::*;
use vstd::string::*;

use crate::region::Region;
use crate::region::region_from_chars;
use crate::region::region_of_spec;
use crate::strutil::chars_eq;
use crate::strutil::find_char;
use crate::strutil::first_index_of;
use crate::strutil::last_index_of;
use crate::strutil::rfind_char;
use crate::strutil::str_chars;
use crate::strutil::subvec;
use crate::strutil::trim_leading;
use crate::strutil::trim_leading_chars;
use crate::bridge::chars_to_string;

verus! {

/// The error reported when an input path cannot be interpreted as valid
/// text, so no identity can be derived from it. Callers treat it as "no
/// identity", never as a fatal condition.
#[derive(Clone, Copy, Debug, PartialEq, Eq, Structural)]
pub struct InvalidOsStrError;

impl InvalidOsStrError {
    /// A human-readable description of the error.
    pub fn message(&self) -> (r: String)
        ensures
            r@ == "Failed to convert from OsStr to &str"@,
    {
        String::from_str("Failed to convert from OsStr to &str")
    }
}

/// The filename component: everything after the last `/` (the whole path
/// when it has no `/`).
pub open spec fn file_name_spec(s: Seq<char>) -> Seq<char> {
    s.subrange(last_index_of(s, '/') + 1, s.len() as int)
}

/// The extension of a filename: what follows its last `.`, provided that
/// dot exists and is not the filename's first character.
pub open spec fn extension_of(f: Seq<char>) -> Option<Seq<char>> {
    let d = last_index_of(f, '.');
    if d > 0 {
        Some(f.subrange(d + 1, f.len() as int))
    } else {
        None
    }
}

/// Whether the path's filename carries exactly the extension `e`.
pub open spec fn has_extension_spec(s: Seq<char>, e: Seq<char>) -> bool {
    match extension_of(file_name_spec(s)) {
        Some(x) => x == e,
        None => false,
    }
}

/// The filename component of `v`, as a vector.
pub(crate) fn file_name_chars(v: &Vec<char>) -> (r: Vec<char>)
    ensures
        r@ == file_name_spec(v@),
{
    proof {
        crate::strutil::lemma_last_index_of(v@, '/');
    }
    let n = v.len();
    let start: usize = match rfind_char(v, '/') {
        Some(i) => i + 1,
        None => 0,
    };
    subvec(v, start, n)
}

/// Whether the path's filename carries exactly the extension `ext`.
pub fn has_extension(path: &str, ext: &str) -> (r: bool)
    ensures
        r == has_extension_spec(path@, ext@),
{
    let v = str_chars(path);
    let f = file_name_chars(&v);
    proof {
        crate::strutil::lemma_last_index_of(f@, '.');
    }
    let m = f.len();
    match rfind_char(&f, '.') {
        Some(d) => {
            if d > 0 {
                let x = subvec(&f, d + 1, m);
                let e = str_chars(ext);
                chars_eq(&x, &e)
            } else {
                false
            }
        },
        None => false,
    }
}

/// The seven characters of the stream prefix ending in `:`.
pub open spec fn stream_colon() -> Seq<char> {
    seq!['s', 't', 'r', 'e', 'a', 'm', ':']
}

/// The seven characters of the stream prefix ending in `;`.
pub open spec fn stream_semi() -> Seq<char> {
    seq!['s', 't', 'r', 'e', 'a', 'm', ';']
}

/// The first path component: what precedes the first `/` once leading
/// slashes are removed.
pub open spec fn first_component(s: Seq<char>) -> Seq<char> {
    let t = trim_leading(s, '/');
    let k = first_index_of(t, '/');
    if k >= 0 {
        t.subrange(0, k)
    } else {
        t
    }
}

/// Whether the path addresses the stream area: its first component is
/// `stream:` or `stream;`, with or without leading slashes.
pub open spec fn is_stream_spec(s: Seq<char>) -> bool {
    first_component(s) == stream_colon() || first_component(s) == stream_semi()
}

/// Whether the path addresses the stream area.
pub fn is_stream(path: &str) -> (r: bool)
    ensures
        r == is_stream_spec(path@),
{
    let v = str_chars(path);
    let t = trim_leading_chars(&v, '/');
    proof {
        crate::strutil::lemma_first_index_of(t@, '/');
        assert(t@.subrange(0, t@.len() as int) =~= t@);
    }
    let comp = match find_char(&t, '/') {
        Some(k) => subvec(&t, 0, k),
        None => subvec(&t, 0, t.len()),
    };
    proof {
        assert(comp@ == first_component(path@));
    }
    if comp.len() != 7 {
        return false;
    }
    let ok = comp[0] == 's' && comp[1] == 't' && comp[2] == 'r' && comp[3] == 'e' && comp[4] == 'a'
        && comp[5] == 'm';
    if !ok {
        false
    } else if comp[6] == ':' {
        proof {
            assert(comp@ =~= stream_colon());
        }
        true
    } else if comp[6] == ';' {
        proof {
            assert(comp@ =~= stream_semi());
        }
        true
    } else {
        false
    }
}

/// Region stripping: when the path holds a `+` inside its filename and a
/// later `.`, the span from that last `+` up to (not including) the last
/// `.` is removed — the extension stays — and the characters between name
/// the candidate region. The rule fires on the delimiters alone: an
/// unrecognized candidate is still removed but yields no region. When the
/// rule does not fire the path is returned untouched.
pub open spec fn strip_region_spec(s: Seq<char>) -> (Seq<char>, Option<Region>) {
    let p = last_index_of(s, '+');
    let d = last_index_of(s, '.');
    let sl = last_index_of(s, '/');
    if p >= 0 && d > p && p > sl {
        (s.subrange(0, p) + s.subrange(d, s.len() as int), region_of_spec(s.subrange(p + 1, d)))
    } else {
        (s, None)
    }
}

/// Region stripping over a character vector.
pub fn strip_region_chars(v: &Vec<char>) -> (r: (Vec<char>, Option<Region>))
    ensures
        r.0@ == strip_region_spec(v@).0,
        r.1 == strip_region_spec(v@).1,
{
    proof {
        assert(v@.subrange(0, v@.len() as int) =~= v@);
        crate::strutil::lemma_last_index_of(v@, '+');
        crate::strutil::lemma_last_index_of(v@, '.');
        crate::strutil::lemma_last_index_of(v@, '/');
    }
    let n = v.len();
    let p = match rfind_char(v, '+') {
        Some(p) => p,
        None => {
            return (subvec(v, 0, n), None);
        },
    };
    let d_after = match rfind_char(v, '.') {
        Some(d) => d > p,
        None => false,
    };
    let in_name = match rfind_char(v, '/') {
        Some(sl) => p > sl,
        None => true,
    };
    if d_after && in_name {
        let d = match rfind_char(v, '.') {
            Some(d) => d,
            None => 0,
        };
        let mut head = subvec(v, 0, p);
        let mut tail = subvec(v, d, n);
        let cand = subvec(v, p + 1, d);
        let reg = region_from_chars(&cand);
        head.append(&mut tail);
        (head, reg)
    } else {
        (subvec(v, 0, n), None)
    }
}

/// Strips the region suffix from a path, returning the path without the
/// suffix and the region the suffix named, if any.
pub fn strip_region_from_path(path: &str) -> (r: (String, Option<Region>))
    ensures
        r.0@ == strip_region_spec(path@).0,
        r.1 == strip_region_spec(path@).1,
{
    let v = str_chars(path);
    let (stripped, reg) = strip_region_chars(&v);
    (chars_to_string(&stripped), reg)
}

/// The region a path's filename names: the candidate is everything after
/// the first `+` of the filename (extension included), resolved against
/// the catalog. No normalization is performed and the path is not changed.
pub open spec fn get_region_from_path_spec(s: Seq<char>) -> Option<Region> {
    let f = file_name_spec(s);
    let k = first_index_of(f, '+');
    if k >= 0 {
        region_of_spec(f.subrange(k + 1, f.len() as int))
    } else {
        None
    }
}

/// The region a path's filename names, if any.
pub fn get_region_from_path(path: &str) -> (r: Option<Region>)
    ensures
        r == get_region_from_path_spec(path@),
{
    let v = str_chars(path);
    let f = file_name_chars(&v);
    let m = f.len();
    match find_char(&f, '+') {
        Some(k) => {
            proof {
                crate::strutil::lemma_first_index_of(f@, '+');
            }
            let cand = subvec(&f, k + 1, m);
            region_from_chars(&cand)
        },
        None => None,
    }
}

/// Separator canonicalization: the host's alternate stream separator `;`
/// becomes the canonical `:`; every other character is kept.
pub open spec fn canon_separators_spec(s: Seq<char>) -> Seq<char> {
    s.map(|i: int, c: char| if c == ';' { ':' } else { c })
}

/// Separator canonicalization over a character vector.
pub fn canon_separators(v: &Vec<char>) -> (r: Vec<char>)
    ensures
        r@ == canon_separators_spec(v@),
{
    let mut out: Vec<char> = Vec::new();
    let mut i: usize = 0;
    while i < v.len()
        invariant
            i <= v.len(),
            out@.len() == i,
            forall|k: int| 0 <= k < i ==> out@[k] == canon_separators_spec(v@)[k],
        decreases v.len() - i,
    {
        let c = v[i];
        if c == ';' {
            out.push(':');
        } else {
            out.push(c);
        }
        i += 1;
    }
    proof {
        assert(out@ =~= canon_separators_spec(v@));
    }
    out
}

/// The four characters of the legacy media extension.
pub open spec fn mp4_seq() -> Seq<char> {
    seq!['.', 'm', 'p', '4']
}

/// The five characters of its modern equivalent.
pub open spec fn webm_seq() -> Seq<char> {
    seq!['.', 'w', 'e', 'b', 'm']
}

/// Extension aliasing: every occurrence of the legacy media extension is
/// rewritten to its modern equivalent, left to right, without overlap.
pub open spec fn alias_legacy_ext_spec(s: Seq<char>) -> Seq<char>
    decreases s.len(),
{
    if s.len() < 4 {
        s
    } else if s.subrange(0, 4) == mp4_seq() {
        webm_seq() + alias_legacy_ext_spec(s.skip(4))
    } else {
        seq![s[0]] + alias_legacy_ext_spec(s.skip(1))
    }
}

/// Extension aliasing over a character vector.
pub fn alias_legacy_ext(v: &Vec<char>) -> (r: Vec<char>)
    ensures
        r@ == alias_legacy_ext_spec(v@),
{
    let mut out: Vec<char> = Vec::new();
    let mut i: usize = 0;
    proof {
        assert(v@.subrange(0, v@.len() as int) =~= v@);
    }
    while i < v.len()
        invariant
            i <= v.len(),
            alias_legacy_ext_spec(v@) == out@ + alias_legacy_ext_spec(
                v@.subrange(i as int, v@.len() as int),
            ),
        decreases v.len() - i,
    {
        let ghost rest = v@.subrange(i as int, v@.len() as int);
        let ghost out0 = out@;
        if v.len() - i >= 4 && v[i] == '.' && v[i + 1] == 'm' && v[i + 2] == 'p' && v[i + 3] == '4' {
            proof {
                assert(rest.subrange(0, 4) =~= mp4_seq());
                assert(rest.skip(4) =~= v@.subrange(i + 4, v@.len() as int));
            }
            out.push('.');
            out.push('w');
            out.push('e');
            out.push('b');
            out.push('m');
            i += 4;
            proof {
                assert(out@ =~= out0 + webm_seq());
                assert(out0 + webm_seq() + alias_legacy_ext_spec(
                    v@.subrange(i as int, v@.len() as int),
                ) =~= out0 + (webm_seq() + alias_legacy_ext_spec(
                    v@.subrange(i as int, v@.len() as int),
                )));
            }
        } else {
            proof {
                if rest.len() >= 4 {
                    if rest.subrange(0, 4) == mp4_seq() {
                        assert(rest[0] == v@[i as int]);
                        assert(rest.subrange(0, 4)[0] == rest[0]);
                        assert(rest.subrange(0, 4)[1] == rest[1]);
                        assert(rest.subrange(0, 4)[2] == rest[2]);
                        assert(rest.subrange(0, 4)[3] == rest[3]);
                        assert(rest[1] == v@[i + 1]);
                        assert(rest[2] == v@[i + 2]);
                        assert(rest[3] == v@[i + 3]);
                        assert(false);
                    }
                }
                assert(rest.skip(1) =~= v@.subrange(i + 1, v@.len() as int));
            }
            out.push(v[i]);
            i += 1;
            proof {
                assert(out@ =~= out0 + seq![rest[0]]);
                assert(out0 + seq![rest[0]] + alias_legacy_ext_spec(
                    v@.subrange(i as int, v@.len() as int),
                ) =~= out0 + (seq![rest[0]] + alias_legacy_ext_spec(
                    v@.subrange(i as int, v@.len() as int),
                )));
            }
        }
    }
    proof {
        assert(v@.subrange(v@.len() as int, v@.len() as int) =~= Seq::<char>::empty());
        assert(out@ + Seq::<char>::empty() =~= out@);
    }
    out
}


/// Law: for any stem `b`, any candidate suffix free of delimiters, and any
/// extension free of delimiters, stripping `b + "+" + suf + "." + e`
/// removes exactly the `+suf` span — whether or not the suffix names a
/// region — and resolves the candidate against the catalog.
pub proof fn lemma_strip_region_suffix(b: Seq<char>, suf: Seq<char>, e: Seq<char>)
    requires
        forall|i: int| 0 <= i < suf.len() ==> suf[i] != '+' && suf[i] != '.' && suf[i] != '/',
        forall|i: int| 0 <= i < e.len() ==> e[i] != '+' && e[i] != '.' && e[i] != '/',
    ensures
        ({
            let p = b + seq!['+'] + suf + seq!['.'] + e;
            strip_region_spec(p).0 == b + seq!['.'] + e && strip_region_spec(p).1 == region_of_spec(
                suf,
            )
        }),
{
    let p = b + seq!['+'] + suf + seq!['.'] + e;
    let bl = b.len() as int;
    let dl = bl + 1 + suf.len() as int;
    assert(p.len() == b.len() + 2 + suf.len() + e.len());
    assert(p[bl] == '+');
    assert(p[dl] == '.');
    assert forall|j: int| bl < j < p.len() && j != dl implies p[j] != '+' && p[j] != '.' && p[j]
        != '/' by {
        if j < dl {
            assert(p[j] == suf[j - bl - 1]);
        } else {
            assert(p[j] == e[j - dl - 1]);
        }
    }
    crate::strutil::lemma_last_index_of_unique(p, '+', bl);
    crate::strutil::lemma_last_index_of_unique(p, '.', dl);
    crate::strutil::lemma_last_index_of(p, '/');
    let sl = last_index_of(p, '/');
    if sl >= bl {
        assert(p[sl] == '/');
        assert(false);
    }
    assert(p.subrange(0, bl) =~= b);
    assert(p.subrange(dl, p.len() as int) =~= seq!['.'] + e);
    assert(p.subrange(bl + 1, dl) =~= suf);
    assert(p.subrange(0, bl) + p.subrange(dl, p.len() as int) =~= b + seq!['.'] + e);
}

/// Law: a valid region tag before the extension is stripped and returned
/// as that region: `b + "+" + tag + "." + e` yields `b + "." + e` and the
/// tag's region, for any stem and any delimiter-free extension.
pub proof fn lemma_strip_region_valid_tag(b: Seq<char>, e: Seq<char>, r: Region)
    requires
        forall|i: int| 0 <= i < e.len() ==> e[i] != '+' && e[i] != '.' && e[i] != '/',
    ensures
        ({
            let p = b + seq!['+'] + crate::region::region_tag(r) + seq!['.'] + e;
            strip_region_spec(p).0 == b + seq!['.'] + e && strip_region_spec(p).1 == Some(r)
        }),
{
    crate::region::lemma_region_tag_chars(r);
    lemma_strip_region_suffix(b, crate::region::region_tag(r), e);
    crate::region::lemma_region_tag_roundtrip(r);
}

} // verus!
