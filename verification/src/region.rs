//! The fixed, closed catalog of locale (region) tags.
//!
//! A region is a property of a path variant: certain resource paths carry a
//! `+<tag>` suffix naming one of fourteen locales. Any suffix outside the
//! catalog is not a region.

use vstd::prelude::*;

use crate::strutil::str_chars;

verus! {

/// One locale tag of the closed catalog.
#[derive(Clone, Copy, Debug, PartialEq, Eq, Structural, Hash)]
pub enum Region {
    Japanese,
    UsEnglish,
    UsFrench,
    UsSpanish,
    EuEnglish,
    EuFrench,
    EuSpanish,
    EuGerman,
    EuDutch,
    EuItalian,
    EuRussian,
    Korean,
    ChinaChinese,
    TaiwanChinese,
}

/// The textual tag of a region, as it appears in a path suffix.
pub open spec fn region_tag(r: Region) -> Seq<char> {
    match r {
        Region::Japanese => seq!['j', 'p', '_', 'j', 'a'],
        Region::UsEnglish => seq!['u', 's', '_', 'e', 'n'],
        Region::UsFrench => seq!['u', 's', '_', 'f', 'r'],
        Region::UsSpanish => seq!['u', 's', '_', 'e', 's'],
        Region::EuEnglish => seq!['e', 'u', '_', 'e', 'n'],
        Region::EuFrench => seq!['e', 'u', '_', 'f', 'r'],
        Region::EuSpanish => seq!['e', 'u', '_', 'e', 's'],
        Region::EuGerman => seq!['e', 'u', '_', 'd', 'e'],
        Region::EuDutch => seq!['e', 'u', '_', 'n', 'l'],
        Region::EuItalian => seq!['e', 'u', '_', 'i', 't'],
        Region::EuRussian => seq!['e', 'u', '_', 'r', 'u'],
        Region::Korean => seq!['k', 'r', '_', 'k', 'o'],
        Region::ChinaChinese => seq!['z', 'h', '_', 'c', 'n'],
        Region::TaiwanChinese => seq!['z', 'h', '_', 't', 'w'],
    }
}

/// The region named by a candidate suffix: `Some` exactly for the fourteen
/// tags of the catalog, `None` for everything else. A malformed suffix is
/// indistinguishable from an absent one by design.
pub open spec fn region_of_spec(s: Seq<char>) -> Option<Region> {
    if s == region_tag(Region::Japanese) {
        Some(Region::Japanese)
    } else if s == region_tag(Region::UsEnglish) {
        Some(Region::UsEnglish)
    } else if s == region_tag(Region::UsFrench) {
        Some(Region::UsFrench)
    } else if s == region_tag(Region::UsSpanish) {
        Some(Region::UsSpanish)
    } else if s == region_tag(Region::EuEnglish) {
        Some(Region::EuEnglish)
    } else if s == region_tag(Region::EuFrench) {
        Some(Region::EuFrench)
    } else if s == region_tag(Region::EuSpanish) {
        Some(Region::EuSpanish)
    } else if s == region_tag(Region::EuGerman) {
        Some(Region::EuGerman)
    } else if s == region_tag(Region::EuDutch) {
        Some(Region::EuDutch)
    } else if s == region_tag(Region::EuItalian) {
        Some(Region::EuItalian)
    } else if s == region_tag(Region::EuRussian) {
        Some(Region::EuRussian)
    } else if s == region_tag(Region::Korean) {
        Some(Region::Korean)
    } else if s == region_tag(Region::ChinaChinese) {
        Some(Region::ChinaChinese)
    } else if s == region_tag(Region::TaiwanChinese) {
        Some(Region::TaiwanChinese)
    } else {
        None
    }
}

/// Every catalog tag is five characters long and uses none of the path
/// markers (`+`, `.`, `/`).
pub proof fn lemma_region_tag_chars(r: Region)
    ensures
        region_tag(r).len() == 5,
        forall|i: int|
            0 <= i < 5 ==> region_tag(r)[i] != '+' && region_tag(r)[i] != '.' && region_tag(r)[i]
                != '/',
{
}

/// Resolving the tag of a region yields that region: the catalog is
/// unambiguous.
pub proof fn lemma_region_tag_roundtrip(r: Region)
    ensures
        region_of_spec(region_tag(r)) == Some(r),
{
}

/// The region named by a candidate suffix, over its characters.
pub fn region_from_chars(v: &Vec<char>) -> (r: Option<Region>)
    ensures
        r == region_of_spec(v@),
{
    if v.len() != 5 {
        return None;
    }
    let c0 = v[0];
    let c1 = v[1];
    let c2 = v[2];
    let c3 = v[3];
    let c4 = v[4];
    if c2 != '_' {
        return None;
    }
    let r = if c0 == 'j' && c1 == 'p' && c3 == 'j' && c4 == 'a' {
        Some(Region::Japanese)
    } else if c0 == 'u' && c1 == 's' && c3 == 'e' && c4 == 'n' {
        Some(Region::UsEnglish)
    } else if c0 == 'u' && c1 == 's' && c3 == 'f' && c4 == 'r' {
        Some(Region::UsFrench)
    } else if c0 == 'u' && c1 == 's' && c3 == 'e' && c4 == 's' {
        Some(Region::UsSpanish)
    } else if c0 == 'e' && c1 == 'u' && c3 == 'e' && c4 == 'n' {
        Some(Region::EuEnglish)
    } else if c0 == 'e' && c1 == 'u' && c3 == 'f' && c4 == 'r' {
        Some(Region::EuFrench)
    } else if c0 == 'e' && c1 == 'u' && c3 == 'e' && c4 == 's' {
        Some(Region::EuSpanish)
    } else if c0 == 'e' && c1 == 'u' && c3 == 'd' && c4 == 'e' {
        Some(Region::EuGerman)
    } else if c0 == 'e' && c1 == 'u' && c3 == 'n' && c4 == 'l' {
        Some(Region::EuDutch)
    } else if c0 == 'e' && c1 == 'u' && c3 == 'i' && c4 == 't' {
        Some(Region::EuItalian)
    } else if c0 == 'e' && c1 == 'u' && c3 == 'r' && c4 == 'u' {
        Some(Region::EuRussian)
    } else if c0 == 'k' && c1 == 'r' && c3 == 'k' && c4 == 'o' {
        Some(Region::Korean)
    } else if c0 == 'z' && c1 == 'h' && c3 == 'c' && c4 == 'n' {
        Some(Region::ChinaChinese)
    } else if c0 == 'z' && c1 == 'h' && c3 == 't' && c4 == 'w' {
        Some(Region::TaiwanChinese)
    } else {
        None
    };
    proof {
        if r is Some {
            assert(v@ =~= region_tag(r->0));
        }
    }
    r
}

/// The region named by a candidate suffix string. Recognizes only the
/// fourteen tags of the catalog; anything else yields `None`, the same
/// answer as "no region was present".
pub fn get_region_from_suffix(suffix: &str) -> (r: Option<Region>)
    ensures
        r == region_of_spec(suffix@),
{
    let v = str_chars(suffix);
    region_from_chars(&v)
}

} // verus!
