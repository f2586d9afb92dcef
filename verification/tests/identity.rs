use arcropolis::hashing::get_path_from_hash;
use arcropolis::hashing::get_smash_hash;
use arcropolis::hashing::smash_hash;

// Golden vectors: the identity is the archive's 40-bit scheme — the byte
// length in the upper bits above the CRC-32 of the bytes — pinned here
// against published CRC-32 check values.
#[test]
fn golden_vector_check_string() {
    // CRC-32 of "123456789" is 0xcbf43926.
    assert_eq!(smash_hash("123456789"), (9u64 << 32) | 0xcbf43926);
}

#[test]
fn golden_vector_abc() {
    // CRC-32 of "abc" is 0x352441c2.
    assert_eq!(smash_hash("abc"), (3u64 << 32) | 0x352441c2);
}

#[test]
fn identity_is_deterministic() {
    let a = smash_hash("fighter/mario/model/body/c00/model.numdlb");
    let b = smash_hash("fighter/mario/model/body/c00/model.numdlb");
    assert_eq!(a, b);
}

#[test]
fn identity_matches_archive_library() {
    // A canonical path is hashed exactly as the archive library hashes it.
    let path = "fighter/mario/model/body/c00/model.numdlb";
    assert_eq!(smash_hash(path), smash_arc::hash40(path).0);
    assert_eq!(get_smash_hash(path), smash_arc::hash40(path).0);
}

#[test]
fn normalization_lowercases() {
    assert_eq!(smash_hash("FIGHTER/Mario/Model.NUMDLB"), smash_arc::hash40("fighter/mario/model.numdlb").0);
}

#[test]
fn normalization_canonicalizes_separator() {
    assert_eq!(smash_hash("stream;/sound/v.nus3audio"), smash_arc::hash40("stream:/sound/v.nus3audio").0);
}

#[test]
fn normalization_aliases_legacy_extension() {
    assert_eq!(smash_hash("prebuilt:/movie/intro.mp4"), smash_arc::hash40("prebuilt:/movie/intro.webm").0);
    assert_eq!(smash_hash("prebuilt:/movie/Intro.MP4"), smash_arc::hash40("prebuilt:/movie/intro.webm").0);
}

#[test]
fn normalization_strips_leading_slashes() {
    assert_eq!(smash_hash("/fighter/mario.numdlb"), smash_arc::hash40("fighter/mario.numdlb").0);
}

#[test]
fn normalization_strips_region_before_hashing() {
    assert_eq!(
        smash_hash("sound/bank/voice+us_en.nus3audio"),
        smash_arc::hash40("sound/bank/voice.nus3audio").0
    );
}

#[test]
fn literal_identity_basic() {
    assert_eq!(smash_hash("0xdeadbeef"), 0xdeadbeef);
}

#[test]
fn literal_identity_uppercase_digits() {
    assert_eq!(smash_hash("0xABC"), 0xabc);
}

#[test]
fn literal_identity_in_directory() {
    assert_eq!(smash_hash("mods/pack/0x123"), 0x123);
}

#[test]
fn literal_identity_full_width() {
    assert_eq!(smash_hash("0xffffffffffffffff"), u64::MAX);
}

#[test]
fn literal_with_extension_is_hashed_instead() {
    assert_eq!(smash_hash("0x123.bin"), smash_arc::hash40("0x123.bin").0);
}

#[test]
fn literal_with_no_digits_is_hashed_instead() {
    assert_eq!(smash_hash("0x"), smash_arc::hash40("0x").0);
}

#[test]
fn literal_overflowing_is_hashed_instead() {
    assert_eq!(
        smash_hash("0x10000000000000000"),
        smash_arc::hash40("0x10000000000000000").0
    );
}

#[test]
fn path_from_hash_prefers_dictionary() {
    let h = smash_hash("fighter/mario.numdlb");
    assert_eq!(
        get_path_from_hash(h, Some(String::from("fighter/mario.numdlb"))),
        "fighter/mario.numdlb"
    );
}

#[test]
fn path_from_hash_falls_back_to_hex_literal() {
    assert_eq!(get_path_from_hash(0xcbf43926, None), format!("{:#x}", 0xcbf43926u64));
    assert_eq!(get_path_from_hash(0, None), "0x0");
    assert_eq!(get_path_from_hash(u64::MAX, None), "0xffffffffffffffff");
}

#[test]
fn hex_literal_roundtrip() {
    let h = smash_hash("sound/bank/voice.nus3audio");
    let rendered = get_path_from_hash(h, None);
    assert_eq!(smash_hash(rendered.as_str()), h);
}

#[test]
fn literal_identity_zero() {
    assert_eq!(smash_hash("0x0"), 0);
}

#[test]
fn normalization_collapses_leading_slashes() {
    assert_eq!(smash_hash("//fighter/mario.numdlb"), smash_arc::hash40("fighter/mario.numdlb").0);
}

#[test]
fn normalization_aliases_every_occurrence() {
    assert_eq!(smash_hash("movie/a.mp4.mp4"), smash_arc::hash40("movie/a.webm.webm").0);
}
