use arcropolis::path_norm::has_extension;
use arcropolis::path_norm::is_stream;
use arcropolis::path_norm::strip_region_from_path;
use arcropolis::path_norm::InvalidOsStrError;
use arcropolis::region::get_region_from_suffix;
use arcropolis::region::Region;

#[test]
fn strip_region_valid_suffix() {
    let (path, region) = strip_region_from_path("stream:/voice/dialogue+us_en.nus3audio");
    assert_eq!(path, "stream:/voice/dialogue.nus3audio");
    assert_eq!(region, Some(Region::UsEnglish));
}

#[test]
fn strip_region_eu_de() {
    let (path, region) = strip_region_from_path("sound/bank/voice+eu_de.nus3audio");
    assert_eq!(path, "sound/bank/voice.nus3audio");
    assert_eq!(region, Some(Region::EuGerman));
}

#[test]
fn strip_region_unrecognized_suffix_still_removed() {
    let (path, region) = strip_region_from_path("stream:/voice/dialogue+zz_zz.nus3audio");
    assert_eq!(path, "stream:/voice/dialogue.nus3audio");
    assert_eq!(region, None);
}

#[test]
fn strip_region_without_plus_is_untouched() {
    let (path, region) = strip_region_from_path("fighter/mario/model.numdlb");
    assert_eq!(path, "fighter/mario/model.numdlb");
    assert_eq!(region, None);
}

#[test]
fn strip_region_without_dot_after_plus_is_untouched() {
    let (path, region) = strip_region_from_path("fighter/mario+us_en");
    assert_eq!(path, "fighter/mario+us_en");
    assert_eq!(region, None);
}

#[test]
fn strip_region_never_crosses_a_separator() {
    let (path, region) = strip_region_from_path("pack+extra/file.bin");
    assert_eq!(path, "pack+extra/file.bin");
    assert_eq!(region, None);
}

#[test]
fn region_from_path_extensionless_candidate() {
    assert_eq!(
        arcropolis::path_norm::get_region_from_path("sound/dialogue+kr_ko"),
        Some(Region::Korean)
    );
}

#[test]
fn region_from_path_candidate_includes_extension() {
    // The candidate runs to the end of the filename, extension included,
    // so a suffixed filename with an extension names no region here.
    assert_eq!(
        arcropolis::path_norm::get_region_from_path("sound/dialogue+us_en.nus3audio"),
        None
    );
}

#[test]
fn region_from_path_without_plus() {
    assert_eq!(arcropolis::path_norm::get_region_from_path("sound/dialogue.nus3audio"), None);
}

#[test]
fn region_suffix_catalog_complete() {
    let expected = [
        ("jp_ja", Region::Japanese),
        ("us_en", Region::UsEnglish),
        ("us_fr", Region::UsFrench),
        ("us_es", Region::UsSpanish),
        ("eu_en", Region::EuEnglish),
        ("eu_fr", Region::EuFrench),
        ("eu_es", Region::EuSpanish),
        ("eu_de", Region::EuGerman),
        ("eu_nl", Region::EuDutch),
        ("eu_it", Region::EuItalian),
        ("eu_ru", Region::EuRussian),
        ("kr_ko", Region::Korean),
        ("zh_cn", Region::ChinaChinese),
        ("zh_tw", Region::TaiwanChinese),
    ];
    for (tag, region) in expected {
        assert_eq!(get_region_from_suffix(tag), Some(region));
    }
}

#[test]
fn region_suffix_rejects_unknown_and_case() {
    assert_eq!(get_region_from_suffix("zz_zz"), None);
    assert_eq!(get_region_from_suffix("US_EN"), None);
    assert_eq!(get_region_from_suffix("us_e"), None);
    assert_eq!(get_region_from_suffix("us_en2"), None);
    assert_eq!(get_region_from_suffix(""), None);
}

#[test]
fn stream_prefixes() {
    assert!(is_stream("stream:/voice/dialogue.nus3audio"));
    assert!(is_stream("stream;/voice/dialogue.nus3audio"));
    assert!(is_stream("/stream:/voice/dialogue.nus3audio"));
    assert!(is_stream("/stream;"));
    assert!(!is_stream("streaming/voice.nus3audio"));
    assert!(!is_stream("stream:extra/voice.nus3audio"));
    assert!(!is_stream("fighter/mario.numdlb"));
}

#[test]
fn extension_checks() {
    assert!(has_extension("fighter/mario/model.numdlb", "numdlb"));
    assert!(!has_extension("fighter/mario/model.numdlb", "nus3audio"));
    assert!(!has_extension("fighter/mario/model", "numdlb"));
    assert!(!has_extension("fighter/.hidden", "hidden"));
    assert!(has_extension("archive.tar.gz", "gz"));
}

#[test]
fn invalid_text_error_message() {
    let err = InvalidOsStrError;
    assert_eq!(err.message(), "Failed to convert from OsStr to &str");
}

#[test]
fn strip_region_spans_up_to_the_last_dot() {
    // The removed span runs from the last `+` to the last `.`, so an
    // inner dot is consumed with the candidate.
    let (path, region) = strip_region_from_path("a/b+x.tar.gz");
    assert_eq!(path, "a/b.gz");
    assert_eq!(region, None);
}

#[test]
fn strip_region_plus_after_dot_is_untouched() {
    let (path, region) = strip_region_from_path("a/b.c+d");
    assert_eq!(path, "a/b.c+d");
    assert_eq!(region, None);
}
