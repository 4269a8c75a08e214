//! The record codec, the raw descriptor builder, and the console-answer
//! interpretation, on concrete values.

use descriptor_provisioner::prompt::is_yes;
use descriptor_provisioner::provision::build_raw_descriptor;
use descriptor_provisioner::record::{encode_record, has_delim, parse_record, ProvisionError};

#[test]
fn encode_joins_with_single_delimiter() {
    let r = encode_record(&b"abc".to_vec(), &b"def".to_vec());
    assert_eq!(r, b"abc|def".to_vec());
}

#[test]
fn encode_parse_round_trip() {
    let external = b"tr(one)".to_vec();
    let internal = b"tr(two)".to_vec();
    let record = encode_record(&external, &internal);
    let (a, b) = parse_record(&record).unwrap();
    assert_eq!(a, external);
    assert_eq!(b, internal);
}

#[test]
fn parse_rejects_missing_delimiter() {
    assert_eq!(
        parse_record(&b"abc".to_vec()),
        Err(ProvisionError::ConfigFormat)
    );
}

#[test]
fn parse_rejects_second_delimiter() {
    assert_eq!(
        parse_record(&b"a|b|c".to_vec()),
        Err(ProvisionError::ConfigFormat)
    );
}

#[test]
fn parse_rejects_empty_fields() {
    assert_eq!(parse_record(&b"|b".to_vec()), Err(ProvisionError::ConfigFormat));
    assert_eq!(parse_record(&b"a|".to_vec()), Err(ProvisionError::ConfigFormat));
    assert_eq!(parse_record(&b"|".to_vec()), Err(ProvisionError::ConfigFormat));
}

#[test]
fn parse_rejects_empty_content() {
    assert_eq!(parse_record(&Vec::new()), Err(ProvisionError::ConfigFormat));
}

#[test]
fn has_delim_finds_the_delimiter() {
    assert!(has_delim(&b"a|b".to_vec()));
    assert!(has_delim(&b"|".to_vec()));
    assert!(!has_delim(&b"ab".to_vec()));
    assert!(!has_delim(&Vec::new()));
}

#[test]
fn raw_descriptor_follows_the_fixed_paths() {
    let external = build_raw_descriptor(&b"KEY".to_vec(), false);
    assert_eq!(external, b"tr(KEY/86'/1'/0'/0/0)".to_vec());
    let internal = build_raw_descriptor(&b"KEY".to_vec(), true);
    assert_eq!(internal, b"tr(KEY/86'/1'/0'/0/1)".to_vec());
}

#[test]
fn yes_answers() {
    assert!(is_yes(&b"y".to_vec()));
    assert!(is_yes(&b"Y".to_vec()));
    assert!(is_yes(&b"y\n".to_vec()));
    assert!(is_yes(&b" Y \r\n".to_vec()));
    assert!(is_yes(&b"\x0by\x0c".to_vec()));
}

#[test]
fn yes_answers_with_unicode_whitespace() {
    // Every Unicode white-space character is trimmed, as str::trim trims it.
    assert!(is_yes(&"\u{00a0}y".as_bytes().to_vec()));
    assert!(is_yes(&"\u{0085}y\u{00a0}".as_bytes().to_vec()));
    assert!(is_yes(&"\u{1680}\u{2000}y\u{200a}".as_bytes().to_vec()));
    assert!(is_yes(&"\u{2028}\u{2029}Y\u{202f}".as_bytes().to_vec()));
    assert!(is_yes(&"\u{205f}y\u{3000}\n".as_bytes().to_vec()));
    assert_eq!(is_yes(&"\u{00a0}y".as_bytes().to_vec()), {
        let s = String::from_utf8("\u{00a0}y".as_bytes().to_vec()).unwrap();
        s.trim().to_ascii_lowercase() == "y"
    });
}

#[test]
fn no_answers() {
    assert!(!is_yes(&b"n".to_vec()));
    assert!(!is_yes(&b"yes".to_vec()));
    assert!(!is_yes(&b"".to_vec()));
    assert!(!is_yes(&b"  \n".to_vec()));
    assert!(!is_yes(&b"yy".to_vec()));
    // A zero-width space is not white space and is not trimmed.
    assert!(!is_yes(&"\u{200b}y".as_bytes().to_vec()));
    // Neither is the Mongolian vowel separator.
    assert!(!is_yes(&"y\u{180e}".as_bytes().to_vec()));
}
