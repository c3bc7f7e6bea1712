use deduper::hash::{
    content_identity_from_drive_checksum, content_identity_from_md5, fingerprint_bytes, hash_bytes, normalize_md5,
    to_hex_lower,
};
use deduper::text::{
    after_last_char, i64_to_decimal, parse_i64, parse_u64, replace_char, split_char, starts_with, str_eq, trim,
    u64_to_decimal,
};

#[test]
fn replace_char_replaces_every_occurrence() {
    assert_eq!(replace_char("a\\b\\c", '\\', "/"), "a/b/c");
    assert_eq!(replace_char("it's", '\'', "''"), "it''s");
    assert_eq!(replace_char("", 'x', "y"), "");
}

#[test]
fn split_char_keeps_empty_pieces() {
    assert_eq!(split_char("a,b,,c", ','), vec!["a", "b", "", "c"]);
    assert_eq!(split_char("", ','), vec![""]);
    assert_eq!(split_char(",", ','), vec!["", ""]);
}

#[test]
fn after_last_char_is_the_extension() {
    assert_eq!(after_last_char("a.b.JPG", '.'), "JPG");
    assert_eq!(after_last_char("noext", '.'), "noext");
    assert_eq!(after_last_char("dot.", '.'), "");
}

#[test]
fn parse_u64_follows_std() {
    for s in ["0", "+5", "18446744073709551615", "18446744073709551616", "-0", "", "+", "12a", " 1"] {
        assert_eq!(parse_u64(s), s.parse::<u64>().ok(), "input {s:?}");
    }
}

#[test]
fn parse_i64_follows_std() {
    for s in [
        "0", "-0", "+7", "-9223372036854775808", "9223372036854775807", "9223372036854775808",
        "-9223372036854775809", "-", "+", "", "1e3", "-12",
    ] {
        assert_eq!(parse_i64(s), s.parse::<i64>().ok(), "input {s:?}");
    }
}

#[test]
fn decimal_text_follows_display() {
    for n in [0u64, 7, 10, 99, 100, 18446744073709551615] {
        assert_eq!(u64_to_decimal(n), n.to_string());
    }
    for n in [0i64, -1, -42, i64::MIN, i64::MAX] {
        assert_eq!(i64_to_decimal(n), n.to_string());
    }
}

#[test]
fn string_helpers() {
    assert!(str_eq("abc", "abc"));
    assert!(!str_eq("abc", "abd"));
    assert!(starts_with("likely:x", "likely:"));
    assert!(!starts_with("like", "likely:"));
}

#[test]
fn hex_is_lower_case_two_digits_per_byte() {
    assert_eq!(to_hex_lower(&[0x00, 0x0f, 0xab, 0xff]), "000fabff");
}

#[test]
fn sha256_hex_of_abc() {
    assert_eq!(hash_bytes(b"abc"), "ba7816bf8f01cfea414140de5dae2223b00361a396177a9cb410ff61f20015ad");
}

#[test]
fn fingerprint_of_abc() {
    let fp = fingerprint_bytes(b"abc");
    assert_eq!(fp.md5_hex, "900150983cd24fb0d6963f7d28e17f72");
    assert_eq!(fp.sha256_hex, "ba7816bf8f01cfea414140de5dae2223b00361a396177a9cb410ff61f20015ad");
    assert_eq!(fp.content_hash, "md5:900150983cd24fb0d6963f7d28e17f72");
}

#[test]
fn local_and_drive_identities_agree() {
    let fp = fingerprint_bytes(b"hello world");
    let drive = content_identity_from_drive_checksum("5EB63BBBE01EEED093CB22BB8F5ACDC3 ");
    assert_eq!(fp.content_hash, drive);
}

#[test]
fn md5_normalization() {
    assert_eq!(normalize_md5("  ABCDEF\t"), "abcdef");
    assert_eq!(content_identity_from_md5("ABC"), "md5:abc");
}

#[test]
fn drive_checksum_in_any_case_matches_local_file() {
    let fp = fingerprint_bytes(b"a");
    assert_eq!(content_identity_from_drive_checksum("  0CC175b9C0F1B6A831C399E269772661 \t"), fp.content_hash);
    assert_eq!(content_identity_from_drive_checksum("0cc175b9c0f1b6a831c399e269772661"), content_identity_from_md5("0cc175b9c0f1b6a831c399e269772661"));
}

#[test]
fn trim_removes_unicode_white_space() {
    assert_eq!(trim("  x y \n"), "x y");
    assert_eq!(trim("\u{3000}\u{a0}id\u{2028}"), "id");
    assert_eq!(trim(" \t "), "");
    assert_eq!(trim(""), "");
}
