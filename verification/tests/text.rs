use mail_laser::decimal::{decimal_string, parse_decimal, IntErrorKind};
use mail_laser::text::{
    contains_char, equals_ignoring_ascii_case, lowercase, same_text, split, split_entries, trim,
    Strip,
};

/// The number up to `max` that std reads from `text`, or why there is none.
fn read_by_std(text: &str, max: u64) -> Result<u64, IntErrorKind> {
    let kind = |e: std::num::ParseIntError| match e.kind() {
        std::num::IntErrorKind::Empty => IntErrorKind::Empty,
        std::num::IntErrorKind::InvalidDigit => IntErrorKind::InvalidDigit,
        std::num::IntErrorKind::PosOverflow => IntErrorKind::PosOverflow,
        other => panic!("{other:?}"),
    };
    if max == u64::from(u16::MAX) {
        text.parse::<u16>().map(u64::from).map_err(kind)
    } else if max == u64::from(u32::MAX) {
        text.parse::<u32>().map(u64::from).map_err(kind)
    } else {
        text.parse::<u64>().map_err(kind)
    }
}

#[test]
fn numbers_are_read_as_std_reads_them() {
    for text in [
        "", "0", "7", "+7", "-7", "-0", "+", "-", "++1", "+-1", "007", "65535", "65536", "+65536",
        "65535x", "65536x", "6553x6", "4294967295", "4294967296", "4294967296x", "429496729x",
        "18446744073709551615", "18446744073709551616", "18446744073709551616 ", "1844674407370955161x",
        "99999999999999999999999999", "00000000000000000000000000001", " 1", "1 ", "1_000", "1.0", "0x10",
        "٣", "1٣", "x", "é", "+é",
    ] {
        for max in [u64::from(u16::MAX), u64::from(u32::MAX), u64::MAX] {
            assert_eq!(parse_decimal(text, max), read_by_std(text, max), "{text:?} up to {max}");
        }
    }
}

#[test]
fn numbers_are_written_as_std_writes_them() {
    for n in [0, 1, 9, 10, 11, 99, 100, 12345, 1_700_000_000, u64::MAX - 1, u64::MAX] {
        assert_eq!(decimal_string(n), n.to_string());
        assert_eq!(parse_decimal(&decimal_string(n), u64::MAX), Ok(n));
    }
}

#[test]
fn white_space_is_what_std_takes_for_it() {
    for c in '\0'..=char::MAX {
        let text = format!("{c}a{c}b{c}");
        let trimmed = trim(&text, Strip::WhiteSpace);
        if c.is_whitespace() {
            assert_eq!(trimmed, format!("a{c}b"));
        } else {
            assert_eq!(trimmed, text);
        }
    }
}

#[test]
fn trimming() {
    assert_eq!(trim("", Strip::WhiteSpace), "");
    assert_eq!(trim(" \t\n ", Strip::WhiteSpace), "");
    assert_eq!(trim("  ünï cödé\u{3000}", Strip::WhiteSpace), "ünï cödé");
    assert_eq!(trim("[[::1]", Strip::Brackets), "::1");
    assert_eq!(trim("][", Strip::Brackets), "");
    assert_eq!(trim(" [x] ", Strip::Brackets), " [x] ");
}

#[test]
fn splitting() {
    for text in ["", ",", "a", "a,b", ",a,,b,", "é,ü"] {
        let expected: Vec<&str> = text.split(',').collect();
        assert_eq!(split(text, ','), expected);
    }
}

#[test]
fn lists() {
    assert_eq!(split_entries(" a@x.y ,b@x.y,, ,\tc "), vec!["a@x.y", "b@x.y", "c"]);
    assert_eq!(split_entries("one two, three"), vec!["one two", "three"]);
    assert!(split_entries("").is_empty());
    assert!(split_entries(" , ,").is_empty());
}

#[test]
fn a_joined_list_reads_back() {
    let parts = ["alerts@mydomain.com", " support@mydomain.com", "", "ops@mydomain.com\u{a0}"];
    assert_eq!(
        split_entries(&parts.join(",")),
        vec!["alerts@mydomain.com", "support@mydomain.com", "ops@mydomain.com"]
    );
}

#[test]
fn letter_case() {
    assert_eq!(lowercase("EnForce-S3"), "enforce-s3");
    assert_eq!(lowercase("ÄÖ ΑΣ İ"), "ÄÖ ΑΣ İ".to_lowercase());
    assert_eq!(lowercase("\u{212a}ELVIN"), "kelvin");
    assert!(equals_ignoring_ascii_case("LOCALhost", "localhost"));
    assert!(!equals_ignoring_ascii_case("localhos", "localhost"));
    assert!(!equals_ignoring_ascii_case("loca\u{212a}host", "localhost"));
}

#[test]
fn comparing() {
    assert!(same_text("é", "é") && same_text("", ""));
    assert!(!same_text("a", "b") && !same_text("a", "ab"));
    assert!(contains_char("a.b", '.') && !contains_char("ab", '.'));
}
