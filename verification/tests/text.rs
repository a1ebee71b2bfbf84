use worker::text::{
    begins_with, characters, contains, decimal_text, is_white_space, parse_u16, signed_text,
    split_words, strip_prefixes, text_after, text_before,
};

#[test]
fn white_space_is_that_of_unicode() {
    let mut n: u32 = 0;
    while n <= 0x10ffff {
        if let Some(c) = char::from_u32(n) {
            assert_eq!(is_white_space(c), c.is_whitespace(), "U+{:04X}", n);
        }
        n += 1;
    }
}

#[test]
fn words_are_those_between_white_space() {
    for line in [
        "",
        "   ",
        "true",
        "  curl -f   http://localhost ",
        "a\tb\nc\u{3000}d\u{85}e",
        "\u{a0}x",
    ] {
        let expected: Vec<&str> = line.split_whitespace().collect();
        assert_eq!(split_words(line), expected);
    }
}

#[test]
fn ports_are_read_as_decimal_numbers() {
    for s in [
        "", "+", "-", "0", "00", "+0", "-0", "443", "+8080", "65535", "65536", "0065535", "99999",
        "4294967376", "80a", " 80", "80 ", "++1", "8_0", "\u{664}",
    ] {
        assert_eq!(parse_u16(s), s.parse::<u16>().ok(), "{:?}", s);
    }
}

#[test]
fn every_port_survives_writing_and_reading() {
    let mut port: u16 = 0;
    loop {
        assert_eq!(parse_u16(&decimal_text(port as u64)), Some(port));
        if port == u16::MAX {
            break;
        }
        port += 1;
    }
}

#[test]
fn numbers_are_written_in_decimal() {
    assert_eq!(decimal_text(0), "0");
    assert_eq!(decimal_text(9), "9");
    assert_eq!(decimal_text(10), "10");
    assert_eq!(decimal_text(u64::MAX), u64::MAX.to_string());
    assert_eq!(signed_text(0), "0");
    assert_eq!(signed_text(-1), "-1");
    assert_eq!(signed_text(1_234_567), "1234567");
    assert_eq!(signed_text(i64::MIN), i64::MIN.to_string());
    assert_eq!(signed_text(i64::MAX), i64::MAX.to_string());
}

#[test]
fn text_is_cut_at_the_first_mark() {
    assert_eq!(text_before("host:80/path", ':'), "host");
    assert_eq!(text_before("host", ':'), "host");
    assert_eq!(text_before(":80", ':'), "");
    assert_eq!(text_after("a:b:c", ':'), Some("b:c"));
    assert_eq!(text_after("a:", ':'), Some(""));
    assert_eq!(text_after("a", ':'), None);
    assert_eq!(text_after("é:ü", ':'), Some("ü"));
}

#[test]
fn prefixes_are_found_and_stripped() {
    assert!(begins_with("https://x", "https://"));
    assert!(!begins_with("http://x", "https://"));
    assert!(!begins_with("https:/", "https://"));
    assert!(begins_with("", ""));
    assert_eq!(strip_prefixes("https://https://x", "https://"), "x");
    assert_eq!(strip_prefixes("http://x", "https://"), "http://x");
    assert_eq!(strip_prefixes("aaa", "a"), "");
    assert_eq!(strip_prefixes("aaa", ""), "aaa");
}

#[test]
fn parts_are_found_anywhere() {
    assert!(contains("CPU Package id 0", "Package"));
    assert!(contains("Package", "Package"));
    assert!(!contains("Packag", "Package"));
    assert!(!contains("package", "Package"));
    assert!(contains("", ""));
}

#[test]
fn characters_are_taken_apart_one_by_one() {
    assert_eq!(characters("aé☃"), vec!['a', 'é', '☃']);
}
