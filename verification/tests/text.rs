use vidarchive::links::is_supported_url;
use vidarchive::text::{chars_of, contains, decimal_text, parse_u64, trim, white_space};

#[test]
fn characters_are_listed_in_order() {
    assert_eq!(chars_of("aç🟢"), vec!['a', 'ç', '🟢']);
    assert_eq!(chars_of(""), Vec::<char>::new());
}

#[test]
fn contains_agrees_with_the_standard_library() {
    let texts = ["", "a", "ab", "aab", "abab", "youtu", "xyoutu.be", "youtu.bx", "ğx.com", "x.co"];
    for hay in texts.iter() {
        for needle in ["", "a", "ab", "ba", "youtu.be", "x.com"].iter() {
            assert_eq!(contains(hay, needle), hay.contains(needle), "{:?} in {:?}", needle, hay);
        }
    }
}

#[test]
fn white_space_agrees_with_the_standard_library() {
    for n in 0..=0x10ffffu32 {
        if let Some(c) = char::from_u32(n) {
            assert_eq!(white_space(c), c.is_whitespace(), "{:x}", n);
        }
    }
}

#[test]
fn trim_agrees_with_the_standard_library() {
    let texts = ["", " ", "a", " a", "a ", "\t a b \n", "\u{3000}x\u{85}", "\u{200b}x ", "  \u{a0} "];
    for s in texts.iter() {
        assert_eq!(trim(s), s.trim(), "{:?}", s);
    }
}

#[test]
fn numbers_are_written_in_decimal() {
    for n in [0, 7, 9, 10, 99, 100, 1234567890, u64::MAX].iter() {
        assert_eq!(decimal_text(*n), n.to_string());
    }
}

#[test]
fn numbers_are_read_as_the_standard_library_reads_them() {
    let texts = [
        "", "+", "-", "0", "50", "+50", "++5", "-1", "-0", " 5", "5 ", "5_0", "0x1", "٥", "007",
        "18446744073709551615", "18446744073709551616", "99999999999999999999", "1844674407370955161a",
        "000000000000000000000000000012",
    ];
    for s in texts.iter() {
        assert_eq!(parse_u64(s), s.parse::<u64>().ok(), "{:?}", s);
    }
}

#[test]
fn written_numbers_read_back() {
    for n in [0, 1, 10, 4096, u64::MAX - 1, u64::MAX].iter() {
        assert_eq!(parse_u64(&decimal_text(*n)), Some(*n));
    }
}

#[test]
fn distinct_numbers_are_written_differently() {
    assert_ne!(decimal_text(12), decimal_text(21));
    assert_ne!(decimal_text(1), decimal_text(10));
}

#[test]
fn links_to_x_and_youtube_are_supported() {
    assert!(is_supported_url("https://twitter.com/a/status/1"));
    assert!(is_supported_url("https://x.com/a/status/1"));
    assert!(is_supported_url("https://www.youtube.com/watch?v=1"));
    assert!(is_supported_url("https://youtu.be/1"));
    assert!(is_supported_url("see netflix.com"));
    assert!(!is_supported_url("https://vimeo.com/1"));
    assert!(!is_supported_url("https://YOUTUBE.COM/"));
    assert!(!is_supported_url(""));
}
