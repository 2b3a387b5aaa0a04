use torque_mods::decimal::{parse_u64_chars, push_decimal, push_signed_decimal};
use torque_mods::error::AppError;
use torque_mods::text::{
    char_is_whitespace, chars_contain, chars_eq_ignore_ascii_case, chars_string, str_chars,
    utf8_len_at_least,
};
use torque_mods::words::{join_chars, split_chars, split_words, strip_whitespace, trim_chars};

fn chars(s: &str) -> Vec<char> {
    s.chars().collect()
}

fn strings(parts: &[Vec<char>]) -> Vec<String> {
    parts.iter().map(|p| p.iter().collect()).collect()
}

#[test]
fn characters_round_trip_through_strings() {
    for s in ["", "abc", "Café 日産 \u{1F697}"] {
        assert_eq!(str_chars(s), chars(s));
        assert_eq!(chars_string(&chars(s)), s);
    }
}

#[test]
fn whitespace_is_that_of_unicode() {
    for c in [' ', '\t', '\n', '\u{b}', '\u{c}', '\r', '\u{85}', '\u{a0}', '\u{1680}',
        '\u{2000}', '\u{200a}', '\u{2028}', '\u{2029}', '\u{202f}', '\u{205f}', '\u{3000}']
    {
        assert!(char_is_whitespace(c), "{:?}", c);
    }
    for c in ['a', '0', '-', '\u{200b}', '\u{feff}', '\u{8}', '\u{e}', '\u{1f}'] {
        assert!(!char_is_whitespace(c), "{:?}", c);
    }
    for code in 0..0x3100u32 {
        if let Some(c) = char::from_u32(code) {
            assert_eq!(char_is_whitespace(c), c.is_whitespace(), "{:?}", c);
        }
    }
}

#[test]
fn text_holds_its_parts() {
    assert!(chars_contain(&chars("xforce stage 2"), &chars("stage")));
    assert!(chars_contain(&chars("xforce stage 2"), &chars("xforce stage 2")));
    assert!(chars_contain(&chars("xforce stage 2"), &chars("e 2")));
    assert!(chars_contain(&chars("abc"), &chars("")));
    assert!(chars_contain(&chars(""), &chars("")));
    assert!(!chars_contain(&chars("abc"), &chars("abcd")));
    assert!(!chars_contain(&chars("abc"), &chars("ac")));
    assert!(!chars_contain(&chars(""), &chars("a")));
    assert!(chars_contain(&chars("aab"), &chars("ab")));
}

#[test]
fn case_is_ignored_for_ascii_letters_only() {
    assert!(chars_eq_ignore_ascii_case(&chars("XForce"), &chars("xfORCE")));
    assert!(!chars_eq_ignore_ascii_case(&chars("XForce"), &chars("xforc")));
    assert!(!chars_eq_ignore_ascii_case(&chars("É"), &chars("é")));
    assert!(chars_eq_ignore_ascii_case(&chars(""), &chars("")));
    assert!(!chars_eq_ignore_ascii_case(&chars("@"), &chars("`")));
    assert!(!chars_eq_ignore_ascii_case(&chars("["), &chars("{")));
}

#[test]
fn words_are_the_runs_between_whitespace() {
    assert_eq!(strings(&split_words(&chars("  g35   sedan\tv6\u{3000}"))), ["g35", "sedan", "v6"]);
    assert_eq!(strings(&split_words(&chars("one"))), ["one"]);
    assert!(split_words(&chars("")).is_empty());
    assert!(split_words(&chars(" \n ")).is_empty());
    for s in ["a b", " a  b ", "\u{a0}x\u{2028}y z", ""] {
        let expected: Vec<String> = s.split_whitespace().map(|w| w.to_string()).collect();
        assert_eq!(strings(&split_words(&chars(s))), expected);
    }
}

#[test]
fn parts_are_joined_with_one_space() {
    assert_eq!(join_chars(&vec![chars("a"), chars("bc"), chars("d")]), chars("a bc d"));
    assert_eq!(join_chars(&vec![chars("a")]), chars("a"));
    assert_eq!(join_chars(&vec![]), chars(""));
    assert_eq!(join_chars(&vec![chars(""), chars("")]), chars(" "));
}

#[test]
fn whitespace_is_stripped_and_trimmed() {
    assert_eq!(strip_whitespace(&chars(" 2jz \t gte\u{a0}")), chars("2jzgte"));
    assert_eq!(trim_chars(&chars("  a b \n")), chars("a b"));
    assert_eq!(trim_chars(&chars(" \t ")), chars(""));
    assert_eq!(trim_chars(&chars("")), chars(""));
    assert_eq!(trim_chars(&chars("ab")), chars("ab"));
    for s in ["  x ", "\u{3000}y\u{85}", "z", " "] {
        assert_eq!(chars_string(&trim_chars(&chars(s))), s.trim());
    }
}

#[test]
fn text_is_split_at_every_separator() {
    for s in ["a,b", "", ",", "a,,b,", ",a", "abc"] {
        let expected: Vec<String> = s.split(',').map(|p| p.to_string()).collect();
        assert_eq!(strings(&split_chars(&chars(s), ',')), expected, "{s}");
    }
}

#[test]
fn byte_length_counts_utf8_bytes() {
    for s in ["", "ab", "abc", "é", "éa", "日", "\u{1F697}", "abcd"] {
        for least in 0..6 {
            assert_eq!(utf8_len_at_least(&chars(s), least), s.len() >= least, "{s} {least}");
        }
    }
}

#[test]
fn integers_are_written_in_decimal() {
    for n in [0u64, 7, 10, 99, 100, 1234567890, u64::MAX] {
        let mut out = chars("n=");
        push_decimal(&mut out, n);
        assert_eq!(chars_string(&out), format!("n={n}"));
    }
    for i in [0i64, -1, 1, -10, 42, i64::MAX, i64::MIN] {
        let mut out = Vec::new();
        push_signed_decimal(&mut out, i);
        assert_eq!(chars_string(&out), i.to_string());
    }
}

#[test]
fn unsigned_numbers_are_read_as_std_reads_them() {
    for s in ["0", "5", "+5", "007", "18446744073709551615", "18446744073709551616", "", "+",
        "-1", "1 ", " 1", "1a", "++1", "1+", "１", "99999999999999999999999"]
    {
        assert_eq!(parse_u64_chars(&chars(s)), s.parse::<u64>().ok(), "{s}");
    }
}

#[test]
fn errors_have_their_texts_and_codes() {
    let not_found = AppError::NotFound;
    assert_eq!(not_found.message(), "Product not found");
    assert_eq!(not_found.status_code(), 404);
    assert_eq!(not_found.code(), "NOT_FOUND");
    assert_eq!(not_found.public_message(), "Requested resource was not found");

    let upstream = AppError::Upstream("xforce (timeout)".to_string());
    assert_eq!(upstream.message(), "Upstream request failed: xforce (timeout)");
    assert_eq!(upstream.status_code(), 502);
    assert_eq!(upstream.code(), "UPSTREAM_ERROR");
    assert_eq!(upstream.public_message(), "xforce (timeout)");

    let bad = AppError::BadRequest("no filter".to_string());
    assert_eq!(bad.message(), "Invalid request: no filter");
    assert_eq!(bad.status_code(), 400);
    assert_eq!(bad.code(), "BAD_REQUEST");
    assert_eq!(bad.public_message(), "no filter");
}

#[test]
fn storage_failure_never_shows_its_detail() {
    let failure = AppError::Database("relation normalized_mods does not exist".to_string());
    assert_eq!(failure.message(), "Database error: relation normalized_mods does not exist");
    assert_eq!(failure.status_code(), 500);
    assert_eq!(failure.code(), "DATABASE_ERROR");
    assert_eq!(failure.public_message(), "Database operation failed");
}
