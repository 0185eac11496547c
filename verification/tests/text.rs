use rustfs_core::disk::Uuid;
use rustfs_core::text::{
    contains, decimal_text, from_range, joined, leading_chars, parse_unsigned, push_decimal, push_signed_decimal,
    same_text, skip_prefixes, starts_with, to_chars, trimmed_end,
};

fn signed(i: i64) -> String {
    let mut s = String::from("=");
    push_signed_decimal(&mut s, i);
    s
}

#[test]
fn numbers_are_rendered_in_decimal() {
    for n in [0u128, 7, 10, 99, 100, 4096, u64::MAX as u128, u128::MAX] {
        assert_eq!(decimal_text(n), n.to_string());
    }
    let mut s = String::from("n=");
    push_decimal(&mut s, 120);
    assert_eq!(s, "n=120");
    for i in [0i64, -1, 1, i64::MIN, i64::MAX] {
        assert_eq!(signed(i), format!("={i}"));
    }
}

#[test]
fn numbers_are_read_as_the_standard_library_reads_them() {
    let max = u64::MAX as u128;
    for t in ["0", "00", "+0", "42", "+42", "", "+", "++1", "-1", "1x", " 1", "1 ", "٣", "18446744073709551615",
        "18446744073709551616", "99999999999999999999999999"]
    {
        assert_eq!(parse_unsigned(t, max), t.parse::<u64>().ok().map(|n| n as u128), "{t:?}");
    }
    assert_eq!(parse_unsigned("255", 255), Some(255));
    assert_eq!(parse_unsigned("256", 255), None);
    assert_eq!(parse_unsigned("9", 5), None);
    assert_eq!(parse_unsigned("340282366920938463463374607431768211455", u128::MAX), Some(u128::MAX));
    assert_eq!(parse_unsigned("340282366920938463463374607431768211456", u128::MAX), None);
}

#[test]
fn rendered_numbers_read_back() {
    for n in [0u128, 9, 10, 12345, u64::MAX as u128] {
        assert_eq!(parse_unsigned(&decimal_text(n), u64::MAX as u128), Some(n));
    }
}

#[test]
fn texts_are_searched_and_cut() {
    assert!(contains("hello", "ell"));
    assert!(contains("hello", ""));
    assert!(!contains("hello", "elo"));
    assert!(!contains("he", "hello"));
    assert!(contains("aaab", "aab"));
    let s = to_chars("aab");
    assert!(starts_with(&s, 1, &to_chars("ab")));
    assert!(!starts_with(&s, 2, &to_chars("ab")));
    assert_eq!(skip_prefixes(&to_chars("ababx"), &to_chars("ab")), 4);
    assert_eq!(from_range(&to_chars("abcd"), 1, 3), "bc");
    assert_eq!(trimmed_end("a//", '/'), "a");
    assert_eq!(trimmed_end("//", '/'), "");
    assert_eq!(trimmed_end("/a", '/'), "/a");
    assert_eq!(leading_chars("äöü", 2), "äö");
    assert_eq!(leading_chars("ab", 5), "ab");
    assert_eq!(joined("a", '/', "b"), "a/b");
    assert!(same_text("ab", "ab"));
    assert!(!same_text("ab", "abc"));
}

#[test]
fn identifiers_have_the_usual_text() {
    for bits in [0u128, 1, u128::MAX, 0x0123_4567_89ab_cdef_fedc_ba98_7654_3210] {
        assert_eq!(Uuid { bits }.to_text(), uuid::Uuid::from_u128(bits).hyphenated().to_string());
    }
    assert_eq!(Uuid::nil().to_text(), "00000000-0000-0000-0000-000000000000");
    assert_eq!(
        Uuid { bits: 0x0123_4567_89ab_cdef_fedc_ba98_7654_3210 }.to_text(),
        "01234567-89ab-cdef-fedc-ba9876543210"
    );
}
