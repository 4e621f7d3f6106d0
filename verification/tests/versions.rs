use onodejs::{chars_end_with, chars_of, ends_with, same_chars, same_text, Rank, VersionKey};

fn rank(a: &str, b: &str) -> Rank {
    VersionKey::parse(a).rank(&VersionKey::parse(b))
}

#[test]
fn numbers_are_compared_left_to_right() {
    assert_eq!(rank("1.2.3", "1.2.4"), Rank::Lower);
    assert_eq!(rank("1.3.0", "1.2.9"), Rank::Higher);
    assert_eq!(rank("2.0.0", "1.99.99"), Rank::Higher);
    assert_eq!(rank("18.16.0", "18.16.0"), Rank::Same);
}

#[test]
fn numbers_are_not_compared_as_text() {
    assert_eq!(rank("v16.9.0", "v16.13.0"), Rank::Lower);
    assert_eq!(rank("10.0.0", "9.0.0"), Rank::Higher);
}

#[test]
fn shorter_version_is_padded_with_zeros() {
    assert_eq!(rank("1.2", "1.2.0"), Rank::Same);
    assert_eq!(rank("1", "1.0.0.0"), Rank::Same);
    assert_eq!(rank("1.2", "1.2.1"), Rank::Lower);
    assert_eq!(rank("1.2.0.1", "1.2"), Rank::Higher);
}

#[test]
fn marker_is_ignored() {
    assert_eq!(rank("v18.16.0", "18.16.0"), Rank::Same);
    assert_eq!(rank("v1.0.0", "2.0.0"), Rank::Lower);
    assert_eq!(rank("V3", "v2"), Rank::Higher);
}

#[test]
fn only_one_marker_character_is_dropped() {
    assert_eq!(rank("vv5", "0"), Rank::Same);
    assert_eq!(rank("vv5.1", "v0.1"), Rank::Same);
}

#[test]
fn leading_zeros_do_not_count() {
    assert_eq!(rank("1.02.3", "1.2.3"), Rank::Same);
    assert_eq!(rank("001", "1"), Rank::Same);
    assert_eq!(rank("0", ""), Rank::Same);
    assert_eq!(rank("000", "0"), Rank::Same);
}

#[test]
fn piece_counts_as_its_leading_digits() {
    assert_eq!(rank("1.2.3-rc1", "1.2.3"), Rank::Same);
    assert_eq!(rank("1.x.3", "1.0.3"), Rank::Same);
    assert_eq!(rank("1.2beta.3", "1.2.3"), Rank::Same);
    assert_eq!(rank("1..3", "1.0.3"), Rank::Same);
}

#[test]
fn numbers_beyond_machine_words_are_exact() {
    assert_eq!(
        rank("1.340282366920938463463374607431768211456", "1.340282366920938463463374607431768211455"),
        Rank::Higher
    );
    assert_eq!(
        rank("99999999999999999999999999", "100000000000000000000000000"),
        Rank::Lower
    );
    assert_eq!(
        rank("18446744073709551616.0", "18446744073709551616"),
        Rank::Same
    );
}

#[test]
fn key_counts_pieces() {
    assert_eq!(VersionKey::parse("v18.16.0").len(), 3);
    assert_eq!(VersionKey::parse("18").len(), 1);
    assert_eq!(VersionKey::parse("").len(), 1);
    assert_eq!(VersionKey::parse("1.").len(), 2);
    assert_eq!(VersionKey::parse("v").len(), 1);
}

#[test]
fn is_below_is_strict() {
    let low = VersionKey::parse("v14.0.0");
    let high = VersionKey::parse("v16.13.0");
    assert!(low.is_below(&high));
    assert!(!high.is_below(&low));
    assert!(!low.is_below(&low));
    assert!(!low.is_below(&VersionKey::parse("14")));
}

#[test]
fn order_is_transitive_on_samples() {
    let names = ["v1", "1.0.1", "v1.2", "1.10", "v2.0.0", "10"];
    for i in 0..names.len() {
        for j in 0..names.len() {
            let expected = if i < j {
                Rank::Lower
            } else if i == j {
                Rank::Same
            } else {
                Rank::Higher
            };
            assert_eq!(rank(names[i], names[j]), expected);
        }
    }
}

#[test]
fn ends_with_matches_trailing_characters() {
    assert!(ends_with("v18.16.0", "18.16.0"));
    assert!(ends_with("v18.16.0", "v18.16.0"));
    assert!(ends_with("v18.16.0", ""));
    assert!(ends_with("", ""));
    assert!(!ends_with("v18.16.0", "18.16"));
    assert!(!ends_with("16.0", "v16.0"));
    assert!(!ends_with("", "0"));
}

#[test]
fn ends_with_handles_wide_characters() {
    assert!(ends_with("v1.0-\u{e9}t\u{e9}", "t\u{e9}"));
    assert!(!ends_with("v1.0-\u{e9}", "e"));
}

#[test]
fn same_text_compares_characters() {
    assert!(same_text("lts", "lts"));
    assert!(!same_text("lts", "LTS"));
    assert!(!same_text("lts", "lts "));
    assert!(same_text("", ""));
}

#[test]
fn chars_of_keeps_order() {
    assert_eq!(chars_of("v1.\u{e9}"), vec!['v', '1', '.', '\u{e9}']);
    assert_eq!(chars_of(""), Vec::<char>::new());
}

#[test]
fn char_vectors_compare_like_text() {
    let a = chars_of("v16.0.0");
    let b = chars_of("6.0.0");
    assert!(chars_end_with(&a, &b));
    assert!(!chars_end_with(&b, &a));
    assert!(same_chars(&a, &chars_of("v16.0.0")));
    assert!(!same_chars(&a, &b));
}
