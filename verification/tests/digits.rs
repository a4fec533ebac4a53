use ktapper::digits::{limit_to_digits, parse_limit};
use ktapper::lang::Lang;
use ktapper::wordsource::fresh_word;

#[test]
fn parse_limit_reads_decimal_text() {
    assert_eq!(parse_limit(&"123".chars().collect()), Some(123));
    assert_eq!(parse_limit(&"0".chars().collect()), Some(0));
    assert_eq!(parse_limit(&"1".chars().collect()), Some(1));
    assert_eq!(parse_limit(&"65535".chars().collect()), Some(65535));
    assert_eq!(parse_limit(&"007".chars().collect()), Some(7));
}

#[test]
fn parse_limit_rejects_empty_and_non_digits() {
    assert_eq!(parse_limit(&Vec::new()), None);
    assert_eq!(parse_limit(&"a1".chars().collect()), None);
    assert_eq!(parse_limit(&"1 2".chars().collect()), None);
    assert_eq!(parse_limit(&"-5".chars().collect()), None);
}

#[test]
fn parse_limit_rejects_values_that_do_not_fit() {
    assert_eq!(parse_limit(&"999999999999999999999999999".chars().collect()), None);
    let max = usize::MAX.to_string();
    assert_eq!(parse_limit(&max.chars().collect()), Some(usize::MAX));
}

#[test]
fn limit_to_digits_renders_canonical_decimal_text() {
    assert_eq!(limit_to_digits(0), vec!['0']);
    assert_eq!(limit_to_digits(7), vec!['7']);
    assert_eq!(limit_to_digits(50), vec!['5', '0']);
    assert_eq!(limit_to_digits(1000), vec!['1', '0', '0', '0']);
    assert_eq!(limit_to_digits(65535), vec!['6', '5', '5', '3', '5']);
}

#[test]
fn limit_text_round_trips() {
    for n in [0usize, 1, 9, 10, 42, 65535, 1_000_000] {
        assert_eq!(parse_limit(&limit_to_digits(n)), Some(n));
    }
}

#[test]
fn fresh_words_are_never_empty() {
    for lang in [
        Lang::En,
        Lang::Ru,
        Lang::De,
        Lang::Es,
        Lang::Fr,
        Lang::Ja,
        Lang::Zh,
    ] {
        let w = fresh_word(lang);
        assert!(!w.is_empty());
    }
}
