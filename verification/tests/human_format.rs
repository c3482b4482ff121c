use voice_assistant::human_format::{
    cardinal_words, decimal_string, format_duration_human, int_to_words, join_phrases,
    lowercase_number, number_from_words, words_to_int,
};

#[test]
fn test_single_digits() {
    assert_eq!(int_to_words(0), "zero");
    assert_eq!(int_to_words(1), "one");
    assert_eq!(int_to_words(2), "two");
    assert_eq!(int_to_words(9), "nine");
}

#[test]
fn test_teens() {
    assert_eq!(int_to_words(10), "ten");
    assert_eq!(int_to_words(11), "eleven");
    assert_eq!(int_to_words(15), "fifteen");
    assert_eq!(int_to_words(19), "nineteen");
}

#[test]
fn test_tens() {
    assert_eq!(int_to_words(20), "twenty");
    assert_eq!(int_to_words(30), "thirty");
    assert_eq!(int_to_words(42), "forty two");
    assert_eq!(int_to_words(99), "ninety nine");
}

#[test]
fn test_hundreds() {
    assert_eq!(int_to_words(100), "one hundred");
    assert_eq!(int_to_words(101), "one hundred one");
    assert_eq!(int_to_words(123), "one hundred twenty three");
    assert_eq!(int_to_words(999), "nine hundred ninety nine");
}

#[test]
fn test_thousands() {
    assert_eq!(int_to_words(1000), "one thousand");
    assert_eq!(int_to_words(1001), "one thousand one");
    assert_eq!(int_to_words(1234), "one thousand two hundred thirty four");
    assert_eq!(int_to_words(9999), "nine thousand nine hundred ninety nine");
}

#[test]
fn test_negative() {
    assert_eq!(int_to_words(-1), "negative one");
    assert_eq!(int_to_words(-42), "negative forty two");
}

#[test]
fn test_words_to_int_single_digits() {
    assert_eq!(words_to_int("zero"), Some(0));
    assert_eq!(words_to_int("one"), Some(1));
    assert_eq!(words_to_int("five"), Some(5));
    assert_eq!(words_to_int("nine"), Some(9));
}

#[test]
fn test_words_to_int_teens() {
    assert_eq!(words_to_int("ten"), Some(10));
    assert_eq!(words_to_int("eleven"), Some(11));
    assert_eq!(words_to_int("fifteen"), Some(15));
    assert_eq!(words_to_int("nineteen"), Some(19));
}

#[test]
fn test_words_to_int_tens() {
    assert_eq!(words_to_int("twenty"), Some(20));
    assert_eq!(words_to_int("forty two"), Some(42));
    assert_eq!(words_to_int("ninety nine"), Some(99));
}

#[test]
fn test_words_to_int_hundreds() {
    assert_eq!(words_to_int("one hundred"), Some(100));
    assert_eq!(words_to_int("one hundred twenty three"), Some(123));
    assert_eq!(words_to_int("two hundred and five"), Some(205));
}

#[test]
fn test_words_to_int_thousands() {
    assert_eq!(words_to_int("one thousand"), Some(1000));
    assert_eq!(words_to_int("one thousand two hundred thirty four"), Some(1234));
}

#[test]
fn test_words_to_int_raw_digits() {
    assert_eq!(words_to_int("5"), Some(5));
    assert_eq!(words_to_int("42"), Some(42));
    assert_eq!(words_to_int("100"), Some(100));
}

#[test]
fn test_words_to_int_a_as_one() {
    assert_eq!(words_to_int("a"), Some(1));
}

#[test]
fn test_words_to_int_invalid() {
    assert_eq!(words_to_int("hello"), None);
    assert_eq!(words_to_int(""), None);
}

#[test]
fn int_to_words_writes_large_numbers_in_digits() {
    assert_eq!(int_to_words(999_999), "nine hundred ninety nine thousand nine hundred ninety nine");
    assert_eq!(int_to_words(1_000_000), "1000000");
    assert_eq!(int_to_words(i32::MAX), "2147483647");
    assert_eq!(int_to_words(i32::MIN), "negative 2147483648");
}

#[test]
fn cardinal_words_skips_empty_groups() {
    assert_eq!(cardinal_words(20_000), "twenty thousand");
    assert_eq!(cardinal_words(100_000), "one hundred thousand");
    assert_eq!(cardinal_words(710), "seven hundred ten");
}

#[test]
fn decimal_string_matches_std() {
    for n in [0u64, 7, 10, 99, 100, 12345, u64::MAX] {
        assert_eq!(decimal_string(n), n.to_string());
    }
}

#[test]
fn words_to_int_ignores_case_and_surrounding_space() {
    assert_eq!(words_to_int("  Five  "), Some(5));
    assert_eq!(words_to_int("FORTY TWO"), Some(42));
    assert_eq!(words_to_int("forty\t \n two"), Some(42));
    assert_eq!(words_to_int(" 17 "), Some(17));
}

#[test]
fn words_to_int_mixes_digits_and_words() {
    assert_eq!(words_to_int("2 hundred"), Some(200));
    assert_eq!(words_to_int("+5"), Some(5));
    assert_eq!(words_to_int("one thousand thousand"), Some(1000));
    assert_eq!(words_to_int("three thousand"), Some(3000));
    assert_eq!(words_to_int("and"), None);
    assert_eq!(words_to_int("zero and"), Some(0));
    assert_eq!(words_to_int("-5"), None);
    assert_eq!(words_to_int("five six"), Some(11));
}

#[test]
fn words_to_int_gives_none_on_overflow() {
    assert_eq!(words_to_int("18446744073709551615"), Some(u64::MAX));
    assert_eq!(words_to_int("18446744073709551616"), None);
    assert_eq!(words_to_int("18446744073709551615 one"), None);
    assert_eq!(words_to_int("18446744073709551615 hundred"), None);
    assert_eq!(words_to_int("18446744073709551615 thousand"), None);
}

#[test]
fn lowercase_number_does_not_fold_case() {
    assert_eq!(lowercase_number("five"), Some(5));
    assert_eq!(lowercase_number("Five"), None);
}

#[test]
fn number_from_words_reads_a_word_list() {
    let words = vec!["two".to_string(), "hundred".to_string(), "and".to_string(), "five".to_string()];
    assert_eq!(number_from_words(&words), Some(205));
    assert_eq!(number_from_words(&Vec::new()), None);
    assert_eq!(number_from_words(&vec!["hundred".to_string()]), None);
    assert_eq!(number_from_words(&vec!["zero".to_string(), "hundred".to_string()]), Some(0));
    assert_eq!(number_from_words(&vec!["nope".to_string()]), None);
}

#[test]
fn format_duration_human_names_the_parts() {
    assert_eq!(format_duration_human(0), "zero seconds");
    assert_eq!(format_duration_human(1), "one second");
    assert_eq!(format_duration_human(60), "one minute");
    assert_eq!(format_duration_human(61), "one minute and one second");
    assert_eq!(format_duration_human(3600), "one hour");
    assert_eq!(format_duration_human(5700), "one hour and thirty five minutes");
    assert_eq!(format_duration_human(7322), "two hours and two minutes and two seconds");
}

#[test]
fn join_phrases_puts_the_separator_between() {
    assert_eq!(join_phrases(&Vec::new(), ", "), "");
    assert_eq!(join_phrases(&vec!["a".to_string()], ", "), "a");
    assert_eq!(join_phrases(&vec!["a".to_string(), "b".to_string(), "c".to_string()], ", "), "a, b, c");
}
