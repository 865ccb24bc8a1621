use wordify::bignum::parse_decimal;
use wordify::words::wordify;

fn spell(s: &str) -> String {
    let n = parse_decimal(s).expect("the literal should parse");
    wordify(&n).expect("the value should be within the scale table")
}

#[test]
fn zero_spells_zero() {
    assert_eq!(spell("0"), "zero");
}

#[test]
fn four_is_the_literal_fixed_point() {
    let word = spell("4");
    assert_eq!(word, "four");
    assert_eq!(word.chars().count(), 4);
}

#[test]
fn small_numbers() {
    assert_eq!(spell("1"), "one");
    assert_eq!(spell("13"), "thirteen");
    assert_eq!(spell("19"), "nineteen");
    assert_eq!(spell("20"), "twenty");
    assert_eq!(spell("42"), "forty-two");
    assert_eq!(spell("90"), "ninety");
}

#[test]
fn hundreds() {
    assert_eq!(spell("100"), "one hundred");
    assert_eq!(spell("105"), "one hundred five");
    assert_eq!(spell("123"), "one hundred twenty-three");
    assert_eq!(spell("999"), "nine hundred ninety-nine");
}

#[test]
fn thousands_suppress_zero_remainders() {
    assert_eq!(spell("1000"), "one thousand");
    assert_eq!(spell("1000000"), "one million");
    assert_eq!(spell("1000001"), "one million one");
    assert_eq!(spell("14000000"), "fourteen million");
}

#[test]
fn negative_five() {
    assert_eq!(spell("-5"), "negative five");
}

#[test]
fn negative_prefix_matches_positive_spelling() {
    for s in ["1", "4", "19", "123", "1000", "987654321"] {
        let neg = format!("-{}", s);
        assert_eq!(spell(&neg), format!("negative {}", spell(s)));
    }
}

#[test]
fn big_number_with_a_septillion() {
    assert_eq!(spell("1000000000000000000000000"), "one septillion");
}

#[test]
fn every_group_spelled() {
    assert_eq!(
        spell("1234567"),
        "one million two hundred thirty-four thousand five hundred sixty-seven"
    );
}

#[test]
fn no_double_spaces_or_edge_whitespace() {
    for s in [
        "0", "7", "40", "100", "110", "1000", "1001", "100000", "100001", "123456789",
        "-1000000", "999000000999", "1000000000000",
    ] {
        let w = spell(s);
        assert!(!w.contains("  "), "double space in {:?}", w);
        assert!(!w.starts_with(' '), "leading space in {:?}", w);
        assert!(!w.ends_with(' '), "trailing space in {:?}", w);
        assert!(!w.is_empty());
    }
}

#[test]
fn centillion_is_the_last_scale() {
    let mut s = String::from("1");
    for _ in 0..303 {
        s.push('0');
    }
    assert_eq!(spell(&s), "one centillion");
}

#[test]
fn largest_supported_magnitude() {
    let s: String = std::iter::repeat('9').take(306).collect();
    let w = spell(&s);
    assert!(w.starts_with("nine hundred ninety-nine centillion"));
}

#[test]
fn magnitude_beyond_the_table_is_an_error() {
    let mut s = String::from("1");
    for _ in 0..306 {
        s.push('0');
    }
    let n = parse_decimal(&s).expect("the literal should parse");
    assert!(wordify(&n).is_err());
}

#[test]
fn parse_accepts_signs_and_leading_zeros() {
    assert_eq!(spell("-42"), "negative forty-two");
    assert_eq!(spell("+7"), "seven");
    assert_eq!(spell("007"), "seven");
    assert_eq!(spell("-0"), "zero");
}

#[test]
fn parse_rejects_non_numbers() {
    assert!(parse_decimal("abc").is_none());
    assert!(parse_decimal("").is_none());
    assert!(parse_decimal("-").is_none());
    assert!(parse_decimal("+").is_none());
    assert!(parse_decimal("12a").is_none());
    assert!(parse_decimal("1.5").is_none());
    assert!(parse_decimal(" 5").is_none());
    assert!(parse_decimal("१२३").is_none());
}
