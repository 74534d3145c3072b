use rand_key::chunk::div_unit;
use rand_key::{AsBiguint, Count, GenError};

fn count(text: &str) -> Count {
    Count::parse(text).unwrap()
}

fn texts(pieces: &[Count]) -> Vec<String> {
    pieces.iter().map(|c| c.to_text()).collect()
}

#[test]
fn parse_reads_decimal_numerals() {
    assert_eq!(count("0").to_text(), "0");
    assert_eq!(count("42").to_text(), "42");
    assert_eq!(count("007").to_text(), "7");
    assert_eq!(
        count("123456789012345678901234567890").to_text(),
        "123456789012345678901234567890"
    );
}

#[test]
fn parse_refuses_what_is_no_numeral() {
    for text in ["", "abc", "-1", "+1", "1_000", "1 ", " 1", "1.5", "١٢٣", "你好", "0x10"] {
        assert_eq!(Count::parse(text).unwrap_err(), GenError::InvalidNumber, "{:?}", text);
    }
}

#[test]
fn as_biguint_reads_texts_and_strings() {
    assert_eq!("15".as_biguint().unwrap().to_usize(), Some(15));
    assert_eq!(String::from("15").as_biguint().unwrap().to_usize(), Some(15));
    assert_eq!("-15".as_biguint().unwrap_err(), GenError::InvalidNumber);
    assert_eq!(String::from("x").as_biguint().unwrap_err(), GenError::InvalidNumber);
}

#[test]
fn from_usize_and_back() {
    assert_eq!(Count::from_usize(0).to_usize(), Some(0));
    assert_eq!(Count::from_usize(65535).to_text(), "65535");
    assert_eq!(Count::from_usize(usize::MAX).to_usize(), Some(usize::MAX));
}

#[test]
fn to_usize_refuses_what_does_not_fit() {
    let big = Count::from_usize(usize::MAX).plus(&Count::from_usize(1));
    assert_eq!(big.to_usize(), None);
    assert_eq!(count("340282366920938463463374607431768211456").to_usize(), None);
}

#[test]
fn zero_is_told_apart() {
    assert!(count("0").is_zero());
    assert!(count("000").is_zero());
    assert!(!count("1").is_zero());
}

#[test]
fn counts_are_compared_by_value() {
    assert!(count("12").equals(&count("012")));
    assert!(!count("12").equals(&count("21")));
    assert!(count("12").less_than(&count("21")));
    assert!(!count("21").less_than(&count("12")));
    assert!(!count("12").less_than(&count("12")));
    assert!(count("99999999999999999999").less_than(&count("100000000000000000000")));
}

#[test]
fn plus_adds() {
    assert_eq!(count("2").plus(&count("3")).to_text(), "5");
    assert_eq!(
        count("99999999999999999999").plus(&count("1")).to_text(),
        "100000000000000000000"
    );
}

#[test]
fn checked_minus_never_goes_below_zero() {
    assert_eq!(count("5").checked_minus(&count("3")).unwrap().to_text(), "2");
    assert!(count("5").checked_minus(&count("5")).unwrap().is_zero());
    assert!(count("3").checked_minus(&count("5")).is_none());
}

#[test]
fn clone_keeps_the_number() {
    let c = count("31415926535897932384626433");
    assert!(c.clone().equals(&c));
    assert_eq!(c.clone().to_text(), "31415926535897932384626433");
}

#[test]
fn div_unit_splits_greedily() {
    assert_eq!(texts(&div_unit(&count("3"), &count("10"))), ["3", "3", "3", "1"]);
    assert_eq!(texts(&div_unit(&count("3"), &count("9"))), ["3", "3", "3"]);
    assert_eq!(texts(&div_unit(&count("5"), &count("2"))), ["2"]);
    assert_eq!(texts(&div_unit(&count("5"), &count("5"))), ["5"]);
    assert_eq!(texts(&div_unit(&count("1"), &count("4"))), ["1", "1", "1", "1"]);
}

#[test]
fn div_unit_of_nothing_is_empty() {
    assert!(div_unit(&count("7"), &count("0")).is_empty());
}

#[test]
fn div_unit_pieces_add_up_and_stay_within_the_unit() {
    for (total, unit) in [(0usize, 1usize), (1, 1), (17, 4), (100, 7), (1000, 1000), (1000, 1001), (999, 10)] {
        let pieces = div_unit(&Count::from_usize(unit), &Count::from_usize(total));
        let sizes: Vec<usize> = pieces.iter().map(|c| c.to_usize().unwrap()).collect();
        assert_eq!(sizes.iter().sum::<usize>(), total);
        assert!(sizes.iter().all(|s| 0 < *s && *s <= unit));
        assert_eq!(sizes.len(), (total + unit - 1) / unit);
    }
}

#[test]
fn div_unit_works_beyond_machine_words() {
    let unit = count("100000000000000000000000000000");
    let total = count("250000000000000000000000000000");
    assert_eq!(
        texts(&div_unit(&unit, &total)),
        [
            "100000000000000000000000000000",
            "100000000000000000000000000000",
            "50000000000000000000000000000"
        ]
    );
}
