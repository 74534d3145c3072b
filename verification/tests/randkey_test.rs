use rand_key::sample::{draw, draw_class, rand_idx, shuffled};
use rand_key::{Count, GenError, RandKey, SetRandKeyOp, ToRandKey};

fn counts(key: &RandKey) -> (String, String, String) {
    (key.get_cnt("L").unwrap(), key.get_cnt("S").unwrap(), key.get_cnt("N").unwrap())
}

fn tally(text: &str) -> (usize, usize, usize) {
    (
        text.chars().filter(|c| c.is_ascii_alphabetic()).count(),
        text.chars().filter(|c| c.is_ascii_punctuation()).count(),
        text.chars().filter(|c| c.is_ascii_digit()).count(),
    )
}

fn sorted(text: &str) -> Vec<char> {
    let mut chars: Vec<char> = text.chars().collect();
    chars.sort();
    chars
}

#[test]
fn new_has_counts_no_key_and_the_initial_unit() {
    let key = RandKey::new("10", "2", "3").unwrap();
    assert_eq!(counts(&key), ("10".into(), "2".into(), "3".into()));
    assert_eq!(key.key(), "");
    assert!(key.is_empty());
    assert_eq!(key.len(), 0);
    assert_eq!(key.unit(), "65535");
    assert_eq!(key.data("N").unwrap(), ["0", "1", "2", "3", "4", "5", "6", "7", "8", "9"]);
    assert_eq!(key.data("L").unwrap().len(), 52);
    assert_eq!(key.data("S").unwrap().len(), 32);
}

#[test]
fn new_refuses_what_is_no_number() {
    assert_eq!(RandKey::new("abc", "1", "1").unwrap_err(), GenError::InvalidNumber);
    assert_eq!(RandKey::new("1", "-1", "1").unwrap_err(), GenError::InvalidNumber);
    assert_eq!(RandKey::new("1", "1", "").unwrap_err(), GenError::InvalidNumber);
    assert_eq!(RandKey::new("你好", "1", "C").unwrap_err(), GenError::InvalidNumber);
    assert!(!RandKey::check_init(("1", "2", "x")));
    assert!(RandKey::check_init(("1", "2", "3")));
}

#[test]
fn default_is_empty_with_the_default_unit() {
    let key = RandKey::default();
    assert_eq!(counts(&key), ("0".into(), "0".into(), "0".into()));
    assert_eq!(key.key(), "");
    assert_eq!(key.unit(), "1048576");
    assert_eq!(key.all_data()[2].len(), 10);
}

#[test]
fn join_makes_a_key_of_the_counts() {
    for (l, s, n) in [(10usize, 2usize, 3usize), (0, 0, 0), (1, 0, 0), (0, 5, 0), (0, 0, 7), (40, 40, 40)] {
        let mut key = RandKey::new(&l.to_string(), &s.to_string(), &n.to_string()).unwrap();
        assert_eq!(key.join(), Ok(()));
        assert_eq!(key.len(), l + s + n);
        assert_eq!(key.key().len(), l + s + n);
        assert_eq!(tally(key.key()), (l, s, n));
        assert_eq!(key.is_empty(), l + s + n == 0);
        assert_eq!(counts(&key), (l.to_string(), s.to_string(), n.to_string()));
    }
}

#[test]
fn join_draws_from_the_alphabet_only() {
    let mut key = RandKey::new("30", "20", "10").unwrap();
    key.replace_data(&["x", "y", "+", "7"]).unwrap();
    key.join().unwrap();
    assert_eq!(key.len(), 60);
    assert!(key.key().chars().all(|c| "xy+7".contains(c)));
    assert_eq!(tally(key.key()), (30, 20, 10));
}

#[test]
fn join_works_piece_by_piece() {
    for unit in ["1", "2", "7", "100", "99999999999999999999999999"] {
        let mut key = RandKey::new("25", "13", "12").unwrap();
        key.set_unit(unit).unwrap();
        key.join().unwrap();
        assert_eq!(key.len(), 50);
        assert_eq!(tally(key.key()), (25, 13, 12));
    }
}

#[test]
fn join_takes_a_new_key_each_time() {
    let mut key = RandKey::new("200", "0", "0").unwrap();
    key.join().unwrap();
    let first = key.key().to_string();
    key.join().unwrap();
    assert_eq!(key.len(), 200);
    assert_ne!(key.key(), first);
}

#[test]
fn join_without_characters_keeps_the_old_key() {
    let mut key = RandKey::new("3", "0", "1").unwrap();
    key.join().unwrap();
    let old = key.key().to_string();
    key.clear("N").unwrap();
    assert_eq!(key.check_data(), Err(GenError::MissChar));
    assert_eq!(key.join(), Err(GenError::MissChar));
    assert_eq!(key.key(), old);
    key.set_cnt("N", "0").unwrap();
    assert_eq!(key.check_data(), Ok(()));
    assert_eq!(key.join(), Ok(()));
    assert_eq!(tally(key.key()), (3, 0, 0));
}

#[test]
fn join_refuses_a_key_beyond_machine_words() {
    let mut key = RandKey::new("340282366920938463463374607431768211456", "0", "0").unwrap();
    key.set_key("abc", SetRandKeyOp::Update).unwrap();
    key.set_cnt("L", "340282366920938463463374607431768211456").unwrap();
    assert_eq!(key.join(), Err(GenError::Overflow));
    assert_eq!(key.key(), "abc");
    let mut key = RandKey::new(&usize::MAX.to_string(), "1", "0").unwrap();
    assert_eq!(key.join(), Err(GenError::Overflow));
}

#[test]
fn a_made_key_passes_the_check_of_its_counts() {
    let mut key = RandKey::new("10", "2", "3").unwrap();
    key.join().unwrap();
    let made = key.key().to_string();
    assert_eq!(key.set_key(&made, SetRandKeyOp::Check), Ok(()));
    assert_eq!(key.set_key(&made, SetRandKeyOp::Update), Ok(()));
    assert_eq!(counts(&key), ("10".into(), "2".into(), "3".into()));
    assert_eq!(key.key(), made);
}

#[test]
fn set_key_check_wants_the_same_counts() {
    let mut key = RandKey::new("10", "2", "3").unwrap();
    assert_eq!(key.set_key("]EH1zyqx3Bl/F8a", SetRandKeyOp::Check), Ok(()));
    assert_eq!(key.key(), "]EH1zyqx3Bl/F8a");
    assert_eq!(key.set_key("123456", SetRandKeyOp::Check), Err(GenError::InconsistentField));
    assert_eq!(key.key(), "]EH1zyqx3Bl/F8a");
    assert_eq!(counts(&key), ("10".into(), "2".into(), "3".into()));
}

#[test]
fn set_key_update_takes_the_counts_of_the_key() {
    let mut key = RandKey::new("10", "2", "3").unwrap();
    assert_eq!(key.set_key("123456", SetRandKeyOp::Update), Ok(()));
    assert_eq!(counts(&key), ("0".into(), "0".into(), "6".into()));
    assert_eq!(key.key(), "123456");
    assert_eq!(key.len(), 6);
    assert_eq!(key.set_key("a b-c", SetRandKeyOp::Update), Ok(()));
    assert_eq!(counts(&key), ("3".into(), "1".into(), "0".into()));
    assert_eq!(key.len(), 5);
}

#[test]
fn set_key_refuses_what_is_not_ascii() {
    let mut key = RandKey::new("1", "0", "0").unwrap();
    key.set_key("a", SetRandKeyOp::Check).unwrap();
    assert_eq!(key.set_key("🦀", SetRandKeyOp::Update), Err(GenError::InvalidChar));
    assert_eq!(key.set_key("é", SetRandKeyOp::Check), Err(GenError::InvalidChar));
    assert_eq!(key.key(), "a");
    assert_eq!(counts(&key), ("1".into(), "0".into(), "0".into()));
}

#[test]
fn set_unit_wants_a_positive_number() {
    let mut key = RandKey::new("10", "2", "3").unwrap();
    assert_eq!(key.set_unit("0"), Err(GenError::InvalidUnit));
    assert_eq!(key.set_unit("000"), Err(GenError::InvalidUnit));
    assert_eq!(key.set_unit("-4"), Err(GenError::InvalidNumber));
    assert_eq!(key.set_unit("ten"), Err(GenError::InvalidNumber));
    assert_eq!(key.unit(), "65535");
    assert_eq!(key.set_unit("1024"), Ok(()));
    assert_eq!(key.unit(), "1024");
    assert_eq!(key.set_unit("18446744073709551616000"), Ok(()));
    assert_eq!(key.unit(), "18446744073709551616000");
}

#[test]
fn set_cnt_and_get_cnt() {
    let mut key = RandKey::new("10", "2", "3").unwrap();
    assert_eq!(key.set_cnt("L", "20"), Ok(()));
    assert_eq!(key.get_cnt("L"), Some("20".to_string()));
    assert_eq!(key.set_cnt("S", "1000"), Ok(()));
    assert_eq!(key.get_cnt("S"), Some("1000".to_string()));
    assert_eq!(key.set_cnt("N", "0"), Ok(()));
    assert_eq!(key.get_cnt("N"), Some("0".to_string()));
    assert_eq!(key.set_cnt("N", "007"), Ok(()));
    assert_eq!(key.get_cnt("N"), Some("7".to_string()));
    assert_eq!(key.set_cnt("N", "-1"), Err(GenError::InvalidNumber));
    assert_eq!(key.set_cnt("X", "1"), Err(GenError::InvalidKind));
    assert_eq!(key.set_cnt("X", "x"), Err(GenError::InvalidKind));
    assert_eq!(key.set_cnt("", "1"), Err(GenError::InvalidKind));
    assert_eq!(key.set_cnt("LS", "1"), Err(GenError::InvalidKind));
    assert_eq!(key.get_cnt("l"), None);
    assert_eq!(counts(&key), ("20".into(), "1000".into(), "7".into()));
}

#[test]
fn data_by_kind() {
    let mut key = RandKey::new("10", "2", "3").unwrap();
    key.replace_data(&["1", "2", "a", "-"]).unwrap();
    assert_eq!(key.data("L").unwrap(), ["a"]);
    assert_eq!(key.data("S").unwrap(), ["-"]);
    assert_eq!(key.data("N").unwrap(), ["1", "2"]);
    assert_eq!(key.data("Q").unwrap_err(), GenError::InvalidKind);
    assert_eq!(key.all_data(), [vec!["a"], vec!["-"], vec!["1", "2"]]);
}

#[test]
fn del_item_takes_characters_out() {
    let mut key = RandKey::new("10", "2", "3").unwrap();
    key.replace_data(&["1", "2", "a", "-"]).unwrap();
    assert_eq!(key.del_item(&["1"]), Ok(()));
    assert_eq!(key.data("N").unwrap(), ["2"]);
    assert_eq!(key.data("L").unwrap(), ["a"]);
}

#[test]
fn del_item_refuses_what_is_not_there_or_no_character() {
    let mut key = RandKey::new("10", "2", "3").unwrap();
    key.replace_data(&["1", "2", "a", "-"]).unwrap();
    assert_eq!(key.del_item(&["b"]), Err(GenError::DelNonExistValue));
    assert_eq!(key.del_item(&["1", "3"]), Err(GenError::DelNonExistValue));
    assert_eq!(key.del_item(&["é"]), Err(GenError::InvalidChar));
    assert_eq!(key.del_item(&["1", "\n"]), Err(GenError::InvalidChar));
    assert_eq!(key.del_item(&["12"]), Err(GenError::InvalidChar));
    assert_eq!(key.del_item(&[""]), Err(GenError::InvalidChar));
    assert_eq!(key.all_data(), [vec!["a"], vec!["-"], vec!["1", "2"]]);
}

#[test]
fn add_item_adds_to_the_class_of_each_character() {
    let mut key = RandKey::new("10", "2", "3").unwrap();
    key.clear_all();
    assert_eq!(key.all_data(), [Vec::<String>::new(), vec![], vec![]]);
    assert_eq!(key.add_item(&["a", "0", "-", "a", " "]), Ok(()));
    assert_eq!(key.all_data(), [vec!["a"], vec!["-"], vec!["0"]]);
    assert_eq!(key.add_item(&["b", "\u{7f}"]), Err(GenError::InvalidChar));
    assert_eq!(key.add_item(&["b", "ü"]), Err(GenError::InvalidChar));
    assert_eq!(key.add_item(&["bc"]), Err(GenError::InvalidChar));
    assert_eq!(key.all_data(), [vec!["a"], vec!["-"], vec!["0"]]);
    key.join().unwrap();
    assert_eq!(sorted(key.key()), sorted("aaaaaaaaaa--000"));
}

#[test]
fn replace_data_tells_a_missing_class() {
    let mut key = RandKey::new("10", "2", "3").unwrap();
    assert_eq!(key.replace_data(&["1"]), Err(GenError::MissChar));
    assert_eq!(key.all_data(), [Vec::<String>::new(), vec![], vec!["1".to_string()]]);
    assert_eq!(key.replace_data(&["a"]), Err(GenError::MissChar));
    assert_eq!(key.replace_data(&["-"]), Err(GenError::MissChar));
    assert_eq!(key.replace_data(&["1", "a", "."]), Ok(()));
    assert_eq!(key.all_data(), [vec!["a"], vec!["."], vec!["1"]]);
    assert_eq!(key.replace_data(&["1", "a", "\0"]), Err(GenError::InvalidChar));
    assert_eq!(key.replace_data(&["ab", "1", "."]), Err(GenError::InvalidChar));
    assert_eq!(key.all_data(), [vec!["a"], vec!["."], vec!["1"]]);
    key.join().unwrap();
    assert_eq!(sorted(key.key()), sorted("aaaaaaaaaa..111"));
}

#[test]
fn clear_by_kind() {
    let mut key = RandKey::new("0", "0", "0").unwrap();
    assert_eq!(key.clear("S"), Ok(()));
    assert!(key.data("S").unwrap().is_empty());
    assert_eq!(key.data("L").unwrap().len(), 52);
    assert_eq!(key.clear("s"), Err(GenError::InvalidKind));
    assert_eq!(key.data("N").unwrap().len(), 10);
}

#[test]
fn plus_puts_two_generators_together() {
    let mut a = RandKey::new("1", "2", "3").unwrap();
    let mut b = RandKey::new("4", "5", "6").unwrap();
    a.join().unwrap();
    b.join().unwrap();
    a.set_unit("77").unwrap();
    a.replace_data(&["a", "-", "1"]).unwrap();
    b.replace_data(&["b", "a", "-", "2", "+"]).unwrap();
    let both = a.combine(&b);
    assert_eq!(counts(&both), ("5".into(), "7".into(), "9".into()));
    assert_eq!(both.key(), format!("{}{}", a.key(), b.key()));
    assert_eq!(both.len(), 21);
    assert_eq!(both.unit(), "77");
    assert_eq!(both.all_data(), [vec!["a", "b"], vec!["-", "+"], vec!["1", "2"]]);
    let (first, second) = (a.key().to_string(), b.key().to_string());
    let sum = a + b;
    assert_eq!(counts(&sum), ("5".into(), "7".into(), "9".into()));
    assert_eq!(sum.key(), format!("{}{}", first, second));
    assert_eq!(sum.unit(), "77");
}

#[test]
fn plus_of_new_generators() {
    let sum = RandKey::new("1", "2", "3").unwrap() + RandKey::new("4", "5", "6").unwrap();
    assert_eq!(counts(&sum), ("5".into(), "7".into(), "9".into()));
    assert_eq!(sum.key(), "");
    assert_eq!(sum.unit(), "65535");
    assert_eq!(sum.data("L").unwrap().len(), 52);
}

#[test]
fn to_randkey_takes_the_text_as_key() {
    let key = "n4jpstv$dI,.z'K".to_randkey().unwrap();
    assert_eq!(counts(&key), ("10".into(), "4".into(), "1".into()));
    assert_eq!(key.key(), "n4jpstv$dI,.z'K");
    assert_eq!(key.unit(), "1048576");
    let key = String::from("=tE)n5f`sidR>BV").to_randkey().unwrap();
    assert_eq!(counts(&key), ("10".into(), "4".into(), "1".into()));
    assert_eq!("🦀️🦀️🦀️".to_randkey().unwrap_err(), GenError::InvalidChar);
    assert_eq!(String::from("naïve").to_randkey().unwrap_err(), GenError::InvalidChar);
}

#[test]
fn clone_copies_the_generator() {
    let mut key = RandKey::new("3", "2", "1").unwrap();
    key.join().unwrap();
    let copy = key.clone();
    key.set_key("", SetRandKeyOp::Update).unwrap();
    key.clear_all();
    assert_eq!(copy.len(), 6);
    assert_eq!(counts(&copy), ("3".into(), "2".into(), "1".into()));
    assert_eq!(copy.data("N").unwrap().len(), 10);
}

#[test]
fn rand_idx_stays_below_the_length() {
    for (count, length) in [(0usize, 0usize), (0, 5), (1, 1), (100, 7), (1000, 94)] {
        let idxs = rand_idx(count, length);
        assert_eq!(idxs.len(), count);
        assert!(idxs.iter().all(|i| *i < length));
    }
}

#[test]
fn rand_idx_reaches_every_index() {
    let idxs = rand_idx(2000, 4);
    for i in 0..4 {
        assert!(idxs.contains(&i));
    }
}

#[test]
fn draw_takes_characters_of_the_data() {
    let data = vec!['a', 'b', 'c'];
    let drawn = draw(500, &data);
    assert_eq!(drawn.len(), 500);
    assert!(drawn.iter().all(|c| data.contains(c)));
    assert!(draw(0, &Vec::new()).is_empty());
}

#[test]
fn draw_class_makes_the_whole_count() {
    let data = vec!['x', 'y'];
    for unit in [1usize, 3, 10, 1000] {
        let drawn = draw_class(&Count::from_usize(100), &Count::from_usize(unit), &data);
        assert_eq!(drawn.len(), 100);
        assert!(drawn.iter().all(|c| data.contains(c)));
    }
    assert!(draw_class(&Count::from_usize(0), &Count::from_usize(5), &Vec::new()).is_empty());
}

#[test]
fn shuffled_keeps_the_characters() {
    let buffer: Vec<char> = ('!'..='~').collect();
    let text = shuffled(buffer.clone());
    assert_eq!(sorted(&text), buffer);
    assert_ne!(text.chars().collect::<Vec<char>>(), buffer);
    assert_eq!(shuffled(Vec::new()), "");
    assert_eq!(shuffled(vec!['k']), "k");
}

#[test]
fn messages() {
    assert_eq!(GenError::MissChar.message(), "The corresponding character is missing!");
    assert_eq!(GenError::DelNonExistValue.message(), "Delete non-exist value!");
    assert_eq!(GenError::InvalidUnit.message(), "Require unit to be non-negative");
    assert_eq!(
        GenError::InvalidChar.message(),
        "Require ASCII characters excluded control ones"
    );
    assert_eq!(GenError::InvalidNumber.message(), "Require Non-negative integer in `&str`");
    assert_eq!(GenError::InconsistentField.message(), "Require consistent field");
    assert!(!GenError::InvalidKind.message().is_empty());
    assert!(!GenError::Overflow.message().is_empty());
}
