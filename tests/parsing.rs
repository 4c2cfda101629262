use frippy::randomizer::RandomIndex;
use frippy::remind::error::ErrorKind;
use frippy::remind::parser::CommandParser;
use frippy::text::{
    decimal_text, join, parse_i32, parse_i64, parse_u32, split_on_char, split_on_spaces, to_one_line,
    truncate_bytes,
};

fn tokens(s: &str) -> Vec<String> {
    s.split(' ').map(|t| t.to_string()).collect()
}

#[test]
fn remind_in_duration() {
    let p = CommandParser::parse_target(tokens("bob in 5 minutes to buy milk")).unwrap();
    assert_eq!(p.get_target(), "bob");
    assert_eq!(p.get_message(), "buy milk");
    assert_eq!(p.duration_phrase(), Some("5 minutes"));
    assert_eq!(p.time_phrase(), None);
}

#[test]
fn remind_words_before_keyword_join_message() {
    let p = CommandParser::with_target(tokens("call mom to now at 18:00"), "me".to_string()).unwrap();
    assert_eq!(p.get_target(), "me");
    assert_eq!(p.get_message(), "call mom now");
    assert_eq!(p.time_phrase(), Some("18:00"));
}

#[test]
fn remind_on_every() {
    let p = CommandParser::parse_target(tokens("bob on 1.2 every week to x")).unwrap();
    assert_eq!(p.date_phrase(), Some("1.2"));
    assert_eq!(p.repeat_phrase(), Some("week"));
}

#[test]
fn remind_errors() {
    let e = |s: &str| CommandParser::parse_target(tokens(s)).unwrap_err().kind;
    assert_eq!(CommandParser::parse_target(vec![]).unwrap_err().kind, ErrorKind::MissingReceiver);
    assert_eq!(e("bob in 5m"), ErrorKind::MissingMessage);
    assert_eq!(e("bob to x"), ErrorKind::MissingTime);
    assert_eq!(e("bob in 5m at 3:00 to x"), ErrorKind::AmbiguousTime);
    assert_eq!(e("bob in 5m to x in 3m"), ErrorKind::MissingMessage);
    assert_eq!(e("bob hello"), ErrorKind::MissingMessage);
}

#[test]
fn random_index_cycles() {
    let mut r = RandomIndex::new();
    assert_eq!(r.get(), None);
    r.init(3);
    let first = *r.get().unwrap();
    let second = *r.get().unwrap();
    assert_ne!(first, second);
    assert!((1..=3).contains(&first) && (1..=3).contains(&second));
    let mut fresh = vec![];
    for _ in 0..3 {
        fresh.push(*r.get().unwrap());
    }
    fresh.sort();
    assert_eq!(fresh, vec![1, 2, 3]);
    r.init(10);
    r.update_count(100);
    r._force_shuffle();
    for _ in 0..200 {
        let v = *r.get().unwrap();
        assert!((1..=64).contains(&v));
    }
}

#[test]
fn integers_parse_like_std() {
    for s in ["0", "-1", "+7", "2147483647", "-2147483648", "", "-", "2147483648", "1a", " 1", "0042"] {
        assert_eq!(parse_i32(s), s.parse::<i32>().ok(), "{}", s);
    }
}

#[test]
fn decimals() {
    assert_eq!(decimal_text(0), "0");
    assert_eq!(decimal_text(7), "7");
    assert_eq!(decimal_text(1203), "1203");
    assert_eq!(decimal_text(u64::MAX), "18446744073709551615");
}

#[test]
fn text_helpers() {
    assert_eq!(split_on_spaces("a  b "), vec!["a", "", "b", ""]);
    assert_eq!(split_on_spaces(""), vec![""]);
    assert_eq!(join(&vec!["a".to_string(), "b".to_string()], "|"), "a|b");
    assert_eq!(to_one_line("x\r\ny\n"), "x|y|");
    assert_eq!(truncate_bytes("héllo", 3), "hé");
    assert_eq!(truncate_bytes("héllo", 2), "h");
    assert_eq!(truncate_bytes("hi", 5), "hi");
    assert_eq!(truncate_bytes("日本", 5), "日");
}

#[test]
fn unsigned_and_wide_integers_parse_like_std() {
    for s in ["0", "+7", "-0", "-1", "4294967295", "4294967296", "", "+", "12a"] {
        assert_eq!(parse_u32(s), s.parse::<u32>().ok(), "{}", s);
    }
    for s in ["9223372036854775807", "-9223372036854775808", "9223372036854775808", "-5", "99999999999999999999999"] {
        assert_eq!(parse_i64(s), s.parse::<i64>().ok(), "{}", s);
    }
}

#[test]
fn split_on_other_separators() {
    assert_eq!(split_on_char("1.2.", '.'), vec!["1", "2", ""]);
    assert_eq!(split_on_char("12:30", ':'), vec!["12", "30"]);
}
