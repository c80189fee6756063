//! Texts and numbers.

use ananke::json::{count, counter, integer, point_json, string, Json, Num, Object};
use ananke::text::{
    contains, decimal_i64, decimal_u64, join, parse_i64, parse_u64, same, same_ignoring_case,
    starts_with, to_ascii_lower, without,
};

#[test]
fn parts_are_found() {
    assert!(contains("a water world", "water"));
    assert!(contains("x", ""));
    assert!(!contains("water", "waters"));
    assert!(starts_with("https://eddn", "https://"));
    assert!(!starts_with("http", "https"));
}

#[test]
fn parts_are_taken_out() {
    assert_eq!(without("Sol A 1", "Sol"), " A 1");
    assert_eq!(without("aaaa", "aa"), "");
    assert_eq!(without("abab", "ba"), "ab");
    assert_eq!(without("abc", ""), "abc");
}

#[test]
fn cases_are_folded() {
    assert_eq!(to_ascii_lower("AbÄ"), "abÄ");
    assert!(same_ignoring_case("ANY", "any"));
    assert!(!same_ignoring_case("Ä", "ä"));
    assert!(same("x", "x") && !same("x", "X"));
}

#[test]
fn numbers_are_written_and_read() {
    for i in [0i64, 1, -1, 10, 99, 100, i64::MAX, i64::MIN, -10477373803] {
        assert_eq!(decimal_i64(i), i.to_string());
        assert_eq!(parse_i64(&i.to_string()), Some(i));
    }
    for u in [0u64, 7, 1234567890123456789, u64::MAX] {
        assert_eq!(decimal_u64(u), u.to_string());
        assert_eq!(parse_u64(&u.to_string()), Some(u));
    }
    for s in ["", "+", "-", "1 ", "1.0", "x", "--1", "9223372036854775808", "-9223372036854775809"] {
        assert_eq!(parse_i64(s), s.parse::<i64>().ok());
    }
    for s in ["", "+", "-", "-1", "+7", "007", "18446744073709551616", "-0"] {
        assert_eq!(parse_u64(s), s.parse::<u64>().ok());
    }
}

#[test]
fn lists_are_joined() {
    let v = vec!["a".to_string(), "b".to_string(), "c".to_string()];
    assert_eq!(join(&v, ", "), "a, b, c");
    assert_eq!(join(&vec![], ", "), "");
}

#[test]
fn values_are_built() {
    let mut o = Object::new();
    o.put("a", integer(1));
    o.put("b", string("x"));
    o.put("a", integer(2));
    let j = o.done();
    assert_eq!(j.get("a").unwrap().as_i64(), Some(2));
    assert_eq!(j.get("b").unwrap().as_str(), Some("x"));
    assert!(j.get("c").is_none());
    assert!(matches!(count(5), Json::Num(Num::Int(5))));
    assert!(matches!(counter(u64::MAX), Json::Num(Num::Big(u64::MAX))));
    let p = point_json(Num::Int(1), Num::Int(2), Num::Int(3));
    assert_eq!(p.get("z").unwrap().as_i64(), Some(3));
    assert!(Json::Null.is_null());
    assert_eq!(Json::Bool(true).as_bool(), Some(true));
    assert!(j.copy().get("b").is_some());
}
