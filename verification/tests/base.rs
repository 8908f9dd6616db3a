use host_plugins::json::{get_text, member_text, read_value, write_array, write_object, Json};
use host_plugins::number::{i64_text, parse_i64, parse_u16, parse_u32, parse_u64, u128_text, u64_text, wrap_i32, wrap_u32};
use host_plugins::text::{contains, cut, join, split_char, split_words, starts_with, trim};

#[test]
fn texts_are_trimmed_and_split() {
    assert_eq!(trim("  a b \t\n"), "a b");
    assert_eq!(trim("\u{3000}x\u{a0}"), "x");
    assert_eq!(trim("   "), "");
    assert_eq!(split_char("a;b;;c", ';'), vec!["a", "b", "", "c"]);
    assert_eq!(split_char("", ';'), vec![""]);
    assert_eq!(split_words(" */30  * * * * "), vec!["*/30", "*", "*", "*", "*"]);
    assert!(split_words("  ").is_empty());
    let (k, v) = cut("a=b=c", '=').unwrap();
    assert_eq!((k.as_str(), v.as_str()), ("a", "b=c"));
    assert!(cut("abc", '=').is_none());
}

#[test]
fn texts_are_searched_and_joined() {
    assert!(starts_with("schedule.tick", "schedule"));
    assert!(!starts_with("sched", "schedule"));
    assert!(contains("name=x;cron=1", "cron="));
    assert!(contains("abc", ""));
    assert!(!contains("ab", "abc"));
    assert_eq!(join(&vec!["a".to_string(), "b".to_string(), "c".to_string()], "&"), "a&b&c");
    assert_eq!(join(&Vec::new(), "&"), "");
}

#[test]
fn numbers_are_read_like_std_reads_them() {
    for t in ["0", "+7", "007", "18446744073709551615", "18446744073709551616", "", "+", "-1", " 1", "1_0"] {
        assert_eq!(parse_u64(t), t.parse::<u64>().ok(), "{}", t);
        assert_eq!(parse_u32(t), t.parse::<u32>().ok(), "{}", t);
        assert_eq!(parse_u16(t), t.parse::<u16>().ok(), "{}", t);
    }
    for t in ["-9223372036854775808", "9223372036854775807", "9223372036854775808", "-9223372036854775809", "-", "--1", "+-1", "-100123"] {
        assert_eq!(parse_i64(t), t.parse::<i64>().ok(), "{}", t);
    }
}

#[test]
fn numbers_are_written_like_std_writes_them() {
    for n in [0u64, 9, 10, 12345, u64::MAX] {
        assert_eq!(u64_text(n), n.to_string());
        assert_eq!(parse_u64(&u64_text(n)), Some(n));
    }
    for n in [0i64, -1, i64::MIN, i64::MAX, -1001234567890] {
        assert_eq!(i64_text(n), n.to_string());
        assert_eq!(parse_i64(&i64_text(n)), Some(n));
    }
    assert_eq!(u128_text(u128::MAX), u128::MAX.to_string());
}

#[test]
fn casts_keep_the_low_bits() {
    for n in [0i64, -1, 5, i64::MIN, i64::MAX, 0x8000_0000, -0x8000_0001, 0x1_2345_6789] {
        assert_eq!(wrap_i32(n), n as i32, "{}", n);
    }
    assert_eq!(wrap_u32(0x1_0000_0005), 5);
    assert_eq!(wrap_u32(u64::MAX), u32::MAX);
}

#[test]
fn json_is_read_one_level_deep() {
    let j = read_value(r#"{"a": [1, {"b": null}], "n": -3, "s": "x\ny", "r": 1.5}"#);
    assert_eq!(member_text(&j, "a").unwrap(), r#"[1,{"b":null}]"#);
    assert_eq!(get_text(&j, "s").unwrap(), "x\ny");
    assert!(get_text(&j, "n").is_none());
    assert!(member_text(&j, "zz").is_none());
    assert!(matches!(read_value("-3"), Json::Negative(-3)));
    assert!(matches!(read_value("18446744073709551615"), Json::Unsigned(u64::MAX)));
    assert!(matches!(read_value("1.5"), Json::Real(t) if t == "1.5"));
    assert!(matches!(read_value("nonsense"), Json::Null));
}

#[test]
fn json_is_written_like_serde_json_writes_it() {
    let m = vec![
        ("a\"b".to_string(), "1".to_string()),
        ("c".to_string(), write_array(&vec!["true".to_string(), "null".to_string()])),
    ];
    let text = write_object(&m);
    assert_eq!(text, "{\"a\\\"b\":1,\"c\":[true,null]}");
    let back: serde_json::Value = serde_json::from_str(&text).unwrap();
    assert_eq!(back.to_string(), text);
    assert_eq!(write_object(&Vec::new()), "{}");
    assert_eq!(write_array(&Vec::new()), "[]");
}
