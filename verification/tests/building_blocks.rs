use granite_cli::json::Json;
use granite_cli::name_map::NameMap;
use granite_cli::text::{
    chars_of, contains_text, decimal, decimal_padded, hex_padded, parse_u32, replace_any, same_text,
    trim_chars,
};

#[test]
fn decimal_numbers_are_written_as_usual() {
    for n in [0, 7, 10, 99, 100, 65535, u64::MAX] {
        assert_eq!(decimal(n), n.to_string());
        assert_eq!(decimal_padded(n, 4), format!("{n:04}"));
    }
}

#[test]
fn hexadecimal_numbers_are_written_with_all_their_digits() {
    assert_eq!(hex_padded(0xdeadbeef, 8), "deadbeef");
    assert_eq!(hex_padded(0x1_0000_000f, 8), "0000000f");
    assert_eq!(hex_padded(5, 0), "");
}

#[test]
fn characters_are_replaced_one_by_one() {
    assert_eq!(replace_any("a/b:c", "/:", "---"), "a---b---c");
    assert_eq!(replace_any("äöü", "ö", ""), "äü");
    assert_eq!(replace_any("", "x", "y"), "");
}

#[test]
fn white_space_is_trimmed_as_usual() {
    for text in ["", " ", "a", " a b\t", "\u{2003}x\u{3000}", "\u{200b}x", "\n\r\u{85}y\u{a0}"] {
        let trimmed: String = trim_chars(text).into_iter().collect();
        assert_eq!(trimmed, text.trim());
    }
}

#[test]
fn every_white_space_character_is_known() {
    for n in 0..=0x10ffffu32 {
        if let Some(c) = char::from_u32(n) {
            if c.is_whitespace() || n < 0x4000 {
                let text = c.to_string();
                assert_eq!(trim_chars(&text).is_empty(), c.is_whitespace(), "{n:x}");
            }
        }
    }
}

#[test]
fn numbers_are_read_as_usual() {
    for text in ["", "+", "-1", "0", "+7", "007", "4294967295", "4294967296", "1a", "٣"] {
        assert_eq!(parse_u32(&chars_of(text)), text.parse::<u32>().ok(), "{text:?}");
    }
}

#[test]
fn texts_are_compared_by_their_characters() {
    assert!(same_text("é", "é"));
    assert!(!same_text("a", "b"));
}

#[test]
fn a_name_map_keeps_the_order_of_its_names() {
    let mut map: NameMap<u32> = NameMap::new();
    assert_eq!(map.insert("b".to_string(), 1), None);
    assert_eq!(map.insert("a".to_string(), 2), None);
    assert_eq!(map.insert("c".to_string(), 3), None);
    assert_eq!(map.insert("b".to_string(), 4), Some(1));
    let names: Vec<&String> = (0..map.len()).map(|i| map.at(i).0).collect();
    assert_eq!(names, ["b", "a", "c"]);
    assert_eq!(map.get("b"), Some(&4));
    assert_eq!(map.remove("a"), Some(2));
    assert_eq!(map.remove("a"), None);
    assert!(map.contains_key("c") && !map.contains_key("a"));
    assert_eq!(map.len(), 2);
}

#[test]
fn json_values_are_read_as_they_are() {
    let value = Json::parse(r#"{"n":18446744073709551615,"neg":-1,"d":1.5,"t":"x","b":true}"#).unwrap();
    assert_eq!(value.get("n").unwrap().as_u64(), Some(u64::MAX));
    assert_eq!(value.get("neg").unwrap().as_u64(), None);
    assert_eq!(value.get("d").unwrap().as_u64(), None);
    assert_eq!(value.text_field("t"), Some("x"));
    assert_eq!(value.text_field("n"), None);
    assert_eq!(value.unsigned_field("n"), u64::MAX);
    assert_eq!(value.unsigned_field("nothing"), 0);
    assert!(matches!(value.get("b"), Some(Json::Bool(true))));
    assert!(Json::parse("{").is_none());
    assert!(Json::parse("1 2").is_none());
}

#[test]
fn json_values_go_to_the_outside_and_back() {
    let value = Json::parse(r#"[{"a":[1,2.5,null]},"x",{}]"#).unwrap();
    let outside = value.to_value();
    assert_eq!(outside[0]["a"][1].as_f64(), Some(2.5));
    let back = Json::from_value(outside);
    assert_eq!(back.pretty(), value.pretty());
    assert_eq!(value.copy().pretty(), value.pretty());
    assert_eq!(Json::unsigned(7).as_u64(), Some(7));
    assert_eq!(Json::text("t").as_str(), Some("t"));
}

#[test]
fn nesting_is_read_back_up_to_its_limit() {
    let nested = |depth: usize| {
        let mut value = Json::Null;
        for _ in 0..depth {
            value = Json::Array(vec![value]);
        }
        value
    };
    assert!(Json::parse(&nested(127).pretty()).is_some());
    assert!(Json::parse(&nested(128).pretty()).is_none());
}

#[test]
fn parts_of_a_text_are_found() {
    for (text, part) in [("abcabd", "abd"), ("abc", ""), ("", ""), ("", "a"), ("aab", "ab"), ("ab", "abc")] {
        assert_eq!(contains_text(text, part), text.contains(part), "{text:?} {part:?}");
    }
}
