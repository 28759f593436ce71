use std::collections::HashMap;

use portalenv::{EnvStrValue, Result};

fn conv<T: portalenv::FromEnvStrValue>(s: &str) -> Result<T> {
    EnvStrValue::new("field", s).convert()
}

#[test]
fn quoted_text_stands_for_its_inside() {
    assert_eq!(EnvStrValue::new("f", " \t\" a, \"b\" \"\n ").to_string(), " a, \"b\" ");
    assert_eq!(EnvStrValue::new("f", "\"\"").to_string(), "");
}

#[test]
fn plain_text_stands_for_itself() {
    assert_eq!(EnvStrValue::new("f", "\n  a b  \t").to_string(), "a b");
    assert_eq!(EnvStrValue::new("f", "a\"b\"").to_string(), "a\"b\"");
}

#[test]
fn plain_and_quoted_values_agree() {
    for t in ["10", "true", "a b", "x,y", "[1, 2]"] {
        let plain = EnvStrValue::new("f", t).to_string();
        let quoted = EnvStrValue::new("f", &format!("\"{}\"", t)).to_string();
        assert_eq!(plain, quoted);
        assert_eq!(plain, t);
    }
}

#[test]
fn arrays_give_their_elements_back() {
    let r: Vec<String> = conv("[a, \"b c\", d:e, \"\"]").unwrap();
    assert_eq!(r, vec!["a", "b c", "d:e", ""]);
}

#[test]
fn string_lists_round_trip() {
    let texts = vec!["x", " spaced ", "a, b", "[not nested]", ""];
    let written = format!(
        "[{}]",
        texts.iter().map(|t| format!("\"{}\"", t)).collect::<Vec<_>>().join(", ")
    );
    let r: Vec<String> = conv(&written).unwrap();
    assert_eq!(r, texts);
}

#[test]
fn maps_give_their_entries_back() {
    let r: HashMap<String, String> = conv("{k1: v1, k 2: \"v, 2\", k,3: v3}").unwrap();
    assert_eq!(
        r,
        HashMap::from([
            ("k1".to_string(), "v1".to_string()),
            ("k 2".to_string(), "v, 2".to_string()),
            ("k,3".to_string(), "v3".to_string()),
        ])
    );
}

#[test]
fn later_map_entries_win() {
    let r: HashMap<String, u32> = conv("{a: 1, b: 2, a: 3, b: 4, c: 5}").unwrap();
    assert_eq!(r, HashMap::from([("a".to_string(), 3), ("b".to_string(), 4), ("c".to_string(), 5)]));
}

#[test]
fn integers_round_trip() {
    for n in i8::MIN..=i8::MAX {
        assert_eq!(conv::<i8>(&n.to_string()).unwrap(), n);
    }
    for n in u8::MIN..=u8::MAX {
        assert_eq!(conv::<u8>(&n.to_string()).unwrap(), n);
    }
    for n in [i64::MIN, -1_000_000_007, -1, 0, 1, 999_999_999_999, i64::MAX] {
        assert_eq!(conv::<i64>(&n.to_string()).unwrap(), n);
    }
    for n in [0u64, 9, 10, 99, 100, u32::MAX as u64, u64::MAX] {
        assert_eq!(conv::<u64>(&n.to_string()).unwrap(), n);
    }
}

#[test]
fn text_not_enclosed_in_quotes_is_only_trimmed() {
    assert_eq!(EnvStrValue::new("n", r#" "a" b "#).to_string(), r#""a" b"#);
    assert_eq!(EnvStrValue::new("n", r#""a"#).to_string(), r#""a"#);
    assert_eq!(EnvStrValue::new("n", "\"").to_string(), "\"");
    assert_eq!(EnvStrValue::new("n", r#" "a" "b" "#).to_string(), r#"a" "b"#);
    assert_eq!(EnvStrValue::new("n", "\"\"").to_string(), "");
}

#[test]
fn string_lists_round_trip_with_any_comma_spacing() {
    let xs = vec!["a".to_string(), "b, c".to_string(), " d e ".to_string(), String::new()];
    for sep in [",", ", ", ",\n   ", ",\t"] {
        let items: Vec<String> = xs.iter().map(|x| format!("\"{}\"", x)).collect();
        let text = format!("[{}]", items.join(sep));
        assert_eq!(conv::<Vec<String>>(&text).unwrap(), xs);
    }
    assert_eq!(conv::<Vec<String>>("[]").unwrap(), Vec::<String>::new());
}

#[test]
fn whitespace_around_a_value_changes_nothing() {
    for t in ["a", " \"x y\" ", "[1, 2]", "", "   ", "\"a\" b"] {
        let padded = format!(" \t{}\n ", t);
        assert_eq!(
            EnvStrValue::new("n", &padded).to_string(),
            EnvStrValue::new("n", t).to_string()
        );
    }
}
