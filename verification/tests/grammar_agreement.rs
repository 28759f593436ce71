//! The literal grammar compared with the regular expressions that describe
//! it, over every short text from an alphabet of the characters that matter
//! to it and over longer pseudo-random texts. A value is a quoted string
//! only where it is enclosed in quotes as a whole.
use std::collections::HashMap;

use portalenv::EnvStrValue;
use regex::Regex;

struct Patterns {
    array: Regex,
    elem: Regex,
    string: Regex,
    map: Regex,
    entry: Regex,
    tuple: Regex,
}

fn patterns() -> Patterns {
    Patterns {
        array: Regex::new(r"(?s)^\s*\[(.*)\]\s*$").unwrap(),
        elem: Regex::new(r#"(?s)\s*("[^"]*"|[^\,\s]+)\s*,?"#).unwrap(),
        string: Regex::new(r#"(?s)^\s*"(.*)"\s*$"#).unwrap(),
        map: Regex::new(r"(?s)^\s*\{(.*)\}\s*$").unwrap(),
        entry: Regex::new(r#"(?s)\s*("[^"]+"|[^\:]+)\s*\:\s*("[^"]*"|[^\,\s]+),?"#).unwrap(),
        tuple: Regex::new(r"(?s)^\s*\((.*)\)\s*$").unwrap(),
    }
}

fn normalize(p: &Patterns, s: &str) -> String {
    match p.string.captures(s) {
        Some(c) => c.get(1).unwrap().as_str().to_string(),
        None => s.trim().to_string(),
    }
}

fn list(p: &Patterns, outer: &Regex, s: &str) -> Option<Vec<String>> {
    let body = outer.captures(s)?.get(1).unwrap().as_str();
    Some(p.elem.captures_iter(body).map(|c| normalize(p, c.get(1).unwrap().as_str())).collect())
}

fn map(p: &Patterns, s: &str) -> Option<HashMap<String, String>> {
    let body = p.map.captures(s)?.get(1).unwrap().as_str();
    Some(
        p.entry
            .captures_iter(body)
            .map(|c| {
                (
                    normalize(p, c.get(1).unwrap().as_str()),
                    normalize(p, c.get(2).unwrap().as_str()),
                )
            })
            .collect(),
    )
}

fn compare(p: &Patterns, raw: &str) {
    let value = EnvStrValue::new("x", raw);
    let text = normalize(p, raw);
    assert_eq!(value.to_string(), text, "normalizing {:?}", raw);

    let vec: Option<Vec<String>> = value.clone().convert().ok();
    assert_eq!(vec, list(p, &p.array, &text), "array {:?}", raw);

    let m: Option<HashMap<String, String>> = value.clone().convert().ok();
    assert_eq!(m, map(p, &text), "map {:?}", raw);

    let t: Option<(String, String)> = value.convert().ok();
    let expected = list(p, &p.tuple, &text)
        .filter(|v| v.len() >= 2)
        .map(|v| (v[0].clone(), v[1].clone()));
    assert_eq!(t, expected, "tuple {:?}", raw);
}

const ALPHABET: [char; 9] = [' ', '"', ',', ':', 'a', '[', ']', '{', '}'];

#[test]
fn grammar_agrees_on_all_short_texts() {
    let p = patterns();
    let n = ALPHABET.len();
    for len in 0..=5u32 {
        for mut code in 0..n.pow(len) {
            let mut s = String::new();
            for _ in 0..len {
                s.push(ALPHABET[code % n]);
                code /= n;
            }
            compare(&p, &s);
        }
    }
}

#[test]
fn grammar_agrees_on_longer_texts() {
    let p = patterns();
    let chars = [' ', '"', ',', ':', 'a', 'b', '[', ']', '{', '}', '(', ')', '\n', '\t'];
    let mut state: u64 = 0x2545_f491_4f6c_dd1d;
    for _ in 0..20000 {
        state = state.wrapping_mul(6364136223846793005).wrapping_add(1442695040888963407);
        let len = (state >> 59) as usize + 4;
        let mut s = String::new();
        for _ in 0..len {
            state = state.wrapping_mul(6364136223846793005).wrapping_add(1442695040888963407);
            s.push(chars[(state >> 33) as usize % chars.len()]);
        }
        compare(&p, &s);
        compare(&p, &format!("[{}]", s));
        compare(&p, &format!("{{{}}}", s));
        compare(&p, &format!("({})", s));
    }
}
