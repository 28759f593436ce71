use std::collections::{HashMap, HashSet};

use portalenv::{EnvStrValue, Error, Result};

#[test]
fn test_env_str_value() {
    assert_eq!(EnvStrValue::new("test", "test").to_string(), "test");
    assert_eq!(EnvStrValue::new("test", " test ").to_string(), "test");
    assert_eq!(
        EnvStrValue::new("test", r#" " test " "#).to_string(),
        " test "
    );
}

#[test]
fn test_convert() {
    let r: String = EnvStrValue::new("test", "test").convert().unwrap();
    assert_eq!(r, "test".to_string());

    let r: usize = EnvStrValue::new("test", "1").convert().unwrap();
    assert_eq!(r, 1);

    let r: bool = EnvStrValue::new("test", "false").convert().unwrap();
    assert_eq!(r, false);
}

#[test]
fn test_convert_error() {
    let r: Result<u32> = EnvStrValue::new("test", "test").convert();
    assert!(matches!(r.unwrap_err(), Error::ValConversionError(_)));
}

#[test]
fn test_convert_str_to_array_like() {
    let r: Vec<String> = EnvStrValue::new("test", r#"["a","b","c"]"#)
        .convert()
        .unwrap();
    assert_eq!(r, vec!["a".to_string(), "b".to_string(), "c".to_string()]);

    let r: Vec<u32> = EnvStrValue::new("test", r#"[1, 2, 3]"#).convert().unwrap();
    assert_eq!(r, vec![1, 2, 3]);

    let r: HashSet<u32> = EnvStrValue::new("test", r#"[1, 2, 3]"#).convert().unwrap();
    assert_eq!(r, HashSet::from([1, 2, 3]));

    let r: HashSet<String> = EnvStrValue::new("test", r#"[ a , b , c ]"#)
        .convert()
        .unwrap();
    assert_eq!(
        r,
        HashSet::from(["a".to_string(), "b".to_string(), "c".to_string()])
    );

    let r: Vec<String> = EnvStrValue::new("test", r#"["a,x","b,y", c, z]"#)
        .convert()
        .unwrap();
    assert_eq!(
        r,
        vec![
            "a,x".to_string(),
            "b,y".to_string(),
            "c".to_string(),
            "z".to_string()
        ]
    );
}

#[test]
fn test_convert_str_to_hashmap() {
    let r: HashMap<String, String> = EnvStrValue::new(
        "",
        r#"
            { 
                "a": "1,A", 
                "b": "2,B", 
                "c": 3,
            }
        "#,
    )
    .convert()
    .unwrap();

    assert_eq!(
        r,
        HashMap::from([
            ("a".to_string(), "1,A".to_string()),
            ("b".to_string(), "2,B".to_string()),
            ("c".to_string(), "3".to_string()),
        ])
    );

    let r: HashMap<String, u32> = EnvStrValue::new(
        "",
        r#"
            { 
                a: 1, 
                b: 2, 
                c: 3,
            }
        "#,
    )
    .convert()
    .unwrap();

    assert_eq!(
        r,
        HashMap::from([
            ("a".to_string(), 1),
            ("b".to_string(), 2),
            ("c".to_string(), 3),
        ])
    );
}

#[test]
fn test_convert_str_to_tuple() {
    let r: (String, u32) = EnvStrValue::new("test", r#"("a", 1)"#).convert().unwrap();
    assert_eq!(r, ("a".to_string(), 1));

    let r: (String, u32, bool) = EnvStrValue::new("test", r#"("a,x", 1, true)"#)
        .convert()
        .unwrap();
    assert_eq!(r, ("a,x".to_string(), 1, true));
}
