use std::collections::{HashMap, HashSet};

use portalenv::{EnvStrValue, EnvVarError, Error, Result};

fn conv<T: portalenv::FromEnvStrValue>(s: &str) -> Result<T> {
    EnvStrValue::new("field", s).convert()
}

fn is_conversion_error<T>(r: Result<T>) -> bool {
    matches!(r, Err(Error::ValConversionError(_)))
}

#[test]
fn quoted_values_keep_their_inner_text() {
    assert_eq!(EnvStrValue::new("n", "  \"a b\"  ").to_string(), "a b");
    assert_eq!(EnvStrValue::new("n", "\"a\" \"b\"").to_string(), "a\" \"b");
    assert_eq!(EnvStrValue::new("n", "\"\"").to_string(), "");
    assert_eq!(EnvStrValue::new("n", "\"open").to_string(), "\"open");
    assert_eq!(EnvStrValue::new("n", "x \"y\"").to_string(), "x \"y\"");
    assert_eq!(EnvStrValue::new("n", "\t\n plain value \r\n").as_str(), "plain value");
    assert_eq!(EnvStrValue::new("n", "   ").to_string(), "");
}

#[test]
fn plain_and_quoted_numbers_convert_alike() {
    assert_eq!(conv::<u32>("10").unwrap(), 10);
    assert_eq!(conv::<u32>("\"10\"").unwrap(), 10);
    assert_eq!(conv::<bool>("\"true\"").unwrap(), true);
}

#[test]
fn integers_follow_the_decimal_syntax_and_range() {
    assert_eq!(conv::<u8>("255").unwrap(), 255);
    assert!(is_conversion_error(conv::<u8>("256")));
    assert_eq!(conv::<i8>("-128").unwrap(), -128);
    assert!(is_conversion_error(conv::<i8>("-129")));
    assert_eq!(conv::<i8>("+127").unwrap(), 127);
    assert_eq!(conv::<i32>("-0").unwrap(), 0);
    assert!(is_conversion_error(conv::<u32>("-5")));
    assert!(is_conversion_error(conv::<u32>("")));
    assert!(is_conversion_error(conv::<i32>("+")));
    assert!(is_conversion_error(conv::<i32>("-")));
    assert!(is_conversion_error(conv::<u32>("1_000")));
    assert!(is_conversion_error(conv::<u32>("0x10")));
    assert_eq!(conv::<u32>(" 42 ").unwrap(), 42);
    assert_eq!(conv::<u64>("0018446744073709551615").unwrap(), u64::MAX);
    assert!(is_conversion_error(conv::<u64>("18446744073709551616")));
    assert_eq!(conv::<u128>(&u128::MAX.to_string()).unwrap(), u128::MAX);
    assert!(is_conversion_error(conv::<u128>("340282366920938463463374607431768211456")));
    assert_eq!(conv::<i128>(&i128::MIN.to_string()).unwrap(), i128::MIN);
    assert_eq!(conv::<i128>(&i128::MAX.to_string()).unwrap(), i128::MAX);
    assert!(is_conversion_error(conv::<i128>("170141183460469231731687303715884105728")));
    assert_eq!(conv::<i16>("-32768").unwrap(), i16::MIN);
    assert_eq!(conv::<u16>("65535").unwrap(), u16::MAX);
    assert_eq!(conv::<i64>("-9223372036854775808").unwrap(), i64::MIN);
    assert_eq!(conv::<usize>("7").unwrap(), 7);
    assert_eq!(conv::<isize>("-7").unwrap(), -7);
}

#[test]
fn booleans_are_exactly_true_or_false() {
    assert_eq!(conv::<bool>("true").unwrap(), true);
    assert_eq!(conv::<bool>(" false ").unwrap(), false);
    assert!(is_conversion_error(conv::<bool>("True")));
    assert!(is_conversion_error(conv::<bool>("1")));
}

#[test]
fn conversion_errors_show_the_value() {
    fn message<T: std::fmt::Debug>(r: Result<T>) -> String {
        match r {
            Err(Error::ValConversionError(m)) => m,
            other => panic!("expected a conversion error, got {:?}", other),
        }
    }
    let expected = |ty: &str, v: &str| {
        format!("Failed to convert into {}: {:?}", ty, EnvStrValue::new("field", v))
    };
    assert_eq!(message(conv::<u32>("abc")), expected("u32", "abc"));
    assert_eq!(
        message(conv::<u32>("say \"hi\"\n")),
        "Failed to convert into u32: EnvStrValue { name: \"field\", value: \"say \\\"hi\\\"\" }"
    );
    assert_eq!(message(conv::<bool>("yes")), expected("bool", "yes"));
    assert_eq!(message(conv::<i8>("128")), expected("i8", "128"));
    // The error of a list, a map or a tuple is that of the element that fails.
    assert_eq!(message(conv::<Vec<u8>>("[1, x, y]")), expected("u8", "x"));
    assert_eq!(message(conv::<Vec<u8>>("1, 2")), expected("alloc::vec::Vec<u8>", "1, 2"));
    assert_eq!(message(conv::<HashSet<u8>>("{1}")), expected("alloc::vec::Vec<u8>", "{1}"));
    assert_eq!(message(conv::<HashMap<u8, bool>>("{ x: y }")), expected("u8", "x"));
    assert_eq!(message(conv::<HashMap<u8, bool>>("{ 1: y, z: w }")), expected("bool", "y"));
    assert_eq!(
        message(conv::<HashMap<String, u8>>("[a]")),
        expected("std::collections::hash::map::HashMap<alloc::string::String, u8>", "[a]")
    );
    assert_eq!(message(conv::<(u8, bool)>("(1, 2)")), expected("bool", "2"));
    assert_eq!(message(conv::<(u8, bool)>("(1)")), expected("(u8, bool)", "(1)"));
}

#[test]
fn arrays_need_brackets_and_skip_stray_commas() {
    assert!(is_conversion_error(conv::<Vec<u32>>("1, 2")));
    assert!(is_conversion_error(conv::<Vec<u32>>("[1, 2")));
    assert_eq!(conv::<Vec<u32>>("[]").unwrap(), Vec::<u32>::new());
    assert_eq!(conv::<Vec<u32>>("  [ ]  ").unwrap(), Vec::<u32>::new());
    assert_eq!(conv::<Vec<String>>("[, a,, b ,]").unwrap(), vec!["a", "b"]);
    assert_eq!(conv::<Vec<String>>("[\"a, b]").unwrap(), vec!["\"a", "b"]);
    assert_eq!(conv::<Vec<String>>("[\"\", x]").unwrap(), vec!["", "x"]);
    assert!(is_conversion_error(conv::<Vec<Vec<String>>>("[a]")));
    assert_eq!(conv::<Vec<Vec<String>>>("[[a]]").unwrap(), vec![vec!["a".to_string()]]);
}

#[test]
fn an_element_that_fails_fails_the_array() {
    assert!(is_conversion_error(conv::<Vec<u32>>("[1, x, 3]")));
    assert!(is_conversion_error(conv::<HashSet<u32>>("[1, -1]")));
}

#[test]
fn sets_hold_each_element_once() {
    assert_eq!(conv::<HashSet<u32>>("[1, 3, 1]").unwrap(), HashSet::from([1, 3]));
}

#[test]
fn maps_keep_the_last_value_of_a_key() {
    let r: HashMap<String, u32> = conv("{a: 1, b: 2, a: 3}").unwrap();
    assert_eq!(r, HashMap::from([("a".to_string(), 3), ("b".to_string(), 2)]));
}

#[test]
fn map_keys_may_be_quoted_and_hold_colons() {
    let r: HashMap<String, String> = conv("{\"a:b\" : x, c: \"y, z\"}").unwrap();
    assert_eq!(
        r,
        HashMap::from([
            ("a:b".to_string(), "x".to_string()),
            ("c".to_string(), "y, z".to_string())
        ])
    );
}

#[test]
fn maps_need_braces_and_convertible_entries() {
    assert!(is_conversion_error(conv::<HashMap<String, u32>>("a: 1")));
    assert!(is_conversion_error(conv::<HashMap<String, u32>>("{a: x}")));
    assert!(is_conversion_error(conv::<HashMap<u32, u32>>("{a: 1}")));
    assert_eq!(conv::<HashMap<String, u32>>("{}").unwrap(), HashMap::new());
}

#[test]
fn map_entries_without_a_value_are_skipped() {
    let r: HashMap<String, String> = conv("{a: , b: 2}").unwrap();
    assert_eq!(r, HashMap::from([(", b".to_string(), "2".to_string())]));
}

#[test]
fn tuples_take_their_elements_in_order() {
    let r: (u32, u32) = conv("(1, 2, 3)").unwrap();
    assert_eq!(r, (1, 2));
    assert!(is_conversion_error(conv::<(u32, u32, u32)>("(1, 2)")));
    assert!(is_conversion_error(conv::<(u32, u32)>("[1, 2]")));
    assert!(is_conversion_error(conv::<(u32, bool)>("(1, 2)")));
    let r: (u8, i8, u16, i16, u32, i32, u64, i64, String) =
        conv("(1, -2, 3, -4, 5, -6, 7, -8, \"nine\")").unwrap();
    assert_eq!(r, (1, -2, 3, -4, 5, -6, 7, -8, "nine".to_string()));
    let r: (bool, String, u8, u8) = conv("( true , \"a b\" , 3 , 4 )").unwrap();
    assert_eq!(r, (true, "a b".to_string(), 3, 4));
}

#[test]
fn error_descriptions() {
    assert_eq!(Error::MissingEnvName.to_string(), "Missing environment name");
    assert_eq!(Error::InvalidEnvName.to_string(), "Invalid environment name");
    assert_eq!(Error::ValConversionError("oops".to_string()).to_string(), "oops");
    assert_eq!(
        Error::EnvValError(EnvVarError::NotPresent).to_string(),
        "environment variable not found"
    );
    assert_eq!(
        Error::EnvValError(EnvVarError::NotUnicode("\"x\"".to_string())).to_string(),
        "environment variable was not valid unicode: \"x\""
    );
    let e = Error::DotEnvyError(dotenvy::Error::LineParse("A=\"".to_string(), 2));
    assert_eq!(e.to_string(), "Error parsing line: 'A=\"', error at line index: 2");
}

#[test]
fn dotenv_errors_convert_into_the_library_error() {
    let e = Error::from(dotenvy::Error::LineParse("B=\"".to_string(), 3));
    assert!(matches!(e, Error::DotEnvyError(dotenvy::Error::LineParse(ref l, 3)) if l == "B=\""));
}

#[test]
fn a_value_reads_as_its_text() {
    let v = EnvStrValue::new("k", "  \"a b\" ");
    let t: &str = &v;
    assert_eq!(t, "a b");
    assert_eq!(v.len(), 3);
    assert!(v.starts_with('a'));
    assert_eq!(v.as_str(), "a b");
    assert_eq!(v.to_string(), "a b");
}
