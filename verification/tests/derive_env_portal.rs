use std::collections::{HashMap, HashSet};

use portalenv::codegen::{
    constructor_code_exec, env_enum_impl_code_exec, value_code_exec, variant_index, Mapping,
    MappingValue,
};
use portalenv::{EnvStrValue, Error, FromEnvStrValue, Result};

fn s(t: &str) -> String {
    t.to_string()
}

/// The Rust source of a string literal that holds `text`.
fn lit(text: &str) -> String {
    proc_macro2::Literal::string(text).to_string()
}

fn convert<T: FromEnvStrValue>(name: &'static str, text: &str) -> T {
    EnvStrValue::new(name, text).convert().unwrap()
}

#[derive(Debug, PartialEq, Eq, Hash)]
pub enum TestEnum {
    A,
    B,
}

// The implementation that the `EnvEnum` derive emits for `TestEnum`,
// written out.
impl FromEnvStrValue for TestEnum {
    fn from_env_str(s: EnvStrValue) -> Result<Self> {
        match variant_index(s.as_str(), "TestEnum", &["A", "B"]) {
            Some(0) => Ok(TestEnum::A),
            Some(1) => Ok(TestEnum::B),
            _ => Err(Error::ValConversionError(format!(
                "Failed to convert value to TestEnum: {:?}",
                s
            ))),
        }
    }
}

#[test]
fn test_enum_implementation_is_the_written_out_one() {
    let code = env_enum_impl_code_exec("TestEnum", &vec![s("A"), s("B")]);
    assert_eq!(
        code,
        "impl portalenv::FromEnvStrValue for TestEnum { fn from_env_str(s: portalenv::EnvStrValue) -> portalenv::Result<Self> { match portalenv::codegen::variant_index(s.as_str(), \"TestEnum\", &[\"A\", \"B\"]) { Some(0) => Ok(TestEnum::A), Some(1) => Ok(TestEnum::B), _ => Err(portalenv::Error::ValConversionError(format!(\"Failed to convert value to {}: {:?}\", stringify!(TestEnum), s))), } } }"
    );
}

#[test]
fn expressions_stand_in_the_code_as_they_are() {
    let exprs = [
        ("foo", "10"),
        ("foo2", "1 + 2"),
        ("bar", "true"),
        ("bar2", "true && false"),
        ("baz", "3.14"),
        ("baz2", "if false { 3.14 } else { 0.0 }"),
        ("piyo", "TestEnum::B"),
    ];
    let mapping = Mapping {
        fields: exprs.iter().map(|(f, e)| (s(f), MappingValue::Expr(s(e)))).collect(),
    };
    let expected: Vec<String> = exprs.iter().map(|(f, e)| format!("{}: {}", f, e)).collect();
    assert_eq!(constructor_code_exec(&mapping), format!("Self {{ {} }}", expected.join(", ")));
}

#[test]
fn test_derive_env_portal_for_nested() {
    let mapping = Mapping {
        fields: vec![
            (s("hoge"), MappingValue::EnvStr(lit("hoge-value"))),
            (
                s("foo"),
                MappingValue::Nested {
                    ty: s("Foo"),
                    mapping: Mapping {
                        fields: vec![
                            (s("bar"), MappingValue::EnvStr(lit("bar-value"))),
                            (s("baz"), MappingValue::Expr(s("3.14"))),
                            (s("piyo"), MappingValue::Expr(s("TestEnum::B"))),
                        ],
                    },
                },
            ),
        ],
    };
    assert_eq!(
        constructor_code_exec(&mapping),
        "Self { hoge: portalenv::EnvStrValue::new(\"hoge\", \"hoge-value\").convert()?, foo: Foo { bar: portalenv::EnvStrValue::new(\"foo.bar\", \"bar-value\").convert()?, baz: 3.14, piyo: TestEnum::B } }"
    );

    let hoge: String = convert("hoge", "hoge-value");
    let bar: String = convert("foo.bar", "bar-value");
    assert_eq!(hoge, "hoge-value".to_string());
    assert_eq!(bar, "bar-value".to_string());
}

#[test]
fn test_derive_env_portal_for_complex_data() {
    // The text that the derive keeps of each mapping value, as the compiler
    // prints its tokens: an array or a tuple, a brace block, the value of a
    // string literal.
    let hoge = s(r#"["hoge1", "hoge2"]"#);
    let hoge2 = s("[1, 3, 1]");
    let hoge3 = s("[ hoge1 , hoge2 ]");
    let hoge4 = s(r#"("hoge1", 1)"#);
    let bar = s("{bar1: 1, bar2: 2}");
    let baz = s(r#"{A: "a", B: "b"}"#);
    let piyo = s(r#"{"A": "a", "B": "b"}"#);
    let qux = s(r#"{ A: A, "TestEnum::B" : TestEnum::B }"#);

    for (name, text) in [("hoge", &hoge), ("hoge2", &hoge2), ("qux", &qux)] {
        assert_eq!(
            value_code_exec(name, &MappingValue::EnvStr(lit(text))),
            format!("portalenv::EnvStrValue::new(\"{}\", {}).convert()?", name, lit(text))
        );
    }

    let hoge: Vec<String> = convert("hoge", &hoge);
    let hoge2: HashSet<u32> = convert("hoge2", &hoge2);
    let hoge3: HashSet<String> = convert("hoge3", &hoge3);
    let hoge4: (String, u32) = convert("hoge4", &hoge4);
    let bar: HashMap<String, u32> = convert("bar", &bar);
    let baz: HashMap<TestEnum, String> = convert("baz", &baz);
    let piyo: HashMap<TestEnum, String> = convert("piyo", &piyo);
    let qux: HashMap<TestEnum, TestEnum> = convert("qux", &qux);

    assert_eq!(hoge, vec!["hoge1".to_string(), "hoge2".to_string()]);
    assert_eq!(hoge2, HashSet::from([1, 3]));
    assert_eq!(hoge3, HashSet::from(["hoge1".to_string(), "hoge2".to_string()]));
    assert_eq!(hoge4, ("hoge1".to_string(), 1));
    assert_eq!(bar, HashMap::from([("bar1".to_string(), 1), ("bar2".to_string(), 2),]));
    assert_eq!(
        baz,
        HashMap::from([(TestEnum::A, "a".to_string()), (TestEnum::B, "b".to_string()),])
    );
    assert_eq!(
        piyo,
        HashMap::from([(TestEnum::A, "a".to_string()), (TestEnum::B, "b".to_string()),])
    );
    assert_eq!(qux, HashMap::from([(TestEnum::A, TestEnum::A), (TestEnum::B, TestEnum::B),]));
}
