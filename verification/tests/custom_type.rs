use portalenv::{EnvStrValue, FromEnvStrValue, Result};

#[derive(Debug, PartialEq, Eq)]
pub struct MyValue(String);

impl FromEnvStrValue for MyValue {
    fn from_env_str(s: EnvStrValue) -> Result<Self> {
        Ok(Self(s.to_string()))
    }
}

#[test]
fn custom_value_type_converts_through_its_own_impl() {
    let r: MyValue = EnvStrValue::new("hoge", " test ").convert().unwrap();
    assert_eq!(r, MyValue("test".to_string()));
    let r: Vec<MyValue> = EnvStrValue::new("hoge", "[a, \"b c\"]").convert().unwrap();
    assert_eq!(r, vec![MyValue("a".to_string()), MyValue("b c".to_string())]);
}
