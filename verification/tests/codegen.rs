use std::collections::HashSet;

use portalenv::codegen::{
    constructor_code_exec, env_enum_impl_code_exec, env_portal_impl_code_exec, value_code_exec,
    variant_index, EnvPortalAttrArgs, Mapping, MappingValue,
};
use portalenv::env_portal::dotenv_files;
use portalenv::{EnvPortal, EnvStrValue, Error, FromEnvStrValue, Result};

fn s(t: &str) -> String {
    t.to_string()
}

#[test]
fn dotenv_files_load_the_environment_file_last() {
    assert_eq!(
        dotenv_files(Some("tests/.env"), Some("local")),
        vec![s("tests/.env"), s("tests/.env.local")]
    );
    assert_eq!(dotenv_files(Some(".env"), None), vec![s(".env")]);
    assert!(dotenv_files(None, Some("local")).is_empty());
}

#[test]
fn variants_are_named_bare_or_qualified() {
    let variants = ["A", "B"];
    assert_eq!(variant_index("A", "TestEnum", &variants), Some(0));
    assert_eq!(variant_index("B", "TestEnum", &variants), Some(1));
    assert_eq!(variant_index("TestEnum::B", "TestEnum", &variants), Some(1));
    assert_eq!(variant_index("Other::B", "TestEnum", &variants), None);
    assert_eq!(variant_index("b", "TestEnum", &variants), None);
    assert_eq!(variant_index("TestEnum::", "TestEnum", &variants), None);
    assert_eq!(variant_index("A", "TestEnum", &[]), None);
}

#[test]
fn enum_implementation_code() {
    let code = env_enum_impl_code_exec("TestEnum", &vec![s("A"), s("B")]);
    assert_eq!(
        code,
        "impl portalenv::FromEnvStrValue for TestEnum { fn from_env_str(s: portalenv::EnvStrValue) -> portalenv::Result<Self> { match portalenv::codegen::variant_index(s.as_str(), \"TestEnum\", &[\"A\", \"B\"]) { Some(0) => Ok(TestEnum::A), Some(1) => Ok(TestEnum::B), _ => Err(portalenv::Error::ValConversionError(format!(\"Failed to convert value to {}: {:?}\", stringify!(TestEnum), s))), } } }"
    );
}

#[test]
fn enum_implementation_code_counts_past_nine() {
    let names: Vec<String> = (0..12).map(|i| format!("V{}", i)).collect();
    let code = env_enum_impl_code_exec("E", &names);
    assert!(code.contains("Some(11) => Ok(E::V11), "));
    assert!(code.contains("Some(10) => Ok(E::V10), "));
}

#[test]
fn mapping_value_code() {
    assert_eq!(value_code_exec("a.b", &MappingValue::NoneValue), "None");
    assert_eq!(value_code_exec("a.b", &MappingValue::Expr(s("1 + 2"))), "1 + 2");
    assert_eq!(
        value_code_exec("a.b", &MappingValue::EnvStr(s("\"10\""))),
        "portalenv::EnvStrValue::new(\"a.b\", \"10\").convert()?"
    );
    assert_eq!(
        value_code_exec("a", &MappingValue::EnvVar(s("HOST"))),
        "portalenv::EnvStrValue::new(\"a\", &std::env::var(\"HOST\").map_err(|e| portalenv::Error::EnvValError(match e { std::env::VarError::NotPresent => portalenv::EnvVarError::NotPresent, std::env::VarError::NotUnicode(v) => portalenv::EnvVarError::NotUnicode(format!(\"{:?}\", v)) }))?).convert()?"
    );
    assert_eq!(
        value_code_exec("a", &MappingValue::EnvInclude { ty: s("Other"), mapping: None }),
        "Other::from_env()?"
    );
    assert_eq!(
        value_code_exec(
            "a",
            &MappingValue::EnvInclude {
                ty: s("Other"),
                mapping: Some(Mapping { fields: vec![(s("foo"), MappingValue::EnvStr(s("\"x\"")))] })
            }
        ),
        "Other { foo: portalenv::EnvStrValue::new(\"a.foo\", \"x\").convert()?, ..(Other::from_env()?) }"
    );
}

#[test]
fn empty_constructor_code() {
    assert_eq!(constructor_code_exec(&Mapping { fields: vec![] }), "Self {  }");
}

#[derive(Debug, PartialEq, Eq, Hash)]
pub enum Size {
    Small,
    Large,
}

impl FromEnvStrValue for Size {
    fn from_env_str(s: EnvStrValue) -> Result<Self> {
        match variant_index(s.as_str(), "Size", &["Small", "Large"]) {
            Some(0) => Ok(Size::Small),
            Some(1) => Ok(Size::Large),
            _ => Err(Error::ValConversionError(format!("Failed to convert value to Size: {:?}", s))),
        }
    }
}

#[derive(Debug)]
pub struct Server {
    pub host: String,
    pub tags: HashSet<String>,
}

#[derive(Debug)]
pub struct Config {
    pub name: String,
    pub port: u32,
    pub size: Size,
    pub server: Server,
    pub mail: String,
    pub title: Option<String>,
}

fn config_args() -> EnvPortalAttrArgs {
    let mut args = EnvPortalAttrArgs::default();
    args.env_name_key = Some(s("\"APP_ENV\""));
    args.dotenv_file = Some(s("\"tests/.env\""));
    args.mapping = Mapping {
        fields: vec![
            (s("name"), MappingValue::EnvStr(s("\"Demo\""))),
            (s("port"), MappingValue::Expr(s("8080"))),
            (s("size"), MappingValue::EnvStr(s("\"Size::Large\""))),
            (
                s("server"),
                MappingValue::Nested {
                    ty: s("Server"),
                    mapping: Mapping {
                        fields: vec![
                            (s("host"), MappingValue::EnvStr(s("\"localhost\""))),
                            (s("tags"), MappingValue::EnvStr(s("\"[a , b , a]\""))),
                        ],
                    },
                },
            ),
            (
                s("mail"),
                MappingValue::EnvMatch {
                    arms: vec![
                        (s("\"local\" | \"stg\""), MappingValue::EnvStr(s("\"test@x\""))),
                        (s("\"prd\""), MappingValue::EnvStr(s("\"prod@x\""))),
                    ],
                    partial: false,
                },
            ),
            (
                s("title"),
                MappingValue::EnvMatch {
                    arms: vec![(s("\"prd\""), MappingValue::EnvStr(s("\"mail\"")))],
                    partial: true,
                },
            ),
        ],
    };
    args
}

// The implementation below is the code that `config_args` compiles to,
// written out.
impl EnvPortal for Config {
    fn env_name_key() -> Option<&'static str> {
        Some("APP_ENV")
    }
    fn dotenv_file() -> Option<&'static str> {
        Some("tests/.env")
    }
    fn from_env_with(env: Option<String>) -> portalenv::Result<Self>
    where
        Self: Sized,
    {
        Ok(Self {
            name: portalenv::EnvStrValue::new("name", "Demo").convert()?,
            port: 8080,
            size: portalenv::EnvStrValue::new("size", "Size::Large").convert()?,
            server: Server {
                host: portalenv::EnvStrValue::new("server.host", "localhost").convert()?,
                tags: portalenv::EnvStrValue::new("server.tags", "[a , b , a]").convert()?,
            },
            mail: {
                let Some(env) = env.as_ref() else {
                    return Err(portalenv::Error::MissingEnvName);
                };
                match env.as_str() {
                    "local" | "stg" => portalenv::EnvStrValue::new("mail", "test@x").convert()?,
                    "prd" => portalenv::EnvStrValue::new("mail", "prod@x").convert()?,
                    _ => return Err(portalenv::Error::InvalidEnvName),
                }
            },
            title: {
                let Some(env) = env.as_ref() else {
                    return Err(portalenv::Error::MissingEnvName);
                };
                match env.as_str() {
                    "prd" => Some(portalenv::EnvStrValue::new("title", "mail").convert()?),
                    _ => None,
                }
            },
        })
    }
}

#[test]
fn env_portal_implementation_code() {
    let code = env_portal_impl_code_exec("Config", &config_args());
    assert_eq!(
        code,
        "impl portalenv::EnvPortal for Config { fn env_name_key() -> Option<&'static str> { Some(\"APP_ENV\") } fn dotenv_file() -> Option<&'static str> { Some(\"tests/.env\") } fn from_env_with(env: Option<String>) -> portalenv::Result<Self> where Self: Sized { Ok(Self { name: portalenv::EnvStrValue::new(\"name\", \"Demo\").convert()?, port: 8080, size: portalenv::EnvStrValue::new(\"size\", \"Size::Large\").convert()?, server: Server { host: portalenv::EnvStrValue::new(\"server.host\", \"localhost\").convert()?, tags: portalenv::EnvStrValue::new(\"server.tags\", \"[a , b , a]\").convert()? }, mail: { let Some(env) = env.as_ref() else { return Err(portalenv::Error::MissingEnvName); }; match env.as_str() { \"local\" | \"stg\" => portalenv::EnvStrValue::new(\"mail\", \"test@x\").convert()?, \"prd\" => portalenv::EnvStrValue::new(\"mail\", \"prod@x\").convert()?, _ => return Err(portalenv::Error::InvalidEnvName), } }, title: { let Some(env) = env.as_ref() else { return Err(portalenv::Error::MissingEnvName); }; match env.as_str() { \"prd\" => Some(portalenv::EnvStrValue::new(\"title\", \"mail\").convert()?), _ => None, } } }) } }"
    );
}

#[test]
fn default_dotenv_file_code() {
    let code = env_portal_impl_code_exec("Empty", &EnvPortalAttrArgs::default());
    assert_eq!(
        code,
        "impl portalenv::EnvPortal for Empty { fn env_name_key() -> Option<&'static str> { None } fn dotenv_file() -> Option<&'static str> { Some(concat!(env!(\"CARGO_MANIFEST_DIR\"), \"/.env\")) } fn from_env_with(env: Option<String>) -> portalenv::Result<Self> where Self: Sized { Ok(Self {  }) } }"
    );
}

#[test]
fn generated_configuration_for_each_environment() {
    let config = Config::from_env_with(Some(s("local"))).unwrap();
    assert_eq!(config.name, "Demo");
    assert_eq!(config.port, 8080);
    assert_eq!(config.size, Size::Large);
    assert_eq!(config.server.host, "localhost");
    assert_eq!(config.server.tags, HashSet::from([s("a"), s("b")]));
    assert_eq!(config.mail, "test@x");
    assert_eq!(config.title, None);

    let config = Config::from_env_with(Some(s("prd"))).unwrap();
    assert_eq!(config.mail, "prod@x");
    assert_eq!(config.title, Some(s("mail")));

    assert!(matches!(Config::from_env_with(Some(s("dev"))), Err(Error::InvalidEnvName)));
    assert!(matches!(Config::from_env_with(None), Err(Error::MissingEnvName)));
}

#[test]
fn include_with_and_without_overrides() {
    let including = |mapping: Option<Mapping>| MappingValue::EnvInclude { ty: s("Other"), mapping };
    assert_eq!(value_code_exec("other", &including(None)), "Other::from_env()?");
    assert_eq!(
        value_code_exec("other", &including(Some(Mapping { fields: vec![] }))),
        "Other { ..(Other::from_env()?) }"
    );
    assert_eq!(
        value_code_exec(
            "other",
            &including(Some(Mapping {
                fields: vec![(s("foo"), MappingValue::EnvStr(s("\"x\"")))],
            }))
        ),
        "Other { foo: portalenv::EnvStrValue::new(\"other.foo\", \"x\").convert()?, ..(Other::from_env()?) }"
    );
}
