use portalenv::derive::{env_enum_derive_code, env_portal_derive_code};

#[test]
fn env_portal_derive_reads_its_input() {
    let code = env_portal_derive_code(
        r#"#[env_portal(env_name_key = "APP_ENV", dotenv_file = "tests/.env", mapping = { port: 8080, name: "Demo" })] pub struct Config { port: u32, name: String }"#,
    )
    .unwrap();
    assert_eq!(
        code,
        "impl portalenv::EnvPortal for Config { fn env_name_key() -> Option<&'static str> { Some(\"APP_ENV\") } fn dotenv_file() -> Option<&'static str> { Some(\"tests/.env\") } fn from_env_with(env: Option<String>) -> portalenv::Result<Self> where Self: Sized { Ok(Self { port: portalenv::EnvStrValue::new(\"port\", \"8080\").convert()?, name: portalenv::EnvStrValue::new(\"name\", \"Demo\").convert()? }) } }"
    );
    let empty = env_portal_derive_code("pub struct Empty {}").unwrap();
    assert!(empty.contains("Some(concat!(env!(\"CARGO_MANIFEST_DIR\"), \"/.env\"))"));
    assert!(empty.contains("fn env_name_key() -> Option<&'static str> { None }"));
}

#[test]
fn env_portal_derive_errors() {
    assert_eq!(env_portal_derive_code("struct").unwrap_err(), "invalid input");
    assert_eq!(
        env_portal_derive_code("struct T(u8);").unwrap_err(),
        "EnvPortal can only be derived for structs with named fields"
    );
    let e = env_portal_derive_code("#[env_portal(mappings = {})] struct T { a: u8 }").unwrap_err();
    assert!(e.starts_with("failed to parse 'env_portal' attribute: "));
}

#[test]
fn env_enum_derive_reads_its_input() {
    let code = env_enum_derive_code("pub enum Size { Small, Large }").unwrap();
    assert!(code.starts_with("impl portalenv::FromEnvStrValue for Size {"));
    assert!(code.contains("&[\"Small\", \"Large\"]"));
    assert_eq!(
        env_enum_derive_code("struct S;").unwrap_err(),
        "EnvEnum can only be derived for enums"
    );
}
