use portalenv::attr::{parse_attr_args, parse_mapping, parse_mapping_value, Tok};
use portalenv::codegen::MappingValue;

fn ident(s: &str) -> Tok {
    Tok::Ident(s.to_string())
}

fn punct(c: char) -> Tok {
    Tok::Punct(c, false)
}

fn joint(c: char) -> Tok {
    Tok::Punct(c, true)
}

fn lit(s: &str) -> Tok {
    Tok::Lit(s.to_string())
}

fn braces(inner: Vec<Tok>) -> Tok {
    Tok::Group('{', inner)
}

fn value(toks: Vec<Tok>) -> (MappingValue, usize) {
    parse_mapping_value(&toks, 0).unwrap()
}

#[test]
fn simple_values() {
    assert!(matches!(value(vec![ident("None")]), (MappingValue::NoneValue, 1)));
    match value(vec![ident("env_var"), joint(':'), punct(':'), ident("HOST"), punct(',')]) {
        (MappingValue::EnvVar(v), 4) => assert_eq!(v, "HOST"),
        other => panic!("{:?}", other),
    }
    match value(vec![lit("\"hoge-value\""), punct(','), ident("x")]) {
        (MappingValue::EnvStr(s), 1) => assert_eq!(s, "\"hoge-value\""),
        other => panic!("{:?}", other),
    }
    // A literal 10 converts as the text "10" does.
    match value(vec![lit("10")]) {
        (MappingValue::EnvStr(s), 1) => assert_eq!(s, "\"10\""),
        other => panic!("{:?}", other),
    }
    match value(vec![ident("true")]) {
        (MappingValue::EnvStr(s), 1) => assert_eq!(s, "\"true\""),
        other => panic!("{:?}", other),
    }
    match value(vec![lit("1"), punct('+'), lit("2"), punct(','), ident("y")]) {
        (MappingValue::Expr(e), 3) => assert_eq!(e, "1 + 2"),
        other => panic!("{:?}", other),
    }
    assert!(matches!(value(vec![lit("3.14")]), (MappingValue::Expr(_), 1)));
    assert!(matches!(
        value(vec![ident("TestEnum"), joint(':'), punct(':'), ident("B")]),
        (MappingValue::Expr(_), 4)
    ));
    let array = Tok::Group('[', vec![lit("1"), punct(','), lit("2")]);
    assert!(matches!(value(vec![array]), (MappingValue::EnvStr(_), 1)));
    match value(vec![braces(vec![ident("a"), punct(':'), lit("1")])]) {
        (MappingValue::EnvStr(s), 1) => assert_eq!(s, "\"{a:1}\""),
        other => panic!("{:?}", other),
    }
}

#[test]
fn nested_match_and_include() {
    let inner = vec![ident("bar"), punct(':'), lit("\"x\"")];
    match value(vec![ident("Foo"), braces(inner)]) {
        (MappingValue::Nested { ty, mapping }, 2) => {
            assert_eq!(ty, "Foo");
            assert_eq!(mapping.fields.len(), 1);
            assert_eq!(mapping.fields[0].0, "bar");
        }
        other => panic!("{:?}", other),
    }
    let arms = vec![
        lit("\"local\""),
        punct('|'),
        lit("\"stg\""),
        joint('='),
        punct('>'),
        lit("\"a\""),
        punct(','),
        lit("\"prd\""),
        joint('='),
        punct('>'),
        lit("\"b\""),
    ];
    match value(vec![ident("env_partial_match"), braces(arms)]) {
        (MappingValue::EnvMatch { arms, partial: true }, 2) => {
            assert_eq!(arms.len(), 2);
            assert_eq!(arms[0].0.replace(' ', ""), "\"local\"|\"stg\"");
            assert!(matches!(&arms[1].1, MappingValue::EnvStr(s) if s == "\"b\""));
        }
        other => panic!("{:?}", other),
    }
    match value(vec![ident("env_include"), punct('<'), ident("Other"), punct('>'), braces(vec![])]) {
        (MappingValue::EnvInclude { ty, mapping: Some(m) }, 5) => {
            assert_eq!(ty, "Other");
            assert!(m.fields.is_empty());
        }
        other => panic!("{:?}", other),
    }
    match value(vec![ident("env_include"), punct('<'), ident("Other"), punct('>'), punct(',')]) {
        (MappingValue::EnvInclude { mapping: None, .. }, 4) => {}
        other => panic!("{:?}", other),
    }
}

#[test]
fn mappings_and_arguments() {
    let fields = vec![
        ident("foo"),
        punct(':'),
        lit("10"),
        punct(','),
        ident("bar"),
        punct(':'),
        ident("None"),
        punct(','),
    ];
    let m = parse_mapping(&fields).unwrap();
    assert_eq!(m.fields.len(), 2);
    assert_eq!(m.fields[1].0, "bar");
    assert!(parse_mapping(&vec![lit("1")]).is_err());
    assert!(parse_mapping(&vec![ident("foo"), punct(':')]).is_err());

    let args = vec![
        ident("env_name_key"),
        punct('='),
        lit("\"APP_ENV\""),
        punct(','),
        ident("dotenv_file"),
        punct('='),
        lit("\"tests/.env\""),
        punct(','),
        ident("mapping"),
        punct('='),
        braces(fields),
    ];
    let a = parse_attr_args(&args).unwrap();
    assert_eq!(a.env_name_key.as_deref(), Some("\"APP_ENV\""));
    assert_eq!(a.dotenv_file.as_deref(), Some("\"tests/.env\""));
    assert_eq!(a.mapping.fields.len(), 2);

    // An unknown argument is an error, not an endless loop.
    assert!(parse_attr_args(&vec![ident("mappings"), punct('='), braces(vec![])]).is_err());
    assert!(parse_attr_args(&vec![ident("dotenv_file"), punct('='), lit("1")]).is_err());
    let empty = parse_attr_args(&vec![]).unwrap();
    assert!(empty.mapping.fields.is_empty() && empty.dotenv_file.is_none());
}

#[test]
fn expressions_run_as_far_as_syn_reads_them() {
    // A value without a comma after it ends where the expression ends.
    let fields = vec![
        ident("a"),
        punct(':'),
        lit("1"),
        ident("b"),
        punct(':'),
        lit("\"x\""),
        punct(','),
        ident("c"),
        punct(':'),
        lit("3"),
        punct(','),
    ];
    let m = parse_mapping(&fields).unwrap();
    let keys: Vec<&str> = m.fields.iter().map(|(k, _)| k.as_str()).collect();
    assert_eq!(keys, vec!["a", "b", "c"]);
    // Commas inside a closure's parameters belong to the expression.
    let closure = vec![
        punct('|'),
        ident("a"),
        punct(','),
        ident("b"),
        punct('|'),
        ident("a"),
        punct('+'),
        ident("b"),
        punct(','),
        ident("z"),
    ];
    match value(closure) {
        (MappingValue::Expr(e), 8) => assert_eq!(e, "| a , b | a + b"),
        other => panic!("{:?}", other),
    }
    let path = vec![ident("TestEnum"), joint(':'), punct(':'), ident("B")];
    match value(path) {
        (MappingValue::Expr(e), 4) => assert_eq!(e, "TestEnum :: B"),
        other => panic!("{:?}", other),
    }
    let tuple = Tok::Group('(', vec![lit("\"hoge1\""), punct(','), lit("1")]);
    match value(vec![tuple]) {
        (MappingValue::EnvStr(s), 1) => assert_eq!(s, "\"(\\\"hoge1\\\", 1)\""),
        other => panic!("{:?}", other),
    }
}
