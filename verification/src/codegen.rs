//! The Rust code that the derives of this library emit: the `EnvPortal`
//! implementation built from a field mapping, and the `FromEnvStrValue`
//! implementation of a fieldless enum.
use vstd::prelude::*;
use crate::literal::quoted;
use crate::number::{decimal, digit_char};
use crate::text::{chars_of, push_char, same_chars};

verus! {

/// How the value of one field is produced.
#[derive(Debug)]
pub enum MappingValue {
    /// A text converted at run time; the Rust source of a string literal
    /// that holds it.
    EnvStr(String),
    /// The value of the environment variable of this name, converted at run
    /// time.
    EnvVar(String),
    /// A Rust expression, given by its source, used as it is.
    Expr(String),
    /// The value `None`.
    NoneValue,
    /// A value of the type `ty` built field by field from `mapping`.
    Nested { ty: String, mapping: Mapping },
    /// The value of the first arm whose pattern (given by its source) matches
    /// the environment name; where `partial`, that value in `Some`, or
    /// `None` where no arm matches.
    EnvMatch { arms: Vec<(String, MappingValue)>, partial: bool },
    /// The configuration of the type `ty` built from the environment, with
    /// the fields of `mapping` overriding its own where there is one (an
    /// empty `mapping` overrides nothing).
    EnvInclude { ty: String, mapping: Option<Mapping> },
}

/// The fields of a configuration, each with how its value is produced.
#[derive(Debug)]
pub struct Mapping {
    pub fields: Vec<(String, MappingValue)>,
}

/// The arguments of the derive of `EnvPortal`.
#[derive(Debug)]
pub struct EnvPortalAttrArgs {
    pub mapping: Mapping,
    /// The Rust source of the string literal that names the dotenv file.
    pub dotenv_file: Option<String>,
    /// The Rust source of the string literal that names the variable that
    /// holds the environment name.
    pub env_name_key: Option<String>,
}

impl Default for Mapping {
    /// No fields.
    fn default() -> (r: Self)
        ensures
            r.fields@.len() == 0,
    {
        Mapping { fields: Vec::new() }
    }
}

impl Default for EnvPortalAttrArgs {
    /// No field mapping, no dotenv file and no variable for the environment
    /// name.
    fn default() -> (r: Self)
        ensures
            r.mapping.fields@.len() == 0,
            r.dotenv_file is None,
            r.env_name_key is None,
    {
        EnvPortalAttrArgs { mapping: Mapping::default(), dotenv_file: None, env_name_key: None }
    }
}

/// The name of the field `f` under the field named `parent`.
pub open spec fn field_path(parent: Option<Seq<char>>, f: Seq<char>) -> Seq<char> {
    match parent {
        Some(p) => p + seq!['.'] + f,
        None => f,
    }
}

/// The code that reads the environment variable `var` as text.
pub open spec fn var_read_code(var: Seq<char>) -> Seq<char> {
    "&std::env::var("@ + quoted(var)
        + ").map_err(|e| portalenv::Error::EnvValError(match e { std::env::VarError::NotPresent => portalenv::EnvVarError::NotPresent, std::env::VarError::NotUnicode(v) => portalenv::EnvVarError::NotUnicode(format!(\"{:?}\", v)) }))?"@
}

/// The code that converts the text given by `text` for the field `name`.
pub open spec fn convert_code(name: Seq<char>, text: Seq<char>) -> Seq<char> {
    "portalenv::EnvStrValue::new("@ + quoted(name) + ", "@ + text + ").convert()?"@
}

/// The code that produces the value of the field `name` from `v`.
pub open spec fn value_code(name: Seq<char>, v: MappingValue) -> Seq<char>
    decreases v,
{
    match v {
        MappingValue::EnvStr(lit) => convert_code(name, lit@),
        MappingValue::EnvVar(var) => convert_code(name, var_read_code(var@)),
        MappingValue::Expr(e) => e@,
        MappingValue::NoneValue => "None"@,
        MappingValue::Nested { ty, mapping } => ty@ + " { "@ + fields_code(
            mapping.fields@,
            Some(name),
        ) + " }"@,
        MappingValue::EnvInclude { ty, mapping } => match mapping {
            Some(m) => if m.fields@.len() == 0 {
                ty@ + " { ..("@ + ty@ + "::from_env()?) }"@
            } else {
                ty@ + " { "@ + fields_code(m.fields@, Some(name)) + ", ..("@ + ty@
                    + "::from_env()?) }"@
            },
            None => ty@ + "::from_env()?"@,
        },
        MappingValue::EnvMatch { arms, partial } => "{ let Some(env) = env.as_ref() else { return Err(portalenv::Error::MissingEnvName); }; match env.as_str() { "@
            + arms_code(arms@, name, partial) + if partial {
            "_ => None, } }"@
        } else {
            "_ => return Err(portalenv::Error::InvalidEnvName), } }"@
        },
    }
}

/// The field initializers of `fs`, separated by `, `.
pub open spec fn fields_code(fs: Seq<(String, MappingValue)>, parent: Option<Seq<char>>) -> Seq<
    char,
>
    decreases fs,
{
    if fs.len() == 0 {
        Seq::empty()
    } else {
        let f = fs.last();
        let item = f.0@ + ": "@ + value_code(field_path(parent, f.0@), f.1);
        if fs.len() == 1 {
            item
        } else {
            fields_code(fs.drop_last(), parent) + ", "@ + item
        }
    }
}

/// The match arms of `arms`, each followed by `, `.
pub open spec fn arms_code(arms: Seq<(String, MappingValue)>, name: Seq<char>, partial: bool) -> Seq<
    char,
>
    decreases arms,
{
    if arms.len() == 0 {
        Seq::empty()
    } else {
        let a = arms.last();
        let v = value_code(name, a.1);
        arms_code(arms.drop_last(), name, partial) + a.0@ + " => "@ + if partial {
            "Some("@ + v + ")"@
        } else {
            v
        } + ", "@
    }
}

/// The view of an optional text.
pub open spec fn opt_view(o: Option<&str>) -> Option<Seq<char>> {
    match o {
        Some(s) => Some(s@),
        None => None,
    }
}

fn text(s: &str) -> (r: String)
    ensures
        r@ == s@,
{
    String::from_str(s)
}

fn push_quoted(r: &mut String, s: &str)
    ensures
        final(r)@ == old(r)@ + quoted(s@),
{
    r.append("\"");
    r.append(s);
    r.append("\"");
    proof {
        reveal_strlit("\"");
    }
    assert(r@ =~= old(r)@ + quoted(s@));
}

fn push_convert_code(r: &mut String, name: &str, t: &str)
    ensures
        final(r)@ == old(r)@ + convert_code(name@, t@),
{
    let ghost start = r@;
    r.append("portalenv::EnvStrValue::new(");
    push_quoted(r, name);
    r.append(", ");
    r.append(t);
    r.append(").convert()?");
    assert(r@ =~= start + convert_code(name@, t@));
}

/// The code that produces the value of the field `name` from `v`.
pub fn value_code_exec(name: &str, v: &MappingValue) -> (r: String)
    ensures
        r@ == value_code(name@, *v),
    decreases v,
{
    let mut r = String::new();
    match v {
        MappingValue::EnvStr(lit) => {
            push_convert_code(&mut r, name, lit.as_str());
        },
        MappingValue::EnvVar(var) => {
            let mut read = String::new();
            read.append("&std::env::var(");
            push_quoted(&mut read, var.as_str());
            read.append(").map_err(|e| portalenv::Error::EnvValError(match e { std::env::VarError::NotPresent => portalenv::EnvVarError::NotPresent, std::env::VarError::NotUnicode(v) => portalenv::EnvVarError::NotUnicode(format!(\"{:?}\", v)) }))?",
            );
            assert(read@ =~= var_read_code(var@));
            push_convert_code(&mut r, name, read.as_str());
        },
        MappingValue::Expr(e) => {
            r.append(e.as_str());
        },
        MappingValue::NoneValue => {
            r.append("None");
        },
        MappingValue::Nested { ty, mapping } => {
            r.append(ty.as_str());
            r.append(" { ");
            let fields = fields_code_exec(&mapping.fields, Some(name));
            r.append(fields.as_str());
            r.append(" }");
        },
        MappingValue::EnvInclude { ty, mapping } => {
            r.append(ty.as_str());
            match mapping {
                Some(m) => {
                    if m.fields.len() == 0 {
                        r.append(" { ..(");
                    } else {
                        r.append(" { ");
                        let fields = fields_code_exec(&m.fields, Some(name));
                        r.append(fields.as_str());
                        r.append(", ..(");
                    }
                    r.append(ty.as_str());
                    r.append("::from_env()?) }");
                },
                None => {
                    r.append("::from_env()?");
                },
            }
        },
        MappingValue::EnvMatch { arms, partial } => {
            r.append("{ let Some(env) = env.as_ref() else { return Err(portalenv::Error::MissingEnvName); }; match env.as_str() { ",
            );
            let code = arms_code_exec(arms, name, *partial);
            r.append(code.as_str());
            if *partial {
                r.append("_ => None, } }");
            } else {
                r.append("_ => return Err(portalenv::Error::InvalidEnvName), } }");
            }
        },
    }
    assert(r@ =~= value_code(name@, *v));
    r
}

/// The field initializers of `fs`, separated by `, `.
pub fn fields_code_exec(fs: &Vec<(String, MappingValue)>, parent: Option<&str>) -> (r: String)
    ensures
        r@ == fields_code(fs@, opt_view(parent)),
    decreases fs,
{
    let mut r = String::new();
    let mut i: usize = 0;
    while i < fs.len()
        invariant
            i <= fs.len(),
            r@ == fields_code(fs@.take(i as int), opt_view(parent)),
        decreases fs.len() - i,
    {
        let ghost before = r@;
        let (f, v) = &fs[i];
        let path = match parent {
            Some(p) => {
                let mut path = text(p);
                path.append(".");
                path.append(f.as_str());
                path
            },
            None => text(f.as_str()),
        };
        proof {
            reveal_strlit(".");
        }
        assert(path@ =~= field_path(opt_view(parent), f@));
        let code = value_code_exec(path.as_str(), v);
        if i > 0 {
            r.append(", ");
        }
        r.append(f.as_str());
        r.append(": ");
        r.append(code.as_str());
        assert(fs@.take(i + 1).drop_last() =~= fs@.take(i as int));
        assert(fs@.take(i + 1).last() == fs@[i as int]);
        assert(r@ =~= fields_code(fs@.take(i + 1), opt_view(parent)));
        i = i + 1;
    }
    assert(fs@.take(fs.len() as int) =~= fs@);
    r
}

/// The match arms of `arms`, each followed by `, `.
pub fn arms_code_exec(arms: &Vec<(String, MappingValue)>, name: &str, partial: bool) -> (r: String)
    ensures
        r@ == arms_code(arms@, name@, partial),
    decreases arms,
{
    let mut r = String::new();
    let mut i: usize = 0;
    while i < arms.len()
        invariant
            i <= arms.len(),
            r@ == arms_code(arms@.take(i as int), name@, partial),
        decreases arms.len() - i,
    {
        let (pat, v) = &arms[i];
        let code = value_code_exec(name, v);
        r.append(pat.as_str());
        r.append(" => ");
        if partial {
            r.append("Some(");
            r.append(code.as_str());
            r.append(")");
        } else {
            r.append(code.as_str());
        }
        r.append(", ");
        assert(arms@.take(i + 1).drop_last() =~= arms@.take(i as int));
        assert(arms@.take(i + 1).last() == arms@[i as int]);
        assert(r@ =~= arms_code(arms@.take(i + 1), name@, partial));
        i = i + 1;
    }
    assert(arms@.take(arms.len() as int) =~= arms@);
    r
}

/// The code that builds the configuration from `m`.
pub open spec fn constructor_code(m: Mapping) -> Seq<char> {
    "Self { "@ + fields_code(m.fields@, None) + " }"@
}

/// The code of the body of `env_name_key`.
pub open spec fn env_name_key_code(key: Option<String>) -> Seq<char> {
    match key {
        Some(lit) => "Some("@ + lit@ + ")"@,
        None => "None"@,
    }
}

/// The code of the body of `dotenv_file`: the given file, and otherwise the
/// file `.env` in the directory of the crate's manifest.
pub open spec fn dotenv_file_code(file: Option<String>) -> Seq<char> {
    match file {
        Some(lit) => "Some("@ + lit@ + ")"@,
        None => "Some(concat!(env!(\"CARGO_MANIFEST_DIR\"), \"/.env\"))"@,
    }
}

/// The implementation of `EnvPortal` for the struct `ident` that the derive
/// emits for `args`.
pub open spec fn env_portal_impl_code(ident: Seq<char>, args: EnvPortalAttrArgs) -> Seq<char> {
    "impl portalenv::EnvPortal for "@ + ident
        + " { fn env_name_key() -> Option<&'static str> { "@ + env_name_key_code(
        args.env_name_key,
    ) + " } fn dotenv_file() -> Option<&'static str> { "@ + dotenv_file_code(args.dotenv_file)
        + " } fn from_env_with(env: Option<String>) -> portalenv::Result<Self> where Self: Sized { Ok("@
        + constructor_code(args.mapping) + ") } }"@
}

/// The code that builds the configuration from `m`.
pub fn constructor_code_exec(m: &Mapping) -> (r: String)
    ensures
        r@ == constructor_code(*m),
{
    let mut r = text("Self { ");
    let fields = fields_code_exec(&m.fields, None);
    r.append(fields.as_str());
    r.append(" }");
    r
}

/// The implementation of `EnvPortal` for the struct `ident` that the derive
/// emits for `args`.
pub fn env_portal_impl_code_exec(ident: &str, args: &EnvPortalAttrArgs) -> (r: String)
    ensures
        r@ == env_portal_impl_code(ident@, *args),
{
    let mut r = text("impl portalenv::EnvPortal for ");
    r.append(ident);
    r.append(" { fn env_name_key() -> Option<&'static str> { ");
    match &args.env_name_key {
        Some(lit) => {
            r.append("Some(");
            r.append(lit.as_str());
            r.append(")");
        },
        None => {
            r.append("None");
        },
    }
    r.append(" } fn dotenv_file() -> Option<&'static str> { ");
    match &args.dotenv_file {
        Some(lit) => {
            r.append("Some(");
            r.append(lit.as_str());
            r.append(")");
        },
        None => {
            r.append("Some(concat!(env!(\"CARGO_MANIFEST_DIR\"), \"/.env\"))");
        },
    }
    r.append(" } fn from_env_with(env: Option<String>) -> portalenv::Result<Self> where Self: Sized { Ok(",
    );
    let ctor = constructor_code_exec(&args.mapping);
    r.append(ctor.as_str());
    r.append(") } }");
    assert(r@ =~= env_portal_impl_code(ident@, *args));
    r
}

/// Whether `value` names the variant `variant` of the enum `enum_name`,
/// either by the variant's name alone or by the enum's name, `::` and the
/// variant's name.
pub open spec fn names_variant(value: Seq<char>, enum_name: Seq<char>, variant: Seq<char>) -> bool {
    value == variant || value == enum_name + "::"@ + variant
}

/// The position of the first variant in `variants` that `value` names, or
/// `None` where it names none.
pub fn variant_index(value: &str, enum_name: &str, variants: &[&str]) -> (r: Option<usize>)
    ensures
        match r {
            Some(i) => i < variants@.len() && names_variant(value@, enum_name@, variants@[i as int]@)
                && forall|k: int|
                0 <= k < i ==> !names_variant(value@, enum_name@, #[trigger] variants@[k]@),
            None => forall|k: int|
                0 <= k < variants@.len() ==> !names_variant(value@, enum_name@, #[trigger] variants@[k]@),
        },
{
    let v = chars_of(value);
    let mut qualified = text(enum_name);
    qualified.append("::");
    let mut i: usize = 0;
    while i < variants.len()
        invariant
            i <= variants@.len(),
            v@ == value@,
            qualified@ == enum_name@ + "::"@,
            forall|k: int| 0 <= k < i ==> !names_variant(value@, enum_name@, #[trigger] variants@[k]@),
        decreases variants.len() - i,
    {
        let name = variants[i];
        let bare = chars_of(name);
        let mut full = text(qualified.as_str());
        full.append(name);
        let full = chars_of(full.as_str());
        if same_chars(&v, &bare) || same_chars(&v, &full) {
            return Some(i);
        }
        i = i + 1;
    }
    None
}

/// The match arms that turn the position of a variant of `ident` into that
/// variant.
pub open spec fn variant_arms_code(ident: Seq<char>, vs: Seq<String>) -> Seq<char>
    decreases vs.len(),
{
    if vs.len() == 0 {
        Seq::empty()
    } else {
        variant_arms_code(ident, vs.drop_last()) + "Some("@ + decimal((vs.len() - 1) as nat)
            + ") => Ok("@ + ident + "::"@ + vs.last()@ + "), "@
    }
}

/// The list of the quoted names of `vs`, separated by `, `.
pub open spec fn names_code(vs: Seq<String>) -> Seq<char>
    decreases vs.len(),
{
    if vs.len() == 0 {
        Seq::empty()
    } else if vs.len() == 1 {
        quoted(vs[0]@)
    } else {
        names_code(vs.drop_last()) + ", "@ + quoted(vs.last()@)
    }
}

fn digit_char_exec(d: usize) -> (r: char)
    requires
        d < 10,
    ensures
        r == digit_char(d as nat),
{
    if d == 0 {
        '0'
    } else if d == 1 {
        '1'
    } else if d == 2 {
        '2'
    } else if d == 3 {
        '3'
    } else if d == 4 {
        '4'
    } else if d == 5 {
        '5'
    } else if d == 6 {
        '6'
    } else if d == 7 {
        '7'
    } else if d == 8 {
        '8'
    } else {
        '9'
    }
}

fn push_decimal(r: &mut String, n: usize)
    ensures
        final(r)@ == old(r)@ + decimal(n as nat),
    decreases n,
{
    if n >= 10 {
        push_decimal(r, n / 10);
    }
    push_char(r, digit_char_exec(n % 10));
    assert(r@ =~= old(r)@ + decimal(n as nat));
}

/// The implementation of `FromEnvStrValue` for the fieldless enum `ident`
/// with the variants `vs` that the derive emits: a value converts into the
/// first variant that it names (see `variant_index`), and fails otherwise.
pub open spec fn env_enum_impl_code(ident: Seq<char>, vs: Seq<String>) -> Seq<char> {
    "impl portalenv::FromEnvStrValue for "@ + ident
        + " { fn from_env_str(s: portalenv::EnvStrValue) -> portalenv::Result<Self> { match portalenv::codegen::variant_index(s.as_str(), "@
        + quoted(ident) + ", &["@ + names_code(vs) + "]) { "@ + variant_arms_code(ident, vs)
        + "_ => Err(portalenv::Error::ValConversionError(format!(\"Failed to convert value to {}: {:?}\", stringify!("@
        + ident + "), s))), } } }"@
}

/// The implementation of `FromEnvStrValue` for the fieldless enum `ident`
/// with the variants `vs` that the derive emits.
pub fn env_enum_impl_code_exec(ident: &str, vs: &Vec<String>) -> (r: String)
    ensures
        r@ == env_enum_impl_code(ident@, vs@),
{
    let mut r = text("impl portalenv::FromEnvStrValue for ");
    r.append(ident);
    r.append(" { fn from_env_str(s: portalenv::EnvStrValue) -> portalenv::Result<Self> { match portalenv::codegen::variant_index(s.as_str(), ",
    );
    push_quoted(&mut r, ident);
    r.append(", &[");
    let mut names = String::new();
    let mut arms = String::new();
    let mut i: usize = 0;
    while i < vs.len()
        invariant
            i <= vs.len(),
            names@ == names_code(vs@.take(i as int)),
            arms@ == variant_arms_code(ident@, vs@.take(i as int)),
        decreases vs.len() - i,
    {
        if i > 0 {
            names.append(", ");
        }
        push_quoted(&mut names, vs[i].as_str());
        arms.append("Some(");
        push_decimal(&mut arms, i);
        arms.append(") => Ok(");
        arms.append(ident);
        arms.append("::");
        arms.append(vs[i].as_str());
        arms.append("), ");
        assert(vs@.take(i + 1).drop_last() =~= vs@.take(i as int));
        assert(vs@.take(i + 1).last() == vs@[i as int]);
        assert(i == 0 ==> vs@.take(i + 1)[0] == vs@[i as int]);
        assert(names@ =~= names_code(vs@.take(i + 1)));
        assert(arms@ =~= variant_arms_code(ident@, vs@.take(i + 1)));
        i = i + 1;
    }
    assert(vs@.take(vs.len() as int) =~= vs@);
    r.append(names.as_str());
    r.append("]) { ");
    r.append(arms.as_str());
    r.append("_ => Err(portalenv::Error::ValConversionError(format!(\"Failed to convert value to {}: {:?}\", stringify!(",
    );
    r.append(ident);
    r.append("), s))), } } }");
    assert(r@ =~= env_enum_impl_code(ident@, vs@));
    r
}

/// The code of the match arms of `a` followed by `b` is the code of the
/// arms of `a` followed by that of the arms of `b`: each arm is written on
/// its own, wherever it stands.
pub proof fn law_arms_code_concat(
    a: Seq<(String, MappingValue)>,
    b: Seq<(String, MappingValue)>,
    name: Seq<char>,
    partial: bool,
)
    ensures
        arms_code(a + b, name, partial) == arms_code(a, name, partial) + arms_code(b, name, partial),
    decreases b.len(),
{
    if b.len() == 0 {
        assert(a + b =~= a);
        assert(arms_code(b, name, partial) =~= Seq::<char>::empty());
        assert(arms_code(a, name, partial) + Seq::<char>::empty() =~= arms_code(a, name, partial));
    } else {
        let ab = a + b;
        assert(ab.drop_last() =~= a + b.drop_last());
        assert(ab.last() == b.last());
        law_arms_code_concat(a, b.drop_last(), name, partial);
        let x = b.last();
        let v = value_code(name, x.1);
        let tail = x.0@ + " => "@ + (if partial {
            "Some("@ + v + ")"@
        } else {
            v
        }) + ", "@;
        assert(arms_code(ab, name, partial) =~= arms_code(a, name, partial) + arms_code(
            b.drop_last(),
            name,
            partial,
        ) + tail);
        assert(arms_code(b, name, partial) =~= arms_code(b.drop_last(), name, partial) + tail);
    }
}

/// One arm `pattern => value` is written as the pattern, ` => `, the code of
/// its value (in `Some(..)` for a partial match) and `, `.
pub proof fn law_arm_code(x: (String, MappingValue), name: Seq<char>, partial: bool)
    ensures
        arms_code(seq![x], name, partial) == x.0@ + " => "@ + (if partial {
            "Some("@ + value_code(name, x.1) + ")"@
        } else {
            value_code(name, x.1)
        }) + ", "@,
{
    let s = seq![x];
    assert(s.drop_last() =~= Seq::<(String, MappingValue)>::empty());
    assert(arms_code(s.drop_last(), name, partial) =~= Seq::<char>::empty());
    let rest = x.0@ + " => "@ + (if partial {
        "Some("@ + value_code(name, x.1) + ")"@
    } else {
        value_code(name, x.1)
    }) + ", "@;
    assert(Seq::<char>::empty() + rest =~= rest);
}

/// The quoted names of `a` followed by `b` are those of `a`, `, ` and those
/// of `b`: every name is listed, in order.
pub proof fn law_names_code_concat(a: Seq<String>, b: Seq<String>)
    requires
        a.len() > 0,
        b.len() > 0,
    ensures
        names_code(a + b) == names_code(a) + ", "@ + names_code(b),
    decreases b.len(),
{
    let ab = a + b;
    assert(ab.drop_last() =~= a + b.drop_last());
    assert(ab.last() == b.last());
    if b.len() == 1 {
        assert(b.drop_last() =~= Seq::<String>::empty());
        assert(b[0] == b.last());
        assert(names_code(ab) == names_code(a) + ", "@ + quoted(b.last()@));
    } else {
        law_names_code_concat(a, b.drop_last());
        assert(names_code(ab) =~= names_code(a) + ", "@ + names_code(b.drop_last()) + ", "@
            + quoted(b.last()@));
        assert(names_code(b) =~= names_code(b.drop_last()) + ", "@ + quoted(b.last()@));
    }
}

/// A single name is listed quoted.
pub proof fn law_name_code(x: String)
    ensures
        names_code(seq![x]) == quoted(x@),
{
}

/// The field initializers of `a` followed by `b` are those of `a`, `, ` and
/// those of `b`: every field is written on its own, wherever it stands.
pub proof fn law_fields_code_concat(
    a: Seq<(String, MappingValue)>,
    b: Seq<(String, MappingValue)>,
    parent: Option<Seq<char>>,
)
    requires
        a.len() > 0,
        b.len() > 0,
    ensures
        fields_code(a + b, parent) == fields_code(a, parent) + ", "@ + fields_code(b, parent),
    decreases b.len(),
{
    let ab = a + b;
    assert(ab.drop_last() =~= a + b.drop_last());
    assert(ab.last() == b.last());
    let f = b.last();
    let item = f.0@ + ": "@ + value_code(field_path(parent, f.0@), f.1);
    if b.len() == 1 {
        assert(b.drop_last() =~= Seq::<(String, MappingValue)>::empty());
        assert(fields_code(b, parent) == item);
    } else {
        law_fields_code_concat(a, b.drop_last(), parent);
        assert(fields_code(ab, parent) =~= fields_code(a, parent) + ", "@ + fields_code(
            b.drop_last(),
            parent,
        ) + ", "@ + item);
        assert(fields_code(b, parent) =~= fields_code(b.drop_last(), parent) + ", "@ + item);
    }
}

} // verus!
