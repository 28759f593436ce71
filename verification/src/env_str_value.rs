//! Environment values as text, and their conversion into typed values.
use vstd::prelude::*;
use std::collections::{HashMap, HashSet};
use std::hash::Hash;
use vstd::std_specs::hash::obeys_key_model;
use crate::error::{Error, Result};
use crate::literal::{
    array_text_with, bracketed, bracketed_range, elem_ranges, elems, entries, entry_ranges, entry_texts,
    is_comma_sep, is_quoted_token, is_token, join_with, law_array_round_trip_with, law_quoted_text, normalize, normalize_exec,
    quoted, range_texts,
};
use crate::number::{parse_bool, parse_bool_exec, parse_int, parse_int_exec};
use crate::text::{chars_of, string_of};

verus! {

/// The text of an environment value, together with the name of the
/// setting that it is for.
#[derive(Debug, Clone, PartialEq, Eq, Hash)]
pub struct EnvStrValue {
    name: &'static str,
    value: String,
}

impl View for EnvStrValue {
    type V = Seq<char>;

    closed spec fn view(&self) -> Seq<char> {
        self.value@
    }
}

impl core::ops::Deref for EnvStrValue {
    type Target = str;

    fn deref(&self) -> (r: &str)
        ensures
            r@ == self@,
    {
        self.value.as_str()
    }
}

impl EnvStrValue {
    /// The name of the setting that the value is for.
    pub closed spec fn name_view(&self) -> Seq<char> {
        self.name@
    }

    /// A value for the setting `name` from the text `s`: the text between
    /// the first and the last double quote where `s` (after leading
    /// whitespace) is a quoted string, and `s` without surrounding
    /// whitespace otherwise.
    pub fn new(name: &'static str, s: &str) -> (r: Self)
        ensures
            r@ == normalize(s@),
            r.name_view() == name@,
    {
        let c = chars_of(s);
        EnvStrValue { name, value: normalize_exec(&c) }
    }

    /// Converts the value into a `T`.
    pub fn convert<T: FromEnvStrValue>(self) -> (r: Result<T>)
        ensures
            T::accepts(self@) ==> r is Ok,
            T::rejects(self@) ==> r is Err,
            r matches Ok(v) ==> T::converts(self@, v),
            r matches Err(e) ==> T::fails_with(self.name_view(), self@, e),
    {
        T::from_env_str(self)
    }

    /// The text of the value.
    pub fn to_string(&self) -> (r: String)
        ensures
            r@ == self@,
    {
        self.value.clone()
    }

    /// The text of the value.
    pub fn as_str(&self) -> (r: &str)
        ensures
            r@ == self@,
    {
        self.value.as_str()
    }

    fn chars(&self) -> (r: Vec<char>)
        ensures
            r@ == self@,
    {
        chars_of(self.value.as_str())
    }
}

/// What `Debug` shows of the text `s`: `s` in double quotes, with the
/// characters that need it escaped.
pub uninterp spec fn str_debug(s: Seq<char>) -> Seq<char>;

/// The text that `Debug` shows of `s` (`<str as Debug>::fmt`).
#[verifier::external_body]
fn debug_text(s: &str) -> (r: String)
    ensures
        r@ == str_debug(s@),
{
    format!("{:?}", s)
}

/// The debug listing of a value for the setting `name` with the text
/// `text`.
pub open spec fn value_debug(name: Seq<char>, text: Seq<char>) -> Seq<char> {
    "EnvStrValue { name: "@ + str_debug(name) + ", value: "@ + str_debug(text) + " }"@
}

/// The message of a failed conversion of the value for `name` with the
/// text `text` into the type named `ty`.
pub open spec fn failure_message(ty: Seq<char>, name: Seq<char>, text: Seq<char>) -> Seq<char> {
    "Failed to convert into "@ + ty + ": "@ + value_debug(name, text)
}

/// Holds where `e` is the conversion error of the value for `name` with
/// the text `text` into the type named `ty`.
pub open spec fn is_failure_of(ty: Seq<char>, name: Seq<char>, text: Seq<char>, e: Error) -> bool {
    match e {
        Error::ValConversionError(m) => m@ == failure_message(ty, name, text),
        _ => false,
    }
}

/// Holds where `e` is the conversion error of the value for `name` with
/// the text `text` into a type of some name.
pub open spec fn is_failure(name: Seq<char>, text: Seq<char>, e: Error) -> bool {
    match e {
        Error::ValConversionError(m) => exists|ty: Seq<char>|
            m@ == #[trigger] failure_message(ty, name, text),
        _ => false,
    }
}

/// The conversion error of `s` into the type named `ty`.
fn conversion_failure(ty: &str, s: &EnvStrValue) -> (e: Error)
    ensures
        is_failure_of(ty@, s.name_view(), s@, e),
        is_failure(s.name_view(), s@, e),
{
    let mut m = String::from_str("Failed to convert into ");
    m.append(ty);
    m.append(": ");
    m.append("EnvStrValue { name: ");
    let n = debug_text(s.name);
    m.append(n.as_str());
    m.append(", value: ");
    let v = debug_text(s.value.as_str());
    m.append(v.as_str());
    m.append(" }");
    assert(m@ =~= failure_message(ty@, s.name_view(), s@));
    Error::ValConversionError(m)
}

/// The name of a type with one parameter, as `prefix<param>`.
fn generic_name(prefix: &str, param: String) -> (r: String)
    ensures
        r@ == prefix@ + "<"@ + param@ + ">"@,
{
    let mut r = String::from_str(prefix);
    r.append("<");
    r.append(param.as_str());
    r.append(">");
    r
}

/// Holds where every text of `texts`, normalized, converts into a `T`.
pub open spec fn all_accept<T: FromEnvStrValue>(texts: Seq<Seq<char>>) -> bool {
    forall|i: int| 0 <= i < texts.len() ==> T::accepts(normalize(#[trigger] texts[i]))
}

/// Holds where some text of `texts`, normalized, is known not to convert
/// into a `T`.
pub open spec fn any_reject<T: FromEnvStrValue>(texts: Seq<Seq<char>>) -> bool {
    exists|i: int| 0 <= i < texts.len() && T::rejects(normalize(#[trigger] texts[i]))
}

/// Holds where each text of `texts`, normalized, may convert into the
/// `T` at the same place of `vals`.
pub open spec fn all_convert<T: FromEnvStrValue>(texts: Seq<Seq<char>>, vals: Seq<T>) -> bool {
    &&& vals.len() == texts.len()
    &&& forall|i: int| 0 <= i < vals.len() ==> T::converts(normalize(texts[i]), #[trigger] vals[i])
}

/// The signed integer with sign `neg` and magnitude `m`.
fn signed_value(neg: bool, m: u128) -> (r: i128)
    requires
        m <= i128::MAX as u128 + 1,
        !neg ==> m <= i128::MAX as u128,
    ensures
        r == if neg {
            -m
        } else {
            m as int
        },
{
    if !neg {
        m as i128
    } else if m == i128::MAX as u128 + 1 {
        i128::MIN
    } else {
        -(m as i128)
    }
}


/// Conversion of an environment value into a typed value.
pub trait FromEnvStrValue: Sized {
    /// Holds where converting the text `s` is known to succeed (never, for
    /// an implementation that does not say).
    open spec fn accepts(s: Seq<char>) -> bool {
        false
    }

    /// Holds where converting the text `s` is known to fail (never, for an
    /// implementation that does not say).
    open spec fn rejects(s: Seq<char>) -> bool {
        false
    }

    /// Holds where converting the text `s` may give `v` (always, for an
    /// implementation that does not say).
    open spec fn converts(s: Seq<char>, v: Self) -> bool {
        true
    }

    /// Holds where converting the text `s` of the value for the setting
    /// `name` may fail with `e` (always, for an implementation that does not
    /// say).
    open spec fn fails_with(name: Seq<char>, s: Seq<char>, e: Error) -> bool {
        true
    }

    fn from_env_str(s: EnvStrValue) -> (r: Result<Self>)
        ensures
            Self::accepts(s@) ==> r is Ok,
            Self::rejects(s@) ==> r is Err,
            r matches Ok(v) ==> Self::converts(s@, v),
            r matches Err(e) ==> Self::fails_with(s.name_view(), s@, e),
    ;

    /// The name of the type that conversion errors show (`_` for a type
    /// that gives none).
    fn type_text() -> String {
        String::from_str("_")
    }

    /// The error of a failed conversion of `s`: "Failed to convert into ",
    /// the name of the type, ": " and the debug listing of `s`.
    fn conversion_error(s: EnvStrValue) -> (e: Error)
        ensures
            is_failure(s.name_view(), s@, e),
    {
        conversion_failure(Self::type_text().as_str(), &s)
    }
}

impl FromEnvStrValue for String {
    open spec fn accepts(s: Seq<char>) -> bool {
        true
    }

    open spec fn rejects(s: Seq<char>) -> bool {
        false
    }

    open spec fn converts(s: Seq<char>, v: String) -> bool {
        v@ == s
    }

    open spec fn fails_with(name: Seq<char>, s: Seq<char>, e: Error) -> bool {
        false
    }

    fn from_env_str(s: EnvStrValue) -> (r: Result<String>)
        ensures
            r matches Ok(v) && v@ == s@,
    {
        Ok(s.value)
    }

    fn type_text() -> (r: String)
        ensures
            r@ == "alloc::string::String"@,
    {
        String::from_str("alloc::string::String")
    }
}

impl FromEnvStrValue for bool {
    open spec fn accepts(s: Seq<char>) -> bool {
        parse_bool(s) is Some
    }

    open spec fn rejects(s: Seq<char>) -> bool {
        parse_bool(s) is None
    }

    open spec fn converts(s: Seq<char>, v: bool) -> bool {
        parse_bool(s) == Some(v)
    }

    open spec fn fails_with(name: Seq<char>, s: Seq<char>, e: Error) -> bool {
        is_failure_of("bool"@, name, s, e)
    }

    fn from_env_str(s: EnvStrValue) -> (r: Result<bool>)
        ensures
            r is Ok <==> Self::accepts(s@),
    {
        match parse_bool_exec(&s.chars()) {
            Some(b) => Ok(b),
            None => Err(conversion_failure(Self::type_text().as_str(), &s)),
        }
    }

    fn type_text() -> (r: String)
        ensures
            r@ == "bool"@,
    {
        String::from_str("bool")
    }
}

impl FromEnvStrValue for u8 {
    open spec fn accepts(s: Seq<char>) -> bool {
        parse_int(s, 0, u8::MAX as int) is Some
    }

    open spec fn rejects(s: Seq<char>) -> bool {
        parse_int(s, 0, u8::MAX as int) is None
    }

    open spec fn converts(s: Seq<char>, v: u8) -> bool {
        parse_int(s, 0, u8::MAX as int) == Some(v as int)
    }

    open spec fn fails_with(name: Seq<char>, s: Seq<char>, e: Error) -> bool {
        is_failure_of("u8"@, name, s, e)
    }

    fn from_env_str(s: EnvStrValue) -> (r: Result<u8>)
        ensures
            r is Ok <==> Self::accepts(s@),
    {
        match parse_int_exec(&s.chars(), 0, u8::MAX as u128) {
            Some((_, m)) => Ok(m as u8),
            None => Err(conversion_failure(Self::type_text().as_str(), &s)),
        }
    }

    fn type_text() -> (r: String)
        ensures
            r@ == "u8"@,
    {
        String::from_str("u8")
    }
}

impl FromEnvStrValue for u16 {
    open spec fn accepts(s: Seq<char>) -> bool {
        parse_int(s, 0, u16::MAX as int) is Some
    }

    open spec fn rejects(s: Seq<char>) -> bool {
        parse_int(s, 0, u16::MAX as int) is None
    }

    open spec fn converts(s: Seq<char>, v: u16) -> bool {
        parse_int(s, 0, u16::MAX as int) == Some(v as int)
    }

    open spec fn fails_with(name: Seq<char>, s: Seq<char>, e: Error) -> bool {
        is_failure_of("u16"@, name, s, e)
    }

    fn from_env_str(s: EnvStrValue) -> (r: Result<u16>)
        ensures
            r is Ok <==> Self::accepts(s@),
    {
        match parse_int_exec(&s.chars(), 0, u16::MAX as u128) {
            Some((_, m)) => Ok(m as u16),
            None => Err(conversion_failure(Self::type_text().as_str(), &s)),
        }
    }

    fn type_text() -> (r: String)
        ensures
            r@ == "u16"@,
    {
        String::from_str("u16")
    }
}

impl FromEnvStrValue for u32 {
    open spec fn accepts(s: Seq<char>) -> bool {
        parse_int(s, 0, u32::MAX as int) is Some
    }

    open spec fn rejects(s: Seq<char>) -> bool {
        parse_int(s, 0, u32::MAX as int) is None
    }

    open spec fn converts(s: Seq<char>, v: u32) -> bool {
        parse_int(s, 0, u32::MAX as int) == Some(v as int)
    }

    open spec fn fails_with(name: Seq<char>, s: Seq<char>, e: Error) -> bool {
        is_failure_of("u32"@, name, s, e)
    }

    fn from_env_str(s: EnvStrValue) -> (r: Result<u32>)
        ensures
            r is Ok <==> Self::accepts(s@),
    {
        match parse_int_exec(&s.chars(), 0, u32::MAX as u128) {
            Some((_, m)) => Ok(m as u32),
            None => Err(conversion_failure(Self::type_text().as_str(), &s)),
        }
    }

    fn type_text() -> (r: String)
        ensures
            r@ == "u32"@,
    {
        String::from_str("u32")
    }
}

impl FromEnvStrValue for u64 {
    open spec fn accepts(s: Seq<char>) -> bool {
        parse_int(s, 0, u64::MAX as int) is Some
    }

    open spec fn rejects(s: Seq<char>) -> bool {
        parse_int(s, 0, u64::MAX as int) is None
    }

    open spec fn converts(s: Seq<char>, v: u64) -> bool {
        parse_int(s, 0, u64::MAX as int) == Some(v as int)
    }

    open spec fn fails_with(name: Seq<char>, s: Seq<char>, e: Error) -> bool {
        is_failure_of("u64"@, name, s, e)
    }

    fn from_env_str(s: EnvStrValue) -> (r: Result<u64>)
        ensures
            r is Ok <==> Self::accepts(s@),
    {
        match parse_int_exec(&s.chars(), 0, u64::MAX as u128) {
            Some((_, m)) => Ok(m as u64),
            None => Err(conversion_failure(Self::type_text().as_str(), &s)),
        }
    }

    fn type_text() -> (r: String)
        ensures
            r@ == "u64"@,
    {
        String::from_str("u64")
    }
}

impl FromEnvStrValue for u128 {
    open spec fn accepts(s: Seq<char>) -> bool {
        parse_int(s, 0, u128::MAX as int) is Some
    }

    open spec fn rejects(s: Seq<char>) -> bool {
        parse_int(s, 0, u128::MAX as int) is None
    }

    open spec fn converts(s: Seq<char>, v: u128) -> bool {
        parse_int(s, 0, u128::MAX as int) == Some(v as int)
    }

    open spec fn fails_with(name: Seq<char>, s: Seq<char>, e: Error) -> bool {
        is_failure_of("u128"@, name, s, e)
    }

    fn from_env_str(s: EnvStrValue) -> (r: Result<u128>)
        ensures
            r is Ok <==> Self::accepts(s@),
    {
        match parse_int_exec(&s.chars(), 0, u128::MAX as u128) {
            Some((_, m)) => Ok(m as u128),
            None => Err(conversion_failure(Self::type_text().as_str(), &s)),
        }
    }

    fn type_text() -> (r: String)
        ensures
            r@ == "u128"@,
    {
        String::from_str("u128")
    }
}

impl FromEnvStrValue for usize {
    open spec fn accepts(s: Seq<char>) -> bool {
        parse_int(s, 0, usize::MAX as int) is Some
    }

    open spec fn rejects(s: Seq<char>) -> bool {
        parse_int(s, 0, usize::MAX as int) is None
    }

    open spec fn converts(s: Seq<char>, v: usize) -> bool {
        parse_int(s, 0, usize::MAX as int) == Some(v as int)
    }

    open spec fn fails_with(name: Seq<char>, s: Seq<char>, e: Error) -> bool {
        is_failure_of("usize"@, name, s, e)
    }

    fn from_env_str(s: EnvStrValue) -> (r: Result<usize>)
        ensures
            r is Ok <==> Self::accepts(s@),
    {
        match parse_int_exec(&s.chars(), 0, usize::MAX as u128) {
            Some((_, m)) => Ok(m as usize),
            None => Err(conversion_failure(Self::type_text().as_str(), &s)),
        }
    }

    fn type_text() -> (r: String)
        ensures
            r@ == "usize"@,
    {
        String::from_str("usize")
    }
}

impl FromEnvStrValue for i8 {
    open spec fn accepts(s: Seq<char>) -> bool {
        parse_int(s, i8::MIN as int, i8::MAX as int) is Some
    }

    open spec fn rejects(s: Seq<char>) -> bool {
        parse_int(s, i8::MIN as int, i8::MAX as int) is None
    }

    open spec fn converts(s: Seq<char>, v: i8) -> bool {
        parse_int(s, i8::MIN as int, i8::MAX as int) == Some(v as int)
    }

    open spec fn fails_with(name: Seq<char>, s: Seq<char>, e: Error) -> bool {
        is_failure_of("i8"@, name, s, e)
    }

    fn from_env_str(s: EnvStrValue) -> (r: Result<i8>)
        ensures
            r is Ok <==> Self::accepts(s@),
    {
        match parse_int_exec(&s.chars(), i8::MAX as u128 + 1, i8::MAX as u128) {
            Some((neg, m)) => Ok(signed_value(neg, m) as i8),
            None => Err(conversion_failure(Self::type_text().as_str(), &s)),
        }
    }

    fn type_text() -> (r: String)
        ensures
            r@ == "i8"@,
    {
        String::from_str("i8")
    }
}

impl FromEnvStrValue for i16 {
    open spec fn accepts(s: Seq<char>) -> bool {
        parse_int(s, i16::MIN as int, i16::MAX as int) is Some
    }

    open spec fn rejects(s: Seq<char>) -> bool {
        parse_int(s, i16::MIN as int, i16::MAX as int) is None
    }

    open spec fn converts(s: Seq<char>, v: i16) -> bool {
        parse_int(s, i16::MIN as int, i16::MAX as int) == Some(v as int)
    }

    open spec fn fails_with(name: Seq<char>, s: Seq<char>, e: Error) -> bool {
        is_failure_of("i16"@, name, s, e)
    }

    fn from_env_str(s: EnvStrValue) -> (r: Result<i16>)
        ensures
            r is Ok <==> Self::accepts(s@),
    {
        match parse_int_exec(&s.chars(), i16::MAX as u128 + 1, i16::MAX as u128) {
            Some((neg, m)) => Ok(signed_value(neg, m) as i16),
            None => Err(conversion_failure(Self::type_text().as_str(), &s)),
        }
    }

    fn type_text() -> (r: String)
        ensures
            r@ == "i16"@,
    {
        String::from_str("i16")
    }
}

impl FromEnvStrValue for i32 {
    open spec fn accepts(s: Seq<char>) -> bool {
        parse_int(s, i32::MIN as int, i32::MAX as int) is Some
    }

    open spec fn rejects(s: Seq<char>) -> bool {
        parse_int(s, i32::MIN as int, i32::MAX as int) is None
    }

    open spec fn converts(s: Seq<char>, v: i32) -> bool {
        parse_int(s, i32::MIN as int, i32::MAX as int) == Some(v as int)
    }

    open spec fn fails_with(name: Seq<char>, s: Seq<char>, e: Error) -> bool {
        is_failure_of("i32"@, name, s, e)
    }

    fn from_env_str(s: EnvStrValue) -> (r: Result<i32>)
        ensures
            r is Ok <==> Self::accepts(s@),
    {
        match parse_int_exec(&s.chars(), i32::MAX as u128 + 1, i32::MAX as u128) {
            Some((neg, m)) => Ok(signed_value(neg, m) as i32),
            None => Err(conversion_failure(Self::type_text().as_str(), &s)),
        }
    }

    fn type_text() -> (r: String)
        ensures
            r@ == "i32"@,
    {
        String::from_str("i32")
    }
}

impl FromEnvStrValue for i64 {
    open spec fn accepts(s: Seq<char>) -> bool {
        parse_int(s, i64::MIN as int, i64::MAX as int) is Some
    }

    open spec fn rejects(s: Seq<char>) -> bool {
        parse_int(s, i64::MIN as int, i64::MAX as int) is None
    }

    open spec fn converts(s: Seq<char>, v: i64) -> bool {
        parse_int(s, i64::MIN as int, i64::MAX as int) == Some(v as int)
    }

    open spec fn fails_with(name: Seq<char>, s: Seq<char>, e: Error) -> bool {
        is_failure_of("i64"@, name, s, e)
    }

    fn from_env_str(s: EnvStrValue) -> (r: Result<i64>)
        ensures
            r is Ok <==> Self::accepts(s@),
    {
        match parse_int_exec(&s.chars(), i64::MAX as u128 + 1, i64::MAX as u128) {
            Some((neg, m)) => Ok(signed_value(neg, m) as i64),
            None => Err(conversion_failure(Self::type_text().as_str(), &s)),
        }
    }

    fn type_text() -> (r: String)
        ensures
            r@ == "i64"@,
    {
        String::from_str("i64")
    }
}

impl FromEnvStrValue for i128 {
    open spec fn accepts(s: Seq<char>) -> bool {
        parse_int(s, i128::MIN as int, i128::MAX as int) is Some
    }

    open spec fn rejects(s: Seq<char>) -> bool {
        parse_int(s, i128::MIN as int, i128::MAX as int) is None
    }

    open spec fn converts(s: Seq<char>, v: i128) -> bool {
        parse_int(s, i128::MIN as int, i128::MAX as int) == Some(v as int)
    }

    open spec fn fails_with(name: Seq<char>, s: Seq<char>, e: Error) -> bool {
        is_failure_of("i128"@, name, s, e)
    }

    fn from_env_str(s: EnvStrValue) -> (r: Result<i128>)
        ensures
            r is Ok <==> Self::accepts(s@),
    {
        match parse_int_exec(&s.chars(), i128::MAX as u128 + 1, i128::MAX as u128) {
            Some((neg, m)) => Ok(signed_value(neg, m) as i128),
            None => Err(conversion_failure(Self::type_text().as_str(), &s)),
        }
    }

    fn type_text() -> (r: String)
        ensures
            r@ == "i128"@,
    {
        String::from_str("i128")
    }
}

impl FromEnvStrValue for isize {
    open spec fn accepts(s: Seq<char>) -> bool {
        parse_int(s, isize::MIN as int, isize::MAX as int) is Some
    }

    open spec fn rejects(s: Seq<char>) -> bool {
        parse_int(s, isize::MIN as int, isize::MAX as int) is None
    }

    open spec fn converts(s: Seq<char>, v: isize) -> bool {
        parse_int(s, isize::MIN as int, isize::MAX as int) == Some(v as int)
    }

    open spec fn fails_with(name: Seq<char>, s: Seq<char>, e: Error) -> bool {
        is_failure_of("isize"@, name, s, e)
    }

    fn from_env_str(s: EnvStrValue) -> (r: Result<isize>)
        ensures
            r is Ok <==> Self::accepts(s@),
    {
        match parse_int_exec(&s.chars(), isize::MAX as u128 + 1, isize::MAX as u128) {
            Some((neg, m)) => Ok(signed_value(neg, m) as isize),
            None => Err(conversion_failure(Self::type_text().as_str(), &s)),
        }
    }

    fn type_text() -> (r: String)
        ensures
            r@ == "isize"@,
    {
        String::from_str("isize")
    }
}

/// The raw texts of the elements of `c`'s body between `open` and `close`,
/// or `None` where `c` is not bracketed so.
fn body_elem_texts(c: &Vec<char>, open: char, close: char) -> (r: Option<Vec<String>>)
    ensures
        match r {
            Some(t) => bracketed(c@, open, close) matches Some(b) && t@.len() == elems(b).len()
                && forall|i: int| 0 <= i < t@.len() ==> #[trigger] t@[i]@ == elems(b)[i],
            None => bracketed(c@, open, close) is None,
        },
{
    let (a, b) = match bracketed_range(c, open, close) {
        Some(range) => range,
        None => {
            return None;
        },
    };
    let body = string_of(c, a, b);
    let body = chars_of(body.as_str());
    let ranges = elem_ranges(&body);
    let ghost texts = elems(body@);
    assert(texts.len() == ranges.len());
    let mut out: Vec<String> = Vec::new();
    let mut i: usize = 0;
    while i < ranges.len()
        invariant
            i <= ranges.len(),
            texts == elems(body@),
            range_texts(body@, ranges@) == texts,
            forall|k: int|
                0 <= k < ranges.len() ==> (#[trigger] ranges@[k]).0 <= ranges@[k].1 && ranges@[k].1 <= body.len(),
            out.len() == i,
            forall|k: int| 0 <= k < i ==> #[trigger] out@[k]@ == texts[k],
        decreases ranges.len() - i,
    {
        let (x, y) = ranges[i];
        assert(range_texts(body@, ranges@)[i as int] == body@.subrange(x as int, y as int));
        out.push(string_of(&body, x, y));
        i = i + 1;
    }
    Some(out)
}

/// Converts the text `texts[i]`, normalized, into a `T`.
fn convert_at<T: FromEnvStrValue>(name: &'static str, texts: &Vec<String>, i: usize) -> (r: Result<T>)
    requires
        i < texts.len(),
    ensures
        T::accepts(normalize(texts@[i as int]@)) ==> r is Ok,
        T::rejects(normalize(texts@[i as int]@)) ==> r is Err,
        r matches Ok(v) ==> T::converts(normalize(texts@[i as int]@), v),
        r matches Err(e) ==> T::fails_with(name@, normalize(texts@[i as int]@), e),
{
    T::from_env_str(EnvStrValue::new(name, texts[i].as_str()))
}

impl<T: FromEnvStrValue> FromEnvStrValue for Vec<T> {
    open spec fn accepts(s: Seq<char>) -> bool {
        match bracketed(s, '[', ']') {
            Some(b) => all_accept::<T>(elems(b)),
            None => false,
        }
    }

    open spec fn rejects(s: Seq<char>) -> bool {
        match bracketed(s, '[', ']') {
            Some(b) => any_reject::<T>(elems(b)),
            None => true,
        }
    }

    open spec fn converts(s: Seq<char>, v: Vec<T>) -> bool {
        match bracketed(s, '[', ']') {
            Some(b) => all_convert::<T>(elems(b), v@),
            None => false,
        }
    }

    /// A list without brackets fails with a conversion error; a list with
    /// them fails only at an element, with that element's own error.
    open spec fn fails_with(name: Seq<char>, s: Seq<char>, e: Error) -> bool {
        match bracketed(s, '[', ']') {
            Some(b) => exists|i: int| #[trigger] fails_at::<T>(name, elems(b), i, e),
            None => is_failure(name, s, e),
        }
    }

    fn from_env_str(s: EnvStrValue) -> (r: Result<Vec<T>>)
    {
        let texts = match body_elem_texts(&s.chars(), '[', ']') {
            Some(t) => t,
            None => {
                return Err(Self::conversion_error(s));
            },
        };
        let ghost b = bracketed(s@, '[', ']')->0;
        let mut out: Vec<T> = Vec::new();
        let mut i: usize = 0;
        while i < texts.len()
            invariant
                i <= texts.len(),
                bracketed(s@, '[', ']') == Some(b),
                texts@.len() == elems(b).len(),
                forall|k: int| 0 <= k < texts@.len() ==> #[trigger] texts@[k]@ == elems(b)[k],
                out.len() == i,
                forall|k: int| 0 <= k < i ==> T::converts(normalize(elems(b)[k]), #[trigger] out@[k]),
                forall|k: int| 0 <= k < i ==> !T::rejects(normalize(#[trigger] elems(b)[k])),
            decreases texts.len() - i,
        {
            assert(texts@[i as int]@ == elems(b)[i as int]);
            match convert_at::<T>(s.name, &texts, i) {
                Ok(t) => {
                    out.push(t);
                },
                Err(e) => {
                    assert(!T::accepts(normalize(elems(b)[i as int])));
                    assert(fails_at::<T>(s.name_view(), elems(b), i as int, e));
                    return Err(e);
                },
            }
            i = i + 1;
        }
        assert(!any_reject::<T>(elems(b)));
        Ok(out)
    }

    fn type_text() -> String {
        generic_name("alloc::vec::Vec", T::type_text())
    }
}

/// Holds where converting the elements `es` of a list for the setting
/// `name` fails at the element `i` with `e`: no element before it is known
/// to fail, and `e` is an error of converting the element `i`.
pub open spec fn fails_at<T: FromEnvStrValue>(name: Seq<char>, es: Seq<Seq<char>>, i: int, e: Error) -> bool {
    &&& 0 <= i < es.len()
    &&& forall|k: int| 0 <= k < i ==> !T::rejects(normalize(#[trigger] es[k]))
    &&& T::fails_with(name, normalize(es[i]), e)
}

/// The map that inserting `ks[i] => vs[i]` for each `i` in turn gives: a
/// key that occurs more than once keeps its last value.
pub open spec fn map_of<K, V>(ks: Seq<K>, vs: Seq<V>) -> Map<K, V>
    decreases ks.len(),
{
    if ks.len() == 0 {
        Map::empty()
    } else {
        map_of(ks.drop_last(), vs.drop_last()).insert(ks.last(), vs.last())
    }
}

/// Holds where converting the entries `es` of a map for the setting `name`
/// fails at the entry `i` with `e`: no key or value before it is known to
/// fail, and `e` is an error of converting its key, or else of its value.
pub open spec fn entry_fails_at<K: FromEnvStrValue, V: FromEnvStrValue>(
    name: Seq<char>,
    es: Seq<(Seq<char>, Seq<char>)>,
    i: int,
    e: Error,
) -> bool {
    &&& 0 <= i < es.len()
    &&& forall|k: int|
        0 <= k < i ==> !K::rejects(normalize((#[trigger] es[k]).0)) && !V::rejects(
            normalize(es[k].1),
        )
    &&& (K::fails_with(name, normalize(es[i].0), e) || (!K::rejects(normalize(es[i].0))
        && V::fails_with(name, normalize(es[i].1), e)))
}

/// The key texts of map entries.
pub open spec fn keys_of(e: Seq<(Seq<char>, Seq<char>)>) -> Seq<Seq<char>> {
    e.map_values(|p: (Seq<char>, Seq<char>)| p.0)
}

/// The value texts of map entries.
pub open spec fn values_of(e: Seq<(Seq<char>, Seq<char>)>) -> Seq<Seq<char>> {
    e.map_values(|p: (Seq<char>, Seq<char>)| p.1)
}

/// In a map built by inserting pairs in turn, a key maps to the value of
/// the last pair with that key.
pub proof fn law_map_last_value_wins<K, V>(ks: Seq<K>, vs: Seq<V>, i: int)
    requires
        ks.len() == vs.len(),
        0 <= i < ks.len(),
        forall|j: int| i < j < ks.len() ==> ks[j] != ks[i],
    ensures
        map_of(ks, vs).contains_key(ks[i]),
        map_of(ks, vs)[ks[i]] == vs[i],
    decreases ks.len(),
{
    if i < ks.len() - 1 {
        let ks2 = ks.drop_last();
        let vs2 = vs.drop_last();
        assert(ks2[i] == ks[i]);
        assert forall|j: int| i < j < ks2.len() implies ks2[j] != ks2[i] by {
            assert(ks2[j] == ks[j]);
        }
        law_map_last_value_wins(ks2, vs2, i);
        assert(ks.last() != ks[i]);
    }
}

/// The texts `ts` written as an array of quoted strings, with `sep` (a
/// comma and any whitespace) between them.
pub open spec fn quoted_list_text(ts: Seq<Seq<char>>, sep: Seq<char>) -> Seq<char> {
    array_text_with(ts.map_values(|t: Seq<char>| quoted(t)), sep)
}

/// Texts without double quotes, written as an array of quoted strings,
/// convert into a `Vec<String>` that holds those texts, in order; an empty
/// list gives an empty vector.
pub proof fn law_string_list_round_trip(ts: Seq<Seq<char>>, sep: Seq<char>, v: Vec<String>)
    requires
        forall|i: int, k: int| 0 <= i < ts.len() && 0 <= k < ts[i].len() ==> #[trigger] ts[i][k] != '"',
        is_comma_sep(sep),
    ensures
        <Vec<String> as FromEnvStrValue>::accepts(quoted_list_text(ts, sep)),
        <Vec<String> as FromEnvStrValue>::converts(quoted_list_text(ts, sep), v) ==> {
            &&& v@.len() == ts.len()
            &&& forall|i: int| 0 <= i < ts.len() ==> #[trigger] v@[i]@ == ts[i]
        },
{
    let items = ts.map_values(|t: Seq<char>| quoted(t));
    assert forall|i: int| 0 <= i < items.len() implies is_token(#[trigger] items[i]) by {
        let t = ts[i];
        let q = items[i];
        assert(q == quoted(t));
        assert forall|k: int| 0 < k < q.len() - 1 implies #[trigger] q[k] != '"' by {
            assert(q[k] == t[k - 1]);
        }
        assert(is_quoted_token(q));
    }
    law_array_round_trip_with(items, sep);
    let e = Seq::<char>::empty();
    assert forall|i: int| 0 <= i < items.len() implies normalize(#[trigger] items[i]) == ts[i] by {
        law_quoted_text(e, ts[i], e);
        assert(e + quoted(ts[i]) + e =~= quoted(ts[i]));
    }
    assert(all_accept::<String>(elems(join_with(items, sep))));
}

impl<T: FromEnvStrValue + Eq + Hash> FromEnvStrValue for HashSet<T> {
    open spec fn accepts(s: Seq<char>) -> bool {
        <Vec<T> as FromEnvStrValue>::accepts(s)
    }

    open spec fn rejects(s: Seq<char>) -> bool {
        <Vec<T> as FromEnvStrValue>::rejects(s)
    }

    open spec fn converts(s: Seq<char>, v: HashSet<T>) -> bool {
        match bracketed(s, '[', ']') {
            Some(b) => exists|w: Seq<T>|
                #[trigger] all_convert::<T>(elems(b), w) && (obeys_key_model::<T>() ==> v@
                    == w.to_set()),
            None => false,
        }
    }

    /// The errors of the list conversion.
    open spec fn fails_with(name: Seq<char>, s: Seq<char>, e: Error) -> bool {
        <Vec<T> as FromEnvStrValue>::fails_with(name, s, e)
    }

    fn from_env_str(s: EnvStrValue) -> (r: Result<HashSet<T>>)
    {
        broadcast use vstd::std_specs::hash::group_hash_axioms;

        let ghost text = s@;
        let mut v = match <Vec<T> as FromEnvStrValue>::from_env_str(s) {
            Ok(v) => v,
            Err(e) => {
                return Err(e);
            },
        };
        let ghost w = v@;
        let mut set: HashSet<T> = HashSet::new();
        while v.len() > 0
            invariant
                obeys_key_model::<T>() ==> set@ + v@.to_set() == w.to_set(),
            decreases v.len(),
        {
            let ghost before = v@;
            match v.pop() {
                Some(x) => {
                    set.insert(x);
                    assert(before.to_set() =~= v@.to_set().insert(x)) by {
                        assert forall|y: T| #[trigger] before.contains(y) implies v@.contains(y)
                            || y == x by {
                            let k = choose|k: int| 0 <= k < before.len() && before[k] == y;
                            if k < before.len() - 1 {
                                assert(v@[k] == y);
                            }
                        }
                        assert forall|y: T| #[trigger] v@.contains(y) implies before.contains(y) by {
                            let k = choose|k: int| 0 <= k < v@.len() && v@[k] == y;
                            assert(before[k] == y);
                        }
                        assert(before.contains(x)) by {
                            assert(before[before.len() - 1] == x);
                        }
                    }
                    assert(obeys_key_model::<T>() ==> set@ + v@.to_set() =~= w.to_set());
                },
                None => {},
            }
        }
        assert(v@.to_set() =~= Set::<T>::empty());
        assert(obeys_key_model::<T>() ==> set@ =~= w.to_set());
        assert(all_convert::<T>(elems(bracketed(text, '[', ']')->0), w));
        Ok(set)
    }

    fn type_text() -> String {
        generic_name("std::collections::hash::set::HashSet", T::type_text())
    }
}

/// A set converts exactly when the list written the same way converts,
/// fails with the same errors, and holds the elements that the list would
/// hold, each once.
pub proof fn law_set_follows_list<T: FromEnvStrValue + Eq + Hash>(
    name: Seq<char>,
    s: Seq<char>,
    e: Error,
    h: HashSet<T>,
)
    ensures
        <HashSet<T> as FromEnvStrValue>::accepts(s) == <Vec<T> as FromEnvStrValue>::accepts(s),
        <HashSet<T> as FromEnvStrValue>::rejects(s) == <Vec<T> as FromEnvStrValue>::rejects(s),
        <HashSet<T> as FromEnvStrValue>::fails_with(name, s, e) == <Vec<
            T,
        > as FromEnvStrValue>::fails_with(name, s, e),
        <HashSet<T> as FromEnvStrValue>::converts(s, h) <==> (bracketed(s, '[', ']') matches Some(
            b,
        ) && exists|w: Seq<T>|
            #[trigger] all_convert::<T>(elems(b), w) && (obeys_key_model::<T>() ==> h@
                == w.to_set())),
{
}

/// The raw key and value texts of the entries of `c`'s body between `{`
/// and `}`, or `None` where `c` is not bracketed so.
fn body_entry_texts(c: &Vec<char>) -> (r: Option<Vec<(String, String)>>)
    ensures
        match r {
            Some(t) => bracketed(c@, '{', '}') matches Some(b) && t@.len() == entries(b).len()
                && forall|i: int|
                    0 <= i < t@.len() ==> #[trigger] t@[i].0@ == entries(b)[i].0 && t@[i].1@
                        == entries(b)[i].1,
            None => bracketed(c@, '{', '}') is None,
        },
{
    let (a, b) = match bracketed_range(c, '{', '}') {
        Some(range) => range,
        None => {
            return None;
        },
    };
    let body = string_of(c, a, b);
    let body = chars_of(body.as_str());
    let ranges = entry_ranges(&body);
    let ghost texts = entries(body@);
    assert(texts.len() == ranges.len());
    let mut out: Vec<(String, String)> = Vec::new();
    let mut i: usize = 0;
    while i < ranges.len()
        invariant
            i <= ranges.len(),
            texts == entries(body@),
            entry_texts(body@, ranges@) == texts,
            forall|k: int|
                0 <= k < ranges.len() ==> (#[trigger] ranges@[k]).0 <= ranges@[k].1 && ranges@[k].1 <= body.len()
                    && ranges@[k].2 <= ranges@[k].3 <= body.len(),
            out.len() == i,
            forall|k: int|
                0 <= k < i ==> #[trigger] out@[k].0@ == texts[k].0 && out@[k].1@ == texts[k].1,
        decreases ranges.len() - i,
    {
        let (ks, ke, vs, ve) = ranges[i];
        assert(entry_texts(body@, ranges@)[i as int] == (
            body@.subrange(ks as int, ke as int),
            body@.subrange(vs as int, ve as int),
        ));
        out.push((string_of(&body, ks, ke), string_of(&body, vs, ve)));
        i = i + 1;
    }
    Some(out)
}

impl<K: FromEnvStrValue + Eq + Hash, V: FromEnvStrValue> FromEnvStrValue for HashMap<K, V> {
    open spec fn accepts(s: Seq<char>) -> bool {
        match bracketed(s, '{', '}') {
            Some(b) => all_accept::<K>(keys_of(entries(b))) && all_accept::<V>(
                values_of(entries(b)),
            ),
            None => false,
        }
    }

    open spec fn rejects(s: Seq<char>) -> bool {
        match bracketed(s, '{', '}') {
            Some(b) => any_reject::<K>(keys_of(entries(b))) || any_reject::<V>(
                values_of(entries(b)),
            ),
            None => true,
        }
    }

    open spec fn converts(s: Seq<char>, m: HashMap<K, V>) -> bool {
        match bracketed(s, '{', '}') {
            Some(b) => exists|ks: Seq<K>, vs: Seq<V>|
                #[trigger] all_convert::<K>(keys_of(entries(b)), ks) && #[trigger] all_convert::<V>(
                    values_of(entries(b)),
                    vs,
                ) && (obeys_key_model::<K>() ==> m@ == map_of(ks, vs)),
            None => false,
        }
    }

    /// A map without braces fails with a conversion error; a map with them
    /// fails only at an entry, with the error of its key, or else of its
    /// value.
    open spec fn fails_with(name: Seq<char>, s: Seq<char>, e: Error) -> bool {
        match bracketed(s, '{', '}') {
            Some(b) => exists|i: int| #[trigger] entry_fails_at::<K, V>(name, entries(b), i, e),
            None => is_failure(name, s, e),
        }
    }

    fn from_env_str(s: EnvStrValue) -> (r: Result<HashMap<K, V>>)
    {
        broadcast use vstd::std_specs::hash::group_hash_axioms;

        let texts = match body_entry_texts(&s.chars()) {
            Some(t) => t,
            None => {
                return Err(Self::conversion_error(s));
            },
        };
        let ghost b = bracketed(s@, '{', '}')->0;
        let ghost e = entries(b);
        let ghost mut ks: Seq<K> = Seq::empty();
        let ghost mut vs: Seq<V> = Seq::empty();
        let mut m: HashMap<K, V> = HashMap::new();
        let mut i: usize = 0;
        while i < texts.len()
            invariant
                i <= texts.len(),
                bracketed(s@, '{', '}') == Some(b),
                e == entries(b),
                texts@.len() == e.len(),
                forall|k: int|
                    0 <= k < texts@.len() ==> #[trigger] texts@[k].0@ == e[k].0 && texts@[k].1@
                        == e[k].1,
                ks.len() == i,
                vs.len() == i,
                forall|k: int| 0 <= k < i ==> K::converts(normalize(e[k].0), #[trigger] ks[k]),
                forall|k: int| 0 <= k < i ==> V::converts(normalize(e[k].1), #[trigger] vs[k]),
                forall|k: int| 0 <= k < i ==> !K::rejects(normalize(#[trigger] e[k].0)),
                forall|k: int| 0 <= k < i ==> !V::rejects(normalize(#[trigger] e[k].1)),
                obeys_key_model::<K>() ==> m@ == map_of(ks, vs),
            decreases texts.len() - i,
        {
            assert(texts@[i as int].0@ == e[i as int].0);
            let key = match K::from_env_str(EnvStrValue::new(s.name, texts[i].0.as_str())) {
                Ok(k) => k,
                Err(err) => {
                    assert(keys_of(e)[i as int] == e[i as int].0);
                    assert(!K::accepts(normalize(keys_of(e)[i as int])));
                    assert(entry_fails_at::<K, V>(s.name_view(), e, i as int, err));
                    return Err(err);
                },
            };
            let value = match V::from_env_str(EnvStrValue::new(s.name, texts[i].1.as_str())) {
                Ok(v) => v,
                Err(err) => {
                    assert(values_of(e)[i as int] == e[i as int].1);
                    assert(!V::accepts(normalize(values_of(e)[i as int])));
                    assert(entry_fails_at::<K, V>(s.name_view(), e, i as int, err));
                    return Err(err);
                },
            };
            proof {
                let ks2 = ks.push(key);
                let vs2 = vs.push(value);
                assert(ks2.drop_last() =~= ks);
                assert(vs2.drop_last() =~= vs);
                ks = ks2;
                vs = vs2;
            }
            m.insert(key, value);
            i = i + 1;
        }
        assert(!any_reject::<K>(keys_of(e))) by {
            assert forall|k: int| 0 <= k < keys_of(e).len() implies !K::rejects(
                normalize(#[trigger] keys_of(e)[k]),
            ) by {
                assert(keys_of(e)[k] == e[k].0);
            }
        }
        assert(!any_reject::<V>(values_of(e))) by {
            assert forall|k: int| 0 <= k < values_of(e).len() implies !V::rejects(
                normalize(#[trigger] values_of(e)[k]),
            ) by {
                assert(values_of(e)[k] == e[k].1);
            }
        }
        assert(all_convert::<K>(keys_of(e), ks));
        assert(all_convert::<V>(values_of(e), vs));
        Ok(m)
    }

    fn type_text() -> String {
        let mut params = K::type_text();
        params.append(", ");
        let v = V::type_text();
        params.append(v.as_str());
        generic_name("std::collections::hash::map::HashMap", params)
    }
}

impl<T1: FromEnvStrValue, T2: FromEnvStrValue> FromEnvStrValue for (T1, T2) {
    open spec fn accepts(s: Seq<char>) -> bool {
        match bracketed(s, '(', ')') {
            Some(b) => {
                &&& elems(b).len() >= 2
                &&& T1::accepts(normalize(elems(b)[0]))
                &&& T2::accepts(normalize(elems(b)[1]))
            },
            None => false,
        }
    }

    open spec fn rejects(s: Seq<char>) -> bool {
        match bracketed(s, '(', ')') {
            Some(b) => elems(b).len() < 2 || T1::rejects(normalize(elems(b)[0])) || T2::rejects(normalize(elems(b)[1])),
            None => true,
        }
    }

    open spec fn converts(s: Seq<char>, v: (T1, T2)) -> bool {
        match bracketed(s, '(', ')') {
            Some(b) => {
                &&& elems(b).len() >= 2
                &&& T1::converts(normalize(elems(b)[0]), v.0)
                &&& T2::converts(normalize(elems(b)[1]), v.1)
            },
            None => false,
        }
    }

    /// A tuple without parentheses, or with too few elements, fails with a
    /// conversion error; otherwise it fails only at an element, with that
    /// element's own error.
    open spec fn fails_with(name: Seq<char>, s: Seq<char>, e: Error) -> bool {
        match bracketed(s, '(', ')') {
            Some(b) => {
                let es = elems(b);
                ||| (es.len() == 0 && is_failure(name, s, e))
                ||| (es.len() > 0 && T1::fails_with(name, normalize(es[0]), e))
                ||| (!T1::rejects(normalize(es[0])) && es.len() == 1 && is_failure(name, s, e))
                ||| (!T1::rejects(normalize(es[0])) && es.len() > 1 && T2::fails_with(name, normalize(es[1]), e))
            },
            None => is_failure(name, s, e),
        }
    }

    fn from_env_str(s: EnvStrValue) -> (r: Result<(T1, T2)>) {
        let texts = match body_elem_texts(&s.chars(), '(', ')') {
            Some(t) => t,
            None => {
                return Err(Self::conversion_error(s));
            },
        };
        let ghost b = bracketed(s@, '(', ')')->0;
        assert(forall|k: int| 0 <= k < texts@.len() ==> #[trigger] texts@[k]@ == elems(b)[k]);
        if texts.len() <= 0 {
            return Err(Self::conversion_error(s));
        }
        let v0 = match convert_at::<T1>(s.name, &texts, 0) {
            Ok(v) => v,
            Err(e) => {
                return Err(e);
            },
        };
        if texts.len() <= 1 {
            return Err(Self::conversion_error(s));
        }
        let v1 = match convert_at::<T2>(s.name, &texts, 1) {
            Ok(v) => v,
            Err(e) => {
                return Err(e);
            },
        };
        Ok((v0, v1))
    }

    fn type_text() -> String {
        let mut r = String::from_str("(");
        let t = T1::type_text();
        r.append(t.as_str());
        r.append(", ");
        let t = T2::type_text();
        r.append(t.as_str());
        r.append(")");
        r
    }
}

impl<T1: FromEnvStrValue, T2: FromEnvStrValue, T3: FromEnvStrValue> FromEnvStrValue for (T1, T2, T3) {
    open spec fn accepts(s: Seq<char>) -> bool {
        match bracketed(s, '(', ')') {
            Some(b) => {
                &&& elems(b).len() >= 3
                &&& T1::accepts(normalize(elems(b)[0]))
                &&& T2::accepts(normalize(elems(b)[1]))
                &&& T3::accepts(normalize(elems(b)[2]))
            },
            None => false,
        }
    }

    open spec fn rejects(s: Seq<char>) -> bool {
        match bracketed(s, '(', ')') {
            Some(b) => elems(b).len() < 3 || T1::rejects(normalize(elems(b)[0])) || T2::rejects(normalize(elems(b)[1])) || T3::rejects(normalize(elems(b)[2])),
            None => true,
        }
    }

    open spec fn converts(s: Seq<char>, v: (T1, T2, T3)) -> bool {
        match bracketed(s, '(', ')') {
            Some(b) => {
                &&& elems(b).len() >= 3
                &&& T1::converts(normalize(elems(b)[0]), v.0)
                &&& T2::converts(normalize(elems(b)[1]), v.1)
                &&& T3::converts(normalize(elems(b)[2]), v.2)
            },
            None => false,
        }
    }

    /// A tuple without parentheses, or with too few elements, fails with a
    /// conversion error; otherwise it fails only at an element, with that
    /// element's own error.
    open spec fn fails_with(name: Seq<char>, s: Seq<char>, e: Error) -> bool {
        match bracketed(s, '(', ')') {
            Some(b) => {
                let es = elems(b);
                ||| (es.len() == 0 && is_failure(name, s, e))
                ||| (es.len() > 0 && T1::fails_with(name, normalize(es[0]), e))
                ||| (!T1::rejects(normalize(es[0])) && es.len() == 1 && is_failure(name, s, e))
                ||| (!T1::rejects(normalize(es[0])) && es.len() > 1 && T2::fails_with(name, normalize(es[1]), e))
                ||| (!T1::rejects(normalize(es[0])) && !T2::rejects(normalize(es[1])) && es.len() == 2 && is_failure(name, s, e))
                ||| (!T1::rejects(normalize(es[0])) && !T2::rejects(normalize(es[1])) && es.len() > 2 && T3::fails_with(name, normalize(es[2]), e))
            },
            None => is_failure(name, s, e),
        }
    }

    fn from_env_str(s: EnvStrValue) -> (r: Result<(T1, T2, T3)>) {
        let texts = match body_elem_texts(&s.chars(), '(', ')') {
            Some(t) => t,
            None => {
                return Err(Self::conversion_error(s));
            },
        };
        let ghost b = bracketed(s@, '(', ')')->0;
        assert(forall|k: int| 0 <= k < texts@.len() ==> #[trigger] texts@[k]@ == elems(b)[k]);
        if texts.len() <= 0 {
            return Err(Self::conversion_error(s));
        }
        let v0 = match convert_at::<T1>(s.name, &texts, 0) {
            Ok(v) => v,
            Err(e) => {
                return Err(e);
            },
        };
        if texts.len() <= 1 {
            return Err(Self::conversion_error(s));
        }
        let v1 = match convert_at::<T2>(s.name, &texts, 1) {
            Ok(v) => v,
            Err(e) => {
                return Err(e);
            },
        };
        if texts.len() <= 2 {
            return Err(Self::conversion_error(s));
        }
        let v2 = match convert_at::<T3>(s.name, &texts, 2) {
            Ok(v) => v,
            Err(e) => {
                return Err(e);
            },
        };
        Ok((v0, v1, v2))
    }

    fn type_text() -> String {
        let mut r = String::from_str("(");
        let t = T1::type_text();
        r.append(t.as_str());
        r.append(", ");
        let t = T2::type_text();
        r.append(t.as_str());
        r.append(", ");
        let t = T3::type_text();
        r.append(t.as_str());
        r.append(")");
        r
    }
}

impl<T1: FromEnvStrValue, T2: FromEnvStrValue, T3: FromEnvStrValue, T4: FromEnvStrValue> FromEnvStrValue for (T1, T2, T3, T4) {
    open spec fn accepts(s: Seq<char>) -> bool {
        match bracketed(s, '(', ')') {
            Some(b) => {
                &&& elems(b).len() >= 4
                &&& T1::accepts(normalize(elems(b)[0]))
                &&& T2::accepts(normalize(elems(b)[1]))
                &&& T3::accepts(normalize(elems(b)[2]))
                &&& T4::accepts(normalize(elems(b)[3]))
            },
            None => false,
        }
    }

    open spec fn rejects(s: Seq<char>) -> bool {
        match bracketed(s, '(', ')') {
            Some(b) => elems(b).len() < 4 || T1::rejects(normalize(elems(b)[0])) || T2::rejects(normalize(elems(b)[1])) || T3::rejects(normalize(elems(b)[2])) || T4::rejects(normalize(elems(b)[3])),
            None => true,
        }
    }

    open spec fn converts(s: Seq<char>, v: (T1, T2, T3, T4)) -> bool {
        match bracketed(s, '(', ')') {
            Some(b) => {
                &&& elems(b).len() >= 4
                &&& T1::converts(normalize(elems(b)[0]), v.0)
                &&& T2::converts(normalize(elems(b)[1]), v.1)
                &&& T3::converts(normalize(elems(b)[2]), v.2)
                &&& T4::converts(normalize(elems(b)[3]), v.3)
            },
            None => false,
        }
    }

    /// A tuple without parentheses, or with too few elements, fails with a
    /// conversion error; otherwise it fails only at an element, with that
    /// element's own error.
    open spec fn fails_with(name: Seq<char>, s: Seq<char>, e: Error) -> bool {
        match bracketed(s, '(', ')') {
            Some(b) => {
                let es = elems(b);
                ||| (es.len() == 0 && is_failure(name, s, e))
                ||| (es.len() > 0 && T1::fails_with(name, normalize(es[0]), e))
                ||| (!T1::rejects(normalize(es[0])) && es.len() == 1 && is_failure(name, s, e))
                ||| (!T1::rejects(normalize(es[0])) && es.len() > 1 && T2::fails_with(name, normalize(es[1]), e))
                ||| (!T1::rejects(normalize(es[0])) && !T2::rejects(normalize(es[1])) && es.len() == 2 && is_failure(name, s, e))
                ||| (!T1::rejects(normalize(es[0])) && !T2::rejects(normalize(es[1])) && es.len() > 2 && T3::fails_with(name, normalize(es[2]), e))
                ||| (!T1::rejects(normalize(es[0])) && !T2::rejects(normalize(es[1])) && !T3::rejects(normalize(es[2])) && es.len() == 3 && is_failure(name, s, e))
                ||| (!T1::rejects(normalize(es[0])) && !T2::rejects(normalize(es[1])) && !T3::rejects(normalize(es[2])) && es.len() > 3 && T4::fails_with(name, normalize(es[3]), e))
            },
            None => is_failure(name, s, e),
        }
    }

    fn from_env_str(s: EnvStrValue) -> (r: Result<(T1, T2, T3, T4)>) {
        let texts = match body_elem_texts(&s.chars(), '(', ')') {
            Some(t) => t,
            None => {
                return Err(Self::conversion_error(s));
            },
        };
        let ghost b = bracketed(s@, '(', ')')->0;
        assert(forall|k: int| 0 <= k < texts@.len() ==> #[trigger] texts@[k]@ == elems(b)[k]);
        if texts.len() <= 0 {
            return Err(Self::conversion_error(s));
        }
        let v0 = match convert_at::<T1>(s.name, &texts, 0) {
            Ok(v) => v,
            Err(e) => {
                return Err(e);
            },
        };
        if texts.len() <= 1 {
            return Err(Self::conversion_error(s));
        }
        let v1 = match convert_at::<T2>(s.name, &texts, 1) {
            Ok(v) => v,
            Err(e) => {
                return Err(e);
            },
        };
        if texts.len() <= 2 {
            return Err(Self::conversion_error(s));
        }
        let v2 = match convert_at::<T3>(s.name, &texts, 2) {
            Ok(v) => v,
            Err(e) => {
                return Err(e);
            },
        };
        if texts.len() <= 3 {
            return Err(Self::conversion_error(s));
        }
        let v3 = match convert_at::<T4>(s.name, &texts, 3) {
            Ok(v) => v,
            Err(e) => {
                return Err(e);
            },
        };
        Ok((v0, v1, v2, v3))
    }

    fn type_text() -> String {
        let mut r = String::from_str("(");
        let t = T1::type_text();
        r.append(t.as_str());
        r.append(", ");
        let t = T2::type_text();
        r.append(t.as_str());
        r.append(", ");
        let t = T3::type_text();
        r.append(t.as_str());
        r.append(", ");
        let t = T4::type_text();
        r.append(t.as_str());
        r.append(")");
        r
    }
}

impl<T1: FromEnvStrValue, T2: FromEnvStrValue, T3: FromEnvStrValue, T4: FromEnvStrValue, T5: FromEnvStrValue> FromEnvStrValue for (T1, T2, T3, T4, T5) {
    open spec fn accepts(s: Seq<char>) -> bool {
        match bracketed(s, '(', ')') {
            Some(b) => {
                &&& elems(b).len() >= 5
                &&& T1::accepts(normalize(elems(b)[0]))
                &&& T2::accepts(normalize(elems(b)[1]))
                &&& T3::accepts(normalize(elems(b)[2]))
                &&& T4::accepts(normalize(elems(b)[3]))
                &&& T5::accepts(normalize(elems(b)[4]))
            },
            None => false,
        }
    }

    open spec fn rejects(s: Seq<char>) -> bool {
        match bracketed(s, '(', ')') {
            Some(b) => elems(b).len() < 5 || T1::rejects(normalize(elems(b)[0])) || T2::rejects(normalize(elems(b)[1])) || T3::rejects(normalize(elems(b)[2])) || T4::rejects(normalize(elems(b)[3])) || T5::rejects(normalize(elems(b)[4])),
            None => true,
        }
    }

    open spec fn converts(s: Seq<char>, v: (T1, T2, T3, T4, T5)) -> bool {
        match bracketed(s, '(', ')') {
            Some(b) => {
                &&& elems(b).len() >= 5
                &&& T1::converts(normalize(elems(b)[0]), v.0)
                &&& T2::converts(normalize(elems(b)[1]), v.1)
                &&& T3::converts(normalize(elems(b)[2]), v.2)
                &&& T4::converts(normalize(elems(b)[3]), v.3)
                &&& T5::converts(normalize(elems(b)[4]), v.4)
            },
            None => false,
        }
    }

    /// A tuple without parentheses, or with too few elements, fails with a
    /// conversion error; otherwise it fails only at an element, with that
    /// element's own error.
    open spec fn fails_with(name: Seq<char>, s: Seq<char>, e: Error) -> bool {
        match bracketed(s, '(', ')') {
            Some(b) => {
                let es = elems(b);
                ||| (es.len() == 0 && is_failure(name, s, e))
                ||| (es.len() > 0 && T1::fails_with(name, normalize(es[0]), e))
                ||| (!T1::rejects(normalize(es[0])) && es.len() == 1 && is_failure(name, s, e))
                ||| (!T1::rejects(normalize(es[0])) && es.len() > 1 && T2::fails_with(name, normalize(es[1]), e))
                ||| (!T1::rejects(normalize(es[0])) && !T2::rejects(normalize(es[1])) && es.len() == 2 && is_failure(name, s, e))
                ||| (!T1::rejects(normalize(es[0])) && !T2::rejects(normalize(es[1])) && es.len() > 2 && T3::fails_with(name, normalize(es[2]), e))
                ||| (!T1::rejects(normalize(es[0])) && !T2::rejects(normalize(es[1])) && !T3::rejects(normalize(es[2])) && es.len() == 3 && is_failure(name, s, e))
                ||| (!T1::rejects(normalize(es[0])) && !T2::rejects(normalize(es[1])) && !T3::rejects(normalize(es[2])) && es.len() > 3 && T4::fails_with(name, normalize(es[3]), e))
                ||| (!T1::rejects(normalize(es[0])) && !T2::rejects(normalize(es[1])) && !T3::rejects(normalize(es[2])) && !T4::rejects(normalize(es[3])) && es.len() == 4 && is_failure(name, s, e))
                ||| (!T1::rejects(normalize(es[0])) && !T2::rejects(normalize(es[1])) && !T3::rejects(normalize(es[2])) && !T4::rejects(normalize(es[3])) && es.len() > 4 && T5::fails_with(name, normalize(es[4]), e))
            },
            None => is_failure(name, s, e),
        }
    }

    fn from_env_str(s: EnvStrValue) -> (r: Result<(T1, T2, T3, T4, T5)>) {
        let texts = match body_elem_texts(&s.chars(), '(', ')') {
            Some(t) => t,
            None => {
                return Err(Self::conversion_error(s));
            },
        };
        let ghost b = bracketed(s@, '(', ')')->0;
        assert(forall|k: int| 0 <= k < texts@.len() ==> #[trigger] texts@[k]@ == elems(b)[k]);
        if texts.len() <= 0 {
            return Err(Self::conversion_error(s));
        }
        let v0 = match convert_at::<T1>(s.name, &texts, 0) {
            Ok(v) => v,
            Err(e) => {
                return Err(e);
            },
        };
        if texts.len() <= 1 {
            return Err(Self::conversion_error(s));
        }
        let v1 = match convert_at::<T2>(s.name, &texts, 1) {
            Ok(v) => v,
            Err(e) => {
                return Err(e);
            },
        };
        if texts.len() <= 2 {
            return Err(Self::conversion_error(s));
        }
        let v2 = match convert_at::<T3>(s.name, &texts, 2) {
            Ok(v) => v,
            Err(e) => {
                return Err(e);
            },
        };
        if texts.len() <= 3 {
            return Err(Self::conversion_error(s));
        }
        let v3 = match convert_at::<T4>(s.name, &texts, 3) {
            Ok(v) => v,
            Err(e) => {
                return Err(e);
            },
        };
        if texts.len() <= 4 {
            return Err(Self::conversion_error(s));
        }
        let v4 = match convert_at::<T5>(s.name, &texts, 4) {
            Ok(v) => v,
            Err(e) => {
                return Err(e);
            },
        };
        Ok((v0, v1, v2, v3, v4))
    }

    fn type_text() -> String {
        let mut r = String::from_str("(");
        let t = T1::type_text();
        r.append(t.as_str());
        r.append(", ");
        let t = T2::type_text();
        r.append(t.as_str());
        r.append(", ");
        let t = T3::type_text();
        r.append(t.as_str());
        r.append(", ");
        let t = T4::type_text();
        r.append(t.as_str());
        r.append(", ");
        let t = T5::type_text();
        r.append(t.as_str());
        r.append(")");
        r
    }
}

impl<T1: FromEnvStrValue, T2: FromEnvStrValue, T3: FromEnvStrValue, T4: FromEnvStrValue, T5: FromEnvStrValue, T6: FromEnvStrValue> FromEnvStrValue for (T1, T2, T3, T4, T5, T6) {
    open spec fn accepts(s: Seq<char>) -> bool {
        match bracketed(s, '(', ')') {
            Some(b) => {
                &&& elems(b).len() >= 6
                &&& T1::accepts(normalize(elems(b)[0]))
                &&& T2::accepts(normalize(elems(b)[1]))
                &&& T3::accepts(normalize(elems(b)[2]))
                &&& T4::accepts(normalize(elems(b)[3]))
                &&& T5::accepts(normalize(elems(b)[4]))
                &&& T6::accepts(normalize(elems(b)[5]))
            },
            None => false,
        }
    }

    open spec fn rejects(s: Seq<char>) -> bool {
        match bracketed(s, '(', ')') {
            Some(b) => elems(b).len() < 6 || T1::rejects(normalize(elems(b)[0])) || T2::rejects(normalize(elems(b)[1])) || T3::rejects(normalize(elems(b)[2])) || T4::rejects(normalize(elems(b)[3])) || T5::rejects(normalize(elems(b)[4])) || T6::rejects(normalize(elems(b)[5])),
            None => true,
        }
    }

    open spec fn converts(s: Seq<char>, v: (T1, T2, T3, T4, T5, T6)) -> bool {
        match bracketed(s, '(', ')') {
            Some(b) => {
                &&& elems(b).len() >= 6
                &&& T1::converts(normalize(elems(b)[0]), v.0)
                &&& T2::converts(normalize(elems(b)[1]), v.1)
                &&& T3::converts(normalize(elems(b)[2]), v.2)
                &&& T4::converts(normalize(elems(b)[3]), v.3)
                &&& T5::converts(normalize(elems(b)[4]), v.4)
                &&& T6::converts(normalize(elems(b)[5]), v.5)
            },
            None => false,
        }
    }

    /// A tuple without parentheses, or with too few elements, fails with a
    /// conversion error; otherwise it fails only at an element, with that
    /// element's own error.
    open spec fn fails_with(name: Seq<char>, s: Seq<char>, e: Error) -> bool {
        match bracketed(s, '(', ')') {
            Some(b) => {
                let es = elems(b);
                ||| (es.len() == 0 && is_failure(name, s, e))
                ||| (es.len() > 0 && T1::fails_with(name, normalize(es[0]), e))
                ||| (!T1::rejects(normalize(es[0])) && es.len() == 1 && is_failure(name, s, e))
                ||| (!T1::rejects(normalize(es[0])) && es.len() > 1 && T2::fails_with(name, normalize(es[1]), e))
                ||| (!T1::rejects(normalize(es[0])) && !T2::rejects(normalize(es[1])) && es.len() == 2 && is_failure(name, s, e))
                ||| (!T1::rejects(normalize(es[0])) && !T2::rejects(normalize(es[1])) && es.len() > 2 && T3::fails_with(name, normalize(es[2]), e))
                ||| (!T1::rejects(normalize(es[0])) && !T2::rejects(normalize(es[1])) && !T3::rejects(normalize(es[2])) && es.len() == 3 && is_failure(name, s, e))
                ||| (!T1::rejects(normalize(es[0])) && !T2::rejects(normalize(es[1])) && !T3::rejects(normalize(es[2])) && es.len() > 3 && T4::fails_with(name, normalize(es[3]), e))
                ||| (!T1::rejects(normalize(es[0])) && !T2::rejects(normalize(es[1])) && !T3::rejects(normalize(es[2])) && !T4::rejects(normalize(es[3])) && es.len() == 4 && is_failure(name, s, e))
                ||| (!T1::rejects(normalize(es[0])) && !T2::rejects(normalize(es[1])) && !T3::rejects(normalize(es[2])) && !T4::rejects(normalize(es[3])) && es.len() > 4 && T5::fails_with(name, normalize(es[4]), e))
                ||| (!T1::rejects(normalize(es[0])) && !T2::rejects(normalize(es[1])) && !T3::rejects(normalize(es[2])) && !T4::rejects(normalize(es[3])) && !T5::rejects(normalize(es[4])) && es.len() == 5 && is_failure(name, s, e))
                ||| (!T1::rejects(normalize(es[0])) && !T2::rejects(normalize(es[1])) && !T3::rejects(normalize(es[2])) && !T4::rejects(normalize(es[3])) && !T5::rejects(normalize(es[4])) && es.len() > 5 && T6::fails_with(name, normalize(es[5]), e))
            },
            None => is_failure(name, s, e),
        }
    }

    fn from_env_str(s: EnvStrValue) -> (r: Result<(T1, T2, T3, T4, T5, T6)>) {
        let texts = match body_elem_texts(&s.chars(), '(', ')') {
            Some(t) => t,
            None => {
                return Err(Self::conversion_error(s));
            },
        };
        let ghost b = bracketed(s@, '(', ')')->0;
        assert(forall|k: int| 0 <= k < texts@.len() ==> #[trigger] texts@[k]@ == elems(b)[k]);
        if texts.len() <= 0 {
            return Err(Self::conversion_error(s));
        }
        let v0 = match convert_at::<T1>(s.name, &texts, 0) {
            Ok(v) => v,
            Err(e) => {
                return Err(e);
            },
        };
        if texts.len() <= 1 {
            return Err(Self::conversion_error(s));
        }
        let v1 = match convert_at::<T2>(s.name, &texts, 1) {
            Ok(v) => v,
            Err(e) => {
                return Err(e);
            },
        };
        if texts.len() <= 2 {
            return Err(Self::conversion_error(s));
        }
        let v2 = match convert_at::<T3>(s.name, &texts, 2) {
            Ok(v) => v,
            Err(e) => {
                return Err(e);
            },
        };
        if texts.len() <= 3 {
            return Err(Self::conversion_error(s));
        }
        let v3 = match convert_at::<T4>(s.name, &texts, 3) {
            Ok(v) => v,
            Err(e) => {
                return Err(e);
            },
        };
        if texts.len() <= 4 {
            return Err(Self::conversion_error(s));
        }
        let v4 = match convert_at::<T5>(s.name, &texts, 4) {
            Ok(v) => v,
            Err(e) => {
                return Err(e);
            },
        };
        if texts.len() <= 5 {
            return Err(Self::conversion_error(s));
        }
        let v5 = match convert_at::<T6>(s.name, &texts, 5) {
            Ok(v) => v,
            Err(e) => {
                return Err(e);
            },
        };
        Ok((v0, v1, v2, v3, v4, v5))
    }

    fn type_text() -> String {
        let mut r = String::from_str("(");
        let t = T1::type_text();
        r.append(t.as_str());
        r.append(", ");
        let t = T2::type_text();
        r.append(t.as_str());
        r.append(", ");
        let t = T3::type_text();
        r.append(t.as_str());
        r.append(", ");
        let t = T4::type_text();
        r.append(t.as_str());
        r.append(", ");
        let t = T5::type_text();
        r.append(t.as_str());
        r.append(", ");
        let t = T6::type_text();
        r.append(t.as_str());
        r.append(")");
        r
    }
}

impl<T1: FromEnvStrValue, T2: FromEnvStrValue, T3: FromEnvStrValue, T4: FromEnvStrValue, T5: FromEnvStrValue, T6: FromEnvStrValue, T7: FromEnvStrValue> FromEnvStrValue for (T1, T2, T3, T4, T5, T6, T7) {
    open spec fn accepts(s: Seq<char>) -> bool {
        match bracketed(s, '(', ')') {
            Some(b) => {
                &&& elems(b).len() >= 7
                &&& T1::accepts(normalize(elems(b)[0]))
                &&& T2::accepts(normalize(elems(b)[1]))
                &&& T3::accepts(normalize(elems(b)[2]))
                &&& T4::accepts(normalize(elems(b)[3]))
                &&& T5::accepts(normalize(elems(b)[4]))
                &&& T6::accepts(normalize(elems(b)[5]))
                &&& T7::accepts(normalize(elems(b)[6]))
            },
            None => false,
        }
    }

    open spec fn rejects(s: Seq<char>) -> bool {
        match bracketed(s, '(', ')') {
            Some(b) => elems(b).len() < 7 || T1::rejects(normalize(elems(b)[0])) || T2::rejects(normalize(elems(b)[1])) || T3::rejects(normalize(elems(b)[2])) || T4::rejects(normalize(elems(b)[3])) || T5::rejects(normalize(elems(b)[4])) || T6::rejects(normalize(elems(b)[5])) || T7::rejects(normalize(elems(b)[6])),
            None => true,
        }
    }

    open spec fn converts(s: Seq<char>, v: (T1, T2, T3, T4, T5, T6, T7)) -> bool {
        match bracketed(s, '(', ')') {
            Some(b) => {
                &&& elems(b).len() >= 7
                &&& T1::converts(normalize(elems(b)[0]), v.0)
                &&& T2::converts(normalize(elems(b)[1]), v.1)
                &&& T3::converts(normalize(elems(b)[2]), v.2)
                &&& T4::converts(normalize(elems(b)[3]), v.3)
                &&& T5::converts(normalize(elems(b)[4]), v.4)
                &&& T6::converts(normalize(elems(b)[5]), v.5)
                &&& T7::converts(normalize(elems(b)[6]), v.6)
            },
            None => false,
        }
    }

    /// A tuple without parentheses, or with too few elements, fails with a
    /// conversion error; otherwise it fails only at an element, with that
    /// element's own error.
    open spec fn fails_with(name: Seq<char>, s: Seq<char>, e: Error) -> bool {
        match bracketed(s, '(', ')') {
            Some(b) => {
                let es = elems(b);
                ||| (es.len() == 0 && is_failure(name, s, e))
                ||| (es.len() > 0 && T1::fails_with(name, normalize(es[0]), e))
                ||| (!T1::rejects(normalize(es[0])) && es.len() == 1 && is_failure(name, s, e))
                ||| (!T1::rejects(normalize(es[0])) && es.len() > 1 && T2::fails_with(name, normalize(es[1]), e))
                ||| (!T1::rejects(normalize(es[0])) && !T2::rejects(normalize(es[1])) && es.len() == 2 && is_failure(name, s, e))
                ||| (!T1::rejects(normalize(es[0])) && !T2::rejects(normalize(es[1])) && es.len() > 2 && T3::fails_with(name, normalize(es[2]), e))
                ||| (!T1::rejects(normalize(es[0])) && !T2::rejects(normalize(es[1])) && !T3::rejects(normalize(es[2])) && es.len() == 3 && is_failure(name, s, e))
                ||| (!T1::rejects(normalize(es[0])) && !T2::rejects(normalize(es[1])) && !T3::rejects(normalize(es[2])) && es.len() > 3 && T4::fails_with(name, normalize(es[3]), e))
                ||| (!T1::rejects(normalize(es[0])) && !T2::rejects(normalize(es[1])) && !T3::rejects(normalize(es[2])) && !T4::rejects(normalize(es[3])) && es.len() == 4 && is_failure(name, s, e))
                ||| (!T1::rejects(normalize(es[0])) && !T2::rejects(normalize(es[1])) && !T3::rejects(normalize(es[2])) && !T4::rejects(normalize(es[3])) && es.len() > 4 && T5::fails_with(name, normalize(es[4]), e))
                ||| (!T1::rejects(normalize(es[0])) && !T2::rejects(normalize(es[1])) && !T3::rejects(normalize(es[2])) && !T4::rejects(normalize(es[3])) && !T5::rejects(normalize(es[4])) && es.len() == 5 && is_failure(name, s, e))
                ||| (!T1::rejects(normalize(es[0])) && !T2::rejects(normalize(es[1])) && !T3::rejects(normalize(es[2])) && !T4::rejects(normalize(es[3])) && !T5::rejects(normalize(es[4])) && es.len() > 5 && T6::fails_with(name, normalize(es[5]), e))
                ||| (!T1::rejects(normalize(es[0])) && !T2::rejects(normalize(es[1])) && !T3::rejects(normalize(es[2])) && !T4::rejects(normalize(es[3])) && !T5::rejects(normalize(es[4])) && !T6::rejects(normalize(es[5])) && es.len() == 6 && is_failure(name, s, e))
                ||| (!T1::rejects(normalize(es[0])) && !T2::rejects(normalize(es[1])) && !T3::rejects(normalize(es[2])) && !T4::rejects(normalize(es[3])) && !T5::rejects(normalize(es[4])) && !T6::rejects(normalize(es[5])) && es.len() > 6 && T7::fails_with(name, normalize(es[6]), e))
            },
            None => is_failure(name, s, e),
        }
    }

    fn from_env_str(s: EnvStrValue) -> (r: Result<(T1, T2, T3, T4, T5, T6, T7)>) {
        let texts = match body_elem_texts(&s.chars(), '(', ')') {
            Some(t) => t,
            None => {
                return Err(Self::conversion_error(s));
            },
        };
        let ghost b = bracketed(s@, '(', ')')->0;
        assert(forall|k: int| 0 <= k < texts@.len() ==> #[trigger] texts@[k]@ == elems(b)[k]);
        if texts.len() <= 0 {
            return Err(Self::conversion_error(s));
        }
        let v0 = match convert_at::<T1>(s.name, &texts, 0) {
            Ok(v) => v,
            Err(e) => {
                return Err(e);
            },
        };
        if texts.len() <= 1 {
            return Err(Self::conversion_error(s));
        }
        let v1 = match convert_at::<T2>(s.name, &texts, 1) {
            Ok(v) => v,
            Err(e) => {
                return Err(e);
            },
        };
        if texts.len() <= 2 {
            return Err(Self::conversion_error(s));
        }
        let v2 = match convert_at::<T3>(s.name, &texts, 2) {
            Ok(v) => v,
            Err(e) => {
                return Err(e);
            },
        };
        if texts.len() <= 3 {
            return Err(Self::conversion_error(s));
        }
        let v3 = match convert_at::<T4>(s.name, &texts, 3) {
            Ok(v) => v,
            Err(e) => {
                return Err(e);
            },
        };
        if texts.len() <= 4 {
            return Err(Self::conversion_error(s));
        }
        let v4 = match convert_at::<T5>(s.name, &texts, 4) {
            Ok(v) => v,
            Err(e) => {
                return Err(e);
            },
        };
        if texts.len() <= 5 {
            return Err(Self::conversion_error(s));
        }
        let v5 = match convert_at::<T6>(s.name, &texts, 5) {
            Ok(v) => v,
            Err(e) => {
                return Err(e);
            },
        };
        if texts.len() <= 6 {
            return Err(Self::conversion_error(s));
        }
        let v6 = match convert_at::<T7>(s.name, &texts, 6) {
            Ok(v) => v,
            Err(e) => {
                return Err(e);
            },
        };
        Ok((v0, v1, v2, v3, v4, v5, v6))
    }

    fn type_text() -> String {
        let mut r = String::from_str("(");
        let t = T1::type_text();
        r.append(t.as_str());
        r.append(", ");
        let t = T2::type_text();
        r.append(t.as_str());
        r.append(", ");
        let t = T3::type_text();
        r.append(t.as_str());
        r.append(", ");
        let t = T4::type_text();
        r.append(t.as_str());
        r.append(", ");
        let t = T5::type_text();
        r.append(t.as_str());
        r.append(", ");
        let t = T6::type_text();
        r.append(t.as_str());
        r.append(", ");
        let t = T7::type_text();
        r.append(t.as_str());
        r.append(")");
        r
    }
}

impl<T1: FromEnvStrValue, T2: FromEnvStrValue, T3: FromEnvStrValue, T4: FromEnvStrValue, T5: FromEnvStrValue, T6: FromEnvStrValue, T7: FromEnvStrValue, T8: FromEnvStrValue> FromEnvStrValue for (T1, T2, T3, T4, T5, T6, T7, T8) {
    open spec fn accepts(s: Seq<char>) -> bool {
        match bracketed(s, '(', ')') {
            Some(b) => {
                &&& elems(b).len() >= 8
                &&& T1::accepts(normalize(elems(b)[0]))
                &&& T2::accepts(normalize(elems(b)[1]))
                &&& T3::accepts(normalize(elems(b)[2]))
                &&& T4::accepts(normalize(elems(b)[3]))
                &&& T5::accepts(normalize(elems(b)[4]))
                &&& T6::accepts(normalize(elems(b)[5]))
                &&& T7::accepts(normalize(elems(b)[6]))
                &&& T8::accepts(normalize(elems(b)[7]))
            },
            None => false,
        }
    }

    open spec fn rejects(s: Seq<char>) -> bool {
        match bracketed(s, '(', ')') {
            Some(b) => elems(b).len() < 8 || T1::rejects(normalize(elems(b)[0])) || T2::rejects(normalize(elems(b)[1])) || T3::rejects(normalize(elems(b)[2])) || T4::rejects(normalize(elems(b)[3])) || T5::rejects(normalize(elems(b)[4])) || T6::rejects(normalize(elems(b)[5])) || T7::rejects(normalize(elems(b)[6])) || T8::rejects(normalize(elems(b)[7])),
            None => true,
        }
    }

    open spec fn converts(s: Seq<char>, v: (T1, T2, T3, T4, T5, T6, T7, T8)) -> bool {
        match bracketed(s, '(', ')') {
            Some(b) => {
                &&& elems(b).len() >= 8
                &&& T1::converts(normalize(elems(b)[0]), v.0)
                &&& T2::converts(normalize(elems(b)[1]), v.1)
                &&& T3::converts(normalize(elems(b)[2]), v.2)
                &&& T4::converts(normalize(elems(b)[3]), v.3)
                &&& T5::converts(normalize(elems(b)[4]), v.4)
                &&& T6::converts(normalize(elems(b)[5]), v.5)
                &&& T7::converts(normalize(elems(b)[6]), v.6)
                &&& T8::converts(normalize(elems(b)[7]), v.7)
            },
            None => false,
        }
    }

    /// A tuple without parentheses, or with too few elements, fails with a
    /// conversion error; otherwise it fails only at an element, with that
    /// element's own error.
    open spec fn fails_with(name: Seq<char>, s: Seq<char>, e: Error) -> bool {
        match bracketed(s, '(', ')') {
            Some(b) => {
                let es = elems(b);
                ||| (es.len() == 0 && is_failure(name, s, e))
                ||| (es.len() > 0 && T1::fails_with(name, normalize(es[0]), e))
                ||| (!T1::rejects(normalize(es[0])) && es.len() == 1 && is_failure(name, s, e))
                ||| (!T1::rejects(normalize(es[0])) && es.len() > 1 && T2::fails_with(name, normalize(es[1]), e))
                ||| (!T1::rejects(normalize(es[0])) && !T2::rejects(normalize(es[1])) && es.len() == 2 && is_failure(name, s, e))
                ||| (!T1::rejects(normalize(es[0])) && !T2::rejects(normalize(es[1])) && es.len() > 2 && T3::fails_with(name, normalize(es[2]), e))
                ||| (!T1::rejects(normalize(es[0])) && !T2::rejects(normalize(es[1])) && !T3::rejects(normalize(es[2])) && es.len() == 3 && is_failure(name, s, e))
                ||| (!T1::rejects(normalize(es[0])) && !T2::rejects(normalize(es[1])) && !T3::rejects(normalize(es[2])) && es.len() > 3 && T4::fails_with(name, normalize(es[3]), e))
                ||| (!T1::rejects(normalize(es[0])) && !T2::rejects(normalize(es[1])) && !T3::rejects(normalize(es[2])) && !T4::rejects(normalize(es[3])) && es.len() == 4 && is_failure(name, s, e))
                ||| (!T1::rejects(normalize(es[0])) && !T2::rejects(normalize(es[1])) && !T3::rejects(normalize(es[2])) && !T4::rejects(normalize(es[3])) && es.len() > 4 && T5::fails_with(name, normalize(es[4]), e))
                ||| (!T1::rejects(normalize(es[0])) && !T2::rejects(normalize(es[1])) && !T3::rejects(normalize(es[2])) && !T4::rejects(normalize(es[3])) && !T5::rejects(normalize(es[4])) && es.len() == 5 && is_failure(name, s, e))
                ||| (!T1::rejects(normalize(es[0])) && !T2::rejects(normalize(es[1])) && !T3::rejects(normalize(es[2])) && !T4::rejects(normalize(es[3])) && !T5::rejects(normalize(es[4])) && es.len() > 5 && T6::fails_with(name, normalize(es[5]), e))
                ||| (!T1::rejects(normalize(es[0])) && !T2::rejects(normalize(es[1])) && !T3::rejects(normalize(es[2])) && !T4::rejects(normalize(es[3])) && !T5::rejects(normalize(es[4])) && !T6::rejects(normalize(es[5])) && es.len() == 6 && is_failure(name, s, e))
                ||| (!T1::rejects(normalize(es[0])) && !T2::rejects(normalize(es[1])) && !T3::rejects(normalize(es[2])) && !T4::rejects(normalize(es[3])) && !T5::rejects(normalize(es[4])) && !T6::rejects(normalize(es[5])) && es.len() > 6 && T7::fails_with(name, normalize(es[6]), e))
                ||| (!T1::rejects(normalize(es[0])) && !T2::rejects(normalize(es[1])) && !T3::rejects(normalize(es[2])) && !T4::rejects(normalize(es[3])) && !T5::rejects(normalize(es[4])) && !T6::rejects(normalize(es[5])) && !T7::rejects(normalize(es[6])) && es.len() == 7 && is_failure(name, s, e))
                ||| (!T1::rejects(normalize(es[0])) && !T2::rejects(normalize(es[1])) && !T3::rejects(normalize(es[2])) && !T4::rejects(normalize(es[3])) && !T5::rejects(normalize(es[4])) && !T6::rejects(normalize(es[5])) && !T7::rejects(normalize(es[6])) && es.len() > 7 && T8::fails_with(name, normalize(es[7]), e))
            },
            None => is_failure(name, s, e),
        }
    }

    fn from_env_str(s: EnvStrValue) -> (r: Result<(T1, T2, T3, T4, T5, T6, T7, T8)>) {
        let texts = match body_elem_texts(&s.chars(), '(', ')') {
            Some(t) => t,
            None => {
                return Err(Self::conversion_error(s));
            },
        };
        let ghost b = bracketed(s@, '(', ')')->0;
        assert(forall|k: int| 0 <= k < texts@.len() ==> #[trigger] texts@[k]@ == elems(b)[k]);
        if texts.len() <= 0 {
            return Err(Self::conversion_error(s));
        }
        let v0 = match convert_at::<T1>(s.name, &texts, 0) {
            Ok(v) => v,
            Err(e) => {
                return Err(e);
            },
        };
        if texts.len() <= 1 {
            return Err(Self::conversion_error(s));
        }
        let v1 = match convert_at::<T2>(s.name, &texts, 1) {
            Ok(v) => v,
            Err(e) => {
                return Err(e);
            },
        };
        if texts.len() <= 2 {
            return Err(Self::conversion_error(s));
        }
        let v2 = match convert_at::<T3>(s.name, &texts, 2) {
            Ok(v) => v,
            Err(e) => {
                return Err(e);
            },
        };
        if texts.len() <= 3 {
            return Err(Self::conversion_error(s));
        }
        let v3 = match convert_at::<T4>(s.name, &texts, 3) {
            Ok(v) => v,
            Err(e) => {
                return Err(e);
            },
        };
        if texts.len() <= 4 {
            return Err(Self::conversion_error(s));
        }
        let v4 = match convert_at::<T5>(s.name, &texts, 4) {
            Ok(v) => v,
            Err(e) => {
                return Err(e);
            },
        };
        if texts.len() <= 5 {
            return Err(Self::conversion_error(s));
        }
        let v5 = match convert_at::<T6>(s.name, &texts, 5) {
            Ok(v) => v,
            Err(e) => {
                return Err(e);
            },
        };
        if texts.len() <= 6 {
            return Err(Self::conversion_error(s));
        }
        let v6 = match convert_at::<T7>(s.name, &texts, 6) {
            Ok(v) => v,
            Err(e) => {
                return Err(e);
            },
        };
        if texts.len() <= 7 {
            return Err(Self::conversion_error(s));
        }
        let v7 = match convert_at::<T8>(s.name, &texts, 7) {
            Ok(v) => v,
            Err(e) => {
                return Err(e);
            },
        };
        Ok((v0, v1, v2, v3, v4, v5, v6, v7))
    }

    fn type_text() -> String {
        let mut r = String::from_str("(");
        let t = T1::type_text();
        r.append(t.as_str());
        r.append(", ");
        let t = T2::type_text();
        r.append(t.as_str());
        r.append(", ");
        let t = T3::type_text();
        r.append(t.as_str());
        r.append(", ");
        let t = T4::type_text();
        r.append(t.as_str());
        r.append(", ");
        let t = T5::type_text();
        r.append(t.as_str());
        r.append(", ");
        let t = T6::type_text();
        r.append(t.as_str());
        r.append(", ");
        let t = T7::type_text();
        r.append(t.as_str());
        r.append(", ");
        let t = T8::type_text();
        r.append(t.as_str());
        r.append(")");
        r
    }
}

impl<T1: FromEnvStrValue, T2: FromEnvStrValue, T3: FromEnvStrValue, T4: FromEnvStrValue, T5: FromEnvStrValue, T6: FromEnvStrValue, T7: FromEnvStrValue, T8: FromEnvStrValue, T9: FromEnvStrValue> FromEnvStrValue for (T1, T2, T3, T4, T5, T6, T7, T8, T9) {
    open spec fn accepts(s: Seq<char>) -> bool {
        match bracketed(s, '(', ')') {
            Some(b) => {
                &&& elems(b).len() >= 9
                &&& T1::accepts(normalize(elems(b)[0]))
                &&& T2::accepts(normalize(elems(b)[1]))
                &&& T3::accepts(normalize(elems(b)[2]))
                &&& T4::accepts(normalize(elems(b)[3]))
                &&& T5::accepts(normalize(elems(b)[4]))
                &&& T6::accepts(normalize(elems(b)[5]))
                &&& T7::accepts(normalize(elems(b)[6]))
                &&& T8::accepts(normalize(elems(b)[7]))
                &&& T9::accepts(normalize(elems(b)[8]))
            },
            None => false,
        }
    }

    open spec fn rejects(s: Seq<char>) -> bool {
        match bracketed(s, '(', ')') {
            Some(b) => elems(b).len() < 9 || T1::rejects(normalize(elems(b)[0])) || T2::rejects(normalize(elems(b)[1])) || T3::rejects(normalize(elems(b)[2])) || T4::rejects(normalize(elems(b)[3])) || T5::rejects(normalize(elems(b)[4])) || T6::rejects(normalize(elems(b)[5])) || T7::rejects(normalize(elems(b)[6])) || T8::rejects(normalize(elems(b)[7])) || T9::rejects(normalize(elems(b)[8])),
            None => true,
        }
    }

    open spec fn converts(s: Seq<char>, v: (T1, T2, T3, T4, T5, T6, T7, T8, T9)) -> bool {
        match bracketed(s, '(', ')') {
            Some(b) => {
                &&& elems(b).len() >= 9
                &&& T1::converts(normalize(elems(b)[0]), v.0)
                &&& T2::converts(normalize(elems(b)[1]), v.1)
                &&& T3::converts(normalize(elems(b)[2]), v.2)
                &&& T4::converts(normalize(elems(b)[3]), v.3)
                &&& T5::converts(normalize(elems(b)[4]), v.4)
                &&& T6::converts(normalize(elems(b)[5]), v.5)
                &&& T7::converts(normalize(elems(b)[6]), v.6)
                &&& T8::converts(normalize(elems(b)[7]), v.7)
                &&& T9::converts(normalize(elems(b)[8]), v.8)
            },
            None => false,
        }
    }

    /// A tuple without parentheses, or with too few elements, fails with a
    /// conversion error; otherwise it fails only at an element, with that
    /// element's own error.
    open spec fn fails_with(name: Seq<char>, s: Seq<char>, e: Error) -> bool {
        match bracketed(s, '(', ')') {
            Some(b) => {
                let es = elems(b);
                ||| (es.len() == 0 && is_failure(name, s, e))
                ||| (es.len() > 0 && T1::fails_with(name, normalize(es[0]), e))
                ||| (!T1::rejects(normalize(es[0])) && es.len() == 1 && is_failure(name, s, e))
                ||| (!T1::rejects(normalize(es[0])) && es.len() > 1 && T2::fails_with(name, normalize(es[1]), e))
                ||| (!T1::rejects(normalize(es[0])) && !T2::rejects(normalize(es[1])) && es.len() == 2 && is_failure(name, s, e))
                ||| (!T1::rejects(normalize(es[0])) && !T2::rejects(normalize(es[1])) && es.len() > 2 && T3::fails_with(name, normalize(es[2]), e))
                ||| (!T1::rejects(normalize(es[0])) && !T2::rejects(normalize(es[1])) && !T3::rejects(normalize(es[2])) && es.len() == 3 && is_failure(name, s, e))
                ||| (!T1::rejects(normalize(es[0])) && !T2::rejects(normalize(es[1])) && !T3::rejects(normalize(es[2])) && es.len() > 3 && T4::fails_with(name, normalize(es[3]), e))
                ||| (!T1::rejects(normalize(es[0])) && !T2::rejects(normalize(es[1])) && !T3::rejects(normalize(es[2])) && !T4::rejects(normalize(es[3])) && es.len() == 4 && is_failure(name, s, e))
                ||| (!T1::rejects(normalize(es[0])) && !T2::rejects(normalize(es[1])) && !T3::rejects(normalize(es[2])) && !T4::rejects(normalize(es[3])) && es.len() > 4 && T5::fails_with(name, normalize(es[4]), e))
                ||| (!T1::rejects(normalize(es[0])) && !T2::rejects(normalize(es[1])) && !T3::rejects(normalize(es[2])) && !T4::rejects(normalize(es[3])) && !T5::rejects(normalize(es[4])) && es.len() == 5 && is_failure(name, s, e))
                ||| (!T1::rejects(normalize(es[0])) && !T2::rejects(normalize(es[1])) && !T3::rejects(normalize(es[2])) && !T4::rejects(normalize(es[3])) && !T5::rejects(normalize(es[4])) && es.len() > 5 && T6::fails_with(name, normalize(es[5]), e))
                ||| (!T1::rejects(normalize(es[0])) && !T2::rejects(normalize(es[1])) && !T3::rejects(normalize(es[2])) && !T4::rejects(normalize(es[3])) && !T5::rejects(normalize(es[4])) && !T6::rejects(normalize(es[5])) && es.len() == 6 && is_failure(name, s, e))
                ||| (!T1::rejects(normalize(es[0])) && !T2::rejects(normalize(es[1])) && !T3::rejects(normalize(es[2])) && !T4::rejects(normalize(es[3])) && !T5::rejects(normalize(es[4])) && !T6::rejects(normalize(es[5])) && es.len() > 6 && T7::fails_with(name, normalize(es[6]), e))
                ||| (!T1::rejects(normalize(es[0])) && !T2::rejects(normalize(es[1])) && !T3::rejects(normalize(es[2])) && !T4::rejects(normalize(es[3])) && !T5::rejects(normalize(es[4])) && !T6::rejects(normalize(es[5])) && !T7::rejects(normalize(es[6])) && es.len() == 7 && is_failure(name, s, e))
                ||| (!T1::rejects(normalize(es[0])) && !T2::rejects(normalize(es[1])) && !T3::rejects(normalize(es[2])) && !T4::rejects(normalize(es[3])) && !T5::rejects(normalize(es[4])) && !T6::rejects(normalize(es[5])) && !T7::rejects(normalize(es[6])) && es.len() > 7 && T8::fails_with(name, normalize(es[7]), e))
                ||| (!T1::rejects(normalize(es[0])) && !T2::rejects(normalize(es[1])) && !T3::rejects(normalize(es[2])) && !T4::rejects(normalize(es[3])) && !T5::rejects(normalize(es[4])) && !T6::rejects(normalize(es[5])) && !T7::rejects(normalize(es[6])) && !T8::rejects(normalize(es[7])) && es.len() == 8 && is_failure(name, s, e))
                ||| (!T1::rejects(normalize(es[0])) && !T2::rejects(normalize(es[1])) && !T3::rejects(normalize(es[2])) && !T4::rejects(normalize(es[3])) && !T5::rejects(normalize(es[4])) && !T6::rejects(normalize(es[5])) && !T7::rejects(normalize(es[6])) && !T8::rejects(normalize(es[7])) && es.len() > 8 && T9::fails_with(name, normalize(es[8]), e))
            },
            None => is_failure(name, s, e),
        }
    }

    fn from_env_str(s: EnvStrValue) -> (r: Result<(T1, T2, T3, T4, T5, T6, T7, T8, T9)>) {
        let texts = match body_elem_texts(&s.chars(), '(', ')') {
            Some(t) => t,
            None => {
                return Err(Self::conversion_error(s));
            },
        };
        let ghost b = bracketed(s@, '(', ')')->0;
        assert(forall|k: int| 0 <= k < texts@.len() ==> #[trigger] texts@[k]@ == elems(b)[k]);
        if texts.len() <= 0 {
            return Err(Self::conversion_error(s));
        }
        let v0 = match convert_at::<T1>(s.name, &texts, 0) {
            Ok(v) => v,
            Err(e) => {
                return Err(e);
            },
        };
        if texts.len() <= 1 {
            return Err(Self::conversion_error(s));
        }
        let v1 = match convert_at::<T2>(s.name, &texts, 1) {
            Ok(v) => v,
            Err(e) => {
                return Err(e);
            },
        };
        if texts.len() <= 2 {
            return Err(Self::conversion_error(s));
        }
        let v2 = match convert_at::<T3>(s.name, &texts, 2) {
            Ok(v) => v,
            Err(e) => {
                return Err(e);
            },
        };
        if texts.len() <= 3 {
            return Err(Self::conversion_error(s));
        }
        let v3 = match convert_at::<T4>(s.name, &texts, 3) {
            Ok(v) => v,
            Err(e) => {
                return Err(e);
            },
        };
        if texts.len() <= 4 {
            return Err(Self::conversion_error(s));
        }
        let v4 = match convert_at::<T5>(s.name, &texts, 4) {
            Ok(v) => v,
            Err(e) => {
                return Err(e);
            },
        };
        if texts.len() <= 5 {
            return Err(Self::conversion_error(s));
        }
        let v5 = match convert_at::<T6>(s.name, &texts, 5) {
            Ok(v) => v,
            Err(e) => {
                return Err(e);
            },
        };
        if texts.len() <= 6 {
            return Err(Self::conversion_error(s));
        }
        let v6 = match convert_at::<T7>(s.name, &texts, 6) {
            Ok(v) => v,
            Err(e) => {
                return Err(e);
            },
        };
        if texts.len() <= 7 {
            return Err(Self::conversion_error(s));
        }
        let v7 = match convert_at::<T8>(s.name, &texts, 7) {
            Ok(v) => v,
            Err(e) => {
                return Err(e);
            },
        };
        if texts.len() <= 8 {
            return Err(Self::conversion_error(s));
        }
        let v8 = match convert_at::<T9>(s.name, &texts, 8) {
            Ok(v) => v,
            Err(e) => {
                return Err(e);
            },
        };
        Ok((v0, v1, v2, v3, v4, v5, v6, v7, v8))
    }

    fn type_text() -> String {
        let mut r = String::from_str("(");
        let t = T1::type_text();
        r.append(t.as_str());
        r.append(", ");
        let t = T2::type_text();
        r.append(t.as_str());
        r.append(", ");
        let t = T3::type_text();
        r.append(t.as_str());
        r.append(", ");
        let t = T4::type_text();
        r.append(t.as_str());
        r.append(", ");
        let t = T5::type_text();
        r.append(t.as_str());
        r.append(", ");
        let t = T6::type_text();
        r.append(t.as_str());
        r.append(", ");
        let t = T7::type_text();
        r.append(t.as_str());
        r.append(", ");
        let t = T8::type_text();
        r.append(t.as_str());
        r.append(", ");
        let t = T9::type_text();
        r.append(t.as_str());
        r.append(")");
        r
    }
}

} // verus!
