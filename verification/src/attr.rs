//! The syntax of the `env_portal` attribute: its arguments, the field
//! mapping and the forms of a mapping value, read from the attribute's
//! tokens. `syn` decides which token runs are Rust expressions, types and
//! patterns.
use vstd::prelude::*;
use crate::codegen::{EnvPortalAttrArgs, Mapping, MappingValue};
use crate::text::{find_char, push_char, text_eq};

verus! {

/// A token of the attribute.
#[derive(Debug)]
pub enum Tok {
    /// An identifier or a keyword.
    Ident(String),
    /// A punctuation character, and whether the next punctuation character
    /// is joined to it (as the two characters of `::` or `=>`).
    Punct(char, bool),
    /// A literal, by its source text.
    Lit(String),
    /// A group: its opening delimiter (`(`, `[`, `{`, or a space for an
    /// invisible one) and its tokens.
    Group(char, Vec<Tok>),
}

/// The form of a Rust expression, as the mapping syntax tells them apart.
pub enum ExprForm {
    /// A string literal.
    StrLit,
    /// An integer or boolean literal.
    PlainLit,
    /// An array expression.
    Array,
    /// A tuple expression.
    Tuple,
    /// Any other expression.
    Other,
}

/// Whether `syn` reads the Rust source `src` as an expression, and then of
/// which form.
pub uninterp spec fn expr_form(src: Seq<char>) -> Option<ExprForm>;

/// Whether `syn` reads the Rust source `src` as a type.
pub uninterp spec fn is_rust_type(src: Seq<char>) -> bool;

/// Whether `syn` reads the Rust source `src` as a pattern with
/// alternatives.
pub uninterp spec fn is_rust_pat(src: Seq<char>) -> bool;

/// `syn`'s reading of the Rust source `src` as an expression
/// (`syn::parse_str::<syn::Expr>`): its form, or `None` where `src` is no
/// expression.
#[verifier::external_body]
fn rust_expr(src: &str) -> (r: Option<ExprForm>)
    ensures
        r == expr_form(src@),
{
    match syn::parse_str::<syn::Expr>(src) {
        Ok(syn::Expr::Lit(syn::ExprLit { lit: syn::Lit::Str(_), .. })) => Some(ExprForm::StrLit),
        Ok(syn::Expr::Lit(syn::ExprLit { lit: syn::Lit::Int(_), .. })) => Some(ExprForm::PlainLit),
        Ok(syn::Expr::Lit(syn::ExprLit { lit: syn::Lit::Bool(_), .. })) => Some(ExprForm::PlainLit),
        Ok(syn::Expr::Array(_)) => Some(ExprForm::Array),
        Ok(syn::Expr::Tuple(_)) => Some(ExprForm::Tuple),
        Ok(_) => Some(ExprForm::Other),
        Err(_) => None,
    }
}

/// Whether `syn` reads the Rust source `src` as a type
/// (`syn::parse_str::<syn::Type>`).
#[verifier::external_body]
fn rust_type(src: &str) -> (r: bool)
    ensures
        r == is_rust_type(src@),
{
    syn::parse_str::<syn::Type>(src).is_ok()
}

/// Whether `syn` reads the Rust source `src` as a pattern with
/// alternatives (`syn::Pat::parse_multi`).
#[verifier::external_body]
fn rust_pat(src: &str) -> (r: bool)
    ensures
        r == is_rust_pat(src@),
{
    syn::parse::Parser::parse_str(syn::Pat::parse_multi, src).is_ok()
}

/// The value of the hexadecimal digit `c`.
pub open spec fn hex_digit(c: char) -> Option<int> {
    if '0' <= c <= '9' {
        Some(c as int - '0' as int)
    } else if 'a' <= c <= 'f' {
        Some(c as int - 'a' as int + 10)
    } else if 'A' <= c <= 'F' {
        Some(c as int - 'A' as int + 10)
    } else {
        None
    }
}

/// The value of the hexadecimal digits `d`.
pub open spec fn hex_value(d: Seq<char>) -> Option<int>
    decreases d.len(),
{
    if d.len() == 0 {
        Some(0)
    } else {
        match (hex_value(d.drop_last()), hex_digit(d.last())) {
            (Some(a), Some(b)) => Some(a * 16 + b),
            _ => None,
        }
    }
}

/// Whether `v` is the number of a character.
pub open spec fn is_char_value(v: int) -> bool {
    0 <= v <= 0x10FFFF && !(0xD800 <= v <= 0xDFFF)
}

/// The character that the simple escape `\c` stands for.
pub open spec fn simple_escape(c: char) -> Option<char> {
    if c == 'n' {
        Some('\n')
    } else if c == 'r' {
        Some('\r')
    } else if c == 't' {
        Some('\t')
    } else if c == '\\' {
        Some('\\')
    } else if c == '0' {
        Some('\0')
    } else if c == '\'' {
        Some('\'')
    } else if c == '"' {
        Some('"')
    } else {
        None
    }
}

/// The characters that the body `b` of a string literal stands for, where
/// each backslash in it starts one of the escapes that Rust's token
/// printers write (`\n`, `\r`, `\t`, `\\`, `\0`, `\'`, `\"`, `\x` and two
/// hexadecimal digits up to 7F, `\u{..}` with one to six hexadecimal
/// digits); `None` where it holds another backslash or a bare `"`.
pub open spec fn unescape(b: Seq<char>) -> Option<Seq<char>>
    decreases b.len(),
{
    if b.len() == 0 {
        Some(Seq::empty())
    } else if b[0] == '"' {
        None
    } else if b[0] != '\\' {
        match unescape(b.drop_first()) {
            Some(r) => Some(seq![b[0]] + r),
            None => None,
        }
    } else if b.len() < 2 {
        None
    } else if simple_escape(b[1]) is Some {
        match unescape(b.subrange(2, b.len() as int)) {
            Some(r) => Some(seq![simple_escape(b[1])->0] + r),
            None => None,
        }
    } else if b[1] == 'x' && b.len() >= 4 {
        match hex_value(b.subrange(2, 4)) {
            Some(v) => if v <= 0x7f {
                match unescape(b.subrange(4, b.len() as int)) {
                    Some(r) => Some(seq![v as char] + r),
                    None => None,
                }
            } else {
                None
            },
            None => None,
        }
    } else if b[1] == 'u' && b.len() >= 3 && b[2] == '{' {
        let k = find_char(b, '}', 3);
        if 3 < k < b.len() && k - 3 <= 6 {
            match hex_value(b.subrange(3, k)) {
                Some(v) => if is_char_value(v) {
                    match unescape(b.subrange(k + 1, b.len() as int)) {
                        Some(r) => Some(seq![v as char] + r),
                        None => None,
                    }
                } else {
                    None
                },
                None => None,
            }
        } else {
            None
        }
    } else {
        None
    }
}

/// The text that the string literal `lit` (`"` .. `"`) holds.
pub open spec fn str_lit_value(lit: Seq<char>) -> Option<Seq<char>> {
    if lit.len() >= 2 && lit[0] == '"' && lit[lit.len() - 1] == '"' {
        unescape(lit.subrange(1, lit.len() - 1))
    } else {
        None
    }
}

/// The Rust source of a string literal that holds `s`
/// (`proc_macro2::Literal::string`).
#[verifier::external_body]
fn string_literal(s: &str) -> (r: String)
    ensures
        str_lit_value(r@) == Some(s@),
{
    proc_macro2::Literal::string(s).to_string()
}

/// Whether `t` is the identifier `name`.
pub open spec fn is_ident(t: Tok, name: Seq<char>) -> bool {
    t matches Tok::Ident(s) && s@ == name
}

/// Whether `t` is the punctuation character `c`.
pub open spec fn is_punct(t: Tok, c: char) -> bool {
    t matches Tok::Punct(p, _) && p == c
}

/// Whether `t` is the punctuation character `c`, joined to the next one.
pub open spec fn is_joint(t: Tok, c: char) -> bool {
    t matches Tok::Punct(p, joint) && p == c && joint
}

/// Whether `t` is a group in braces.
pub open spec fn is_brace(t: Tok) -> bool {
    t matches Tok::Group(d, _) && d == '{'
}

/// The words that are keywords, and so no type name, to `syn`.
pub open spec fn is_keyword(s: Seq<char>) -> bool {
    s == "_"@ || s == "abstract"@ || s == "as"@ || s == "async"@ || s == "await"@ || s == "become"@
        || s == "box"@ || s == "break"@ || s == "const"@ || s == "continue"@ || s == "crate"@ || s
        == "do"@ || s == "dyn"@ || s == "else"@ || s == "enum"@ || s == "extern"@ || s == "false"@
        || s == "final"@ || s == "fn"@ || s == "for"@ || s == "if"@ || s == "impl"@ || s == "in"@
        || s == "let"@ || s == "loop"@ || s == "macro"@ || s == "match"@ || s == "mod"@ || s
        == "move"@ || s == "mut"@ || s == "override"@ || s == "priv"@ || s == "pub"@ || s == "ref"@
        || s == "return"@ || s == "Self"@ || s == "self"@ || s == "static"@ || s == "struct"@ || s
        == "super"@ || s == "trait"@ || s == "true"@ || s == "try"@ || s == "type"@ || s
        == "typeof"@ || s == "unsafe"@ || s == "unsized"@ || s == "use"@ || s == "virtual"@ || s
        == "where"@ || s == "while"@ || s == "yield"@
}

/// The first position at or after `p` where `=>` starts (the length of `t`
/// where there is none).
pub open spec fn find_arrow(t: Seq<Tok>, p: int) -> int
    decreases t.len() - p,
{
    if p + 1 >= t.len() {
        t.len() as int
    } else if is_joint(t[p], '=') && is_punct(t[p + 1], '>') {
        p
    } else {
        find_arrow(t, p + 1)
    }
}

/// The position of the `>` that closes the `<` before `p`, counting the
/// `<` and `>` between them (the length of `t` where there is none).
pub open spec fn find_close_angle(t: Seq<Tok>, p: int, depth: nat) -> int
    decreases t.len() - p,
{
    if p >= t.len() {
        t.len() as int
    } else if is_punct(t[p], '>') {
        if depth == 0 {
            p
        } else {
            find_close_angle(t, p + 1, (depth - 1) as nat)
        }
    } else if is_punct(t[p], '<') {
        find_close_angle(t, p + 1, depth + 1)
    } else {
        find_close_angle(t, p + 1, depth)
    }
}

/// The forms of a mapping value, as its first tokens tell them apart.
pub enum ValueLead {
    NoneWord,
    EnvVar,
    EnvMatch(bool),
    EnvInclude,
    Nested,
    Block,
    Expr,
}

/// The form of the mapping value at `at`: `None`; `env_var::` and a name;
/// `env_match` or `env_partial_match` and a brace group; `env_include`; a
/// name that is no keyword and a brace group; a brace group; and otherwise
/// an expression.
pub open spec fn value_lead(t: Seq<Tok>, at: int) -> ValueLead {
    if is_ident(t[at], "None"@) {
        ValueLead::NoneWord
    } else if is_ident(t[at], "env_var"@) && at + 2 < t.len() && is_joint(t[at + 1], ':') && is_punct(
        t[at + 2],
        ':',
    ) {
        ValueLead::EnvVar
    } else if (is_ident(t[at], "env_match"@) || is_ident(t[at], "env_partial_match"@)) && at + 1 < t.len()
        && is_brace(t[at + 1]) {
        ValueLead::EnvMatch(is_ident(t[at], "env_partial_match"@))
    } else if is_ident(t[at], "env_include"@) {
        ValueLead::EnvInclude
    } else if t[at] matches Tok::Ident(n) && !is_keyword(n@) && at + 1 < t.len() && is_brace(t[at + 1]) {
        ValueLead::Nested
    } else if is_brace(t[at]) {
        ValueLead::Block
    } else {
        ValueLead::Expr
    }
}

/// A value that starts with `env_match` and a brace group is read as a
/// match that is not partial, and one that starts with `env_partial_match`
/// and a brace group as a partial match; it ends after the brace group.
pub proof fn law_match_partial_flag(t: Seq<Tok>, at: int)
    requires
        0 <= at,
        at + 1 < t.len(),
        is_brace(t[at + 1]),
        is_ident(t[at], "env_match"@) || is_ident(t[at], "env_partial_match"@),
    ensures
        parse_value(t, at) matches Some((s, e)) ==> e == at + 2,
        parse_value(t, at) matches Some((s, _)) ==> (s matches ValueShape::EnvMatch(_, p) && (p
            <==> is_ident(t[at], "env_partial_match"@))),
        parse_value(t, at) matches Some((s, _)) ==> (s matches ValueShape::EnvMatch(_, p) && (!p
            <==> is_ident(t[at], "env_match"@))),
{
    reveal_strlit("None");
    reveal_strlit("env_var");
    reveal_strlit("env_match");
    reveal_strlit("env_partial_match");
    assert("None"@.len() == 4);
    assert("env_var"@.len() == 7);
    assert("env_match"@.len() == 9);
    assert("env_partial_match"@.len() == 17);
    assert(!is_ident(t[at], "None"@));
    assert(!is_ident(t[at], "env_var"@));
    assert(!(is_ident(t[at], "env_match"@) && is_ident(t[at], "env_partial_match"@)));
}

/// The simplest value forms: the word `None` reads as `None`;
/// `env_var::NAME` as the variable `NAME`; a brace group as a string that
/// holds the group's text in braces. Each ends after its last token.
pub proof fn law_simple_values(t: Seq<Tok>, at: int)
    requires
        0 <= at < t.len(),
    ensures
        is_ident(t[at], "None"@) ==> parse_value(t, at) == Some((ValueShape::NoneValue, at + 1)),
        is_ident(t[at], "env_var"@) && at + 3 < t.len() && is_joint(t[at + 1], ':') && is_punct(
            t[at + 2],
            ':',
        ) && t[at + 3] is Ident && !is_keyword(t[at + 3]->Ident_0@) ==> parse_value(t, at) == Some(
            (ValueShape::EnvVar(t[at + 3]->Ident_0@), at + 4),
        ),
        is_brace(t[at]) ==> parse_value(t, at) == Some(
            (ValueShape::TextOf(seq!['{'] + render(t[at]->Group_1@, true) + seq!['}']), at + 1),
        ),
{
    reveal_strlit("None");
    reveal_strlit("env_var");
    reveal_strlit("env_match");
    reveal_strlit("env_partial_match");
    reveal_strlit("env_include");
    assert("None"@.len() == 4);
    assert("env_var"@.len() == 7);
    assert("env_match"@.len() == 9);
    assert("env_partial_match"@.len() == 17);
    assert("env_include"@.len() == 11);
}

fn ident_is(t: &Tok, name: &str) -> (r: bool)
    ensures
        r == is_ident(*t, name@),
{
    match t {
        Tok::Ident(s) => text_eq(s.as_str(), name),
        _ => false,
    }
}

fn punct_is(t: &Tok, c: char) -> (r: bool)
    ensures
        r == is_punct(*t, c),
{
    match t {
        Tok::Punct(p, _) => *p == c,
        _ => false,
    }
}

fn joint_is(t: &Tok, c: char) -> (r: bool)
    ensures
        r == is_joint(*t, c),
{
    match t {
        Tok::Punct(p, j) => *p == c && *j,
        _ => false,
    }
}

fn brace_is(t: &Tok) -> (r: bool)
    ensures
        r == is_brace(*t),
{
    match t {
        Tok::Group(d, _) => *d == '{',
        _ => false,
    }
}

fn keyword_is(s: &str) -> (r: bool)
    ensures
        r == is_keyword(s@),
{
    text_eq(s, "_")
        || text_eq(s, "abstract")
        || text_eq(s, "as")
        || text_eq(s, "async")
        || text_eq(s, "await")
        || text_eq(s, "become")
        || text_eq(s, "box")
        || text_eq(s, "break")
        || text_eq(s, "const")
        || text_eq(s, "continue")
        || text_eq(s, "crate")
        || text_eq(s, "do")
        || text_eq(s, "dyn")
        || text_eq(s, "else")
        || text_eq(s, "enum")
        || text_eq(s, "extern")
        || text_eq(s, "false")
        || text_eq(s, "final")
        || text_eq(s, "fn")
        || text_eq(s, "for")
        || text_eq(s, "if")
        || text_eq(s, "impl")
        || text_eq(s, "in")
        || text_eq(s, "let")
        || text_eq(s, "loop")
        || text_eq(s, "macro")
        || text_eq(s, "match")
        || text_eq(s, "mod")
        || text_eq(s, "move")
        || text_eq(s, "mut")
        || text_eq(s, "override")
        || text_eq(s, "priv")
        || text_eq(s, "pub")
        || text_eq(s, "ref")
        || text_eq(s, "return")
        || text_eq(s, "Self")
        || text_eq(s, "self")
        || text_eq(s, "static")
        || text_eq(s, "struct")
        || text_eq(s, "super")
        || text_eq(s, "trait")
        || text_eq(s, "true")
        || text_eq(s, "try")
        || text_eq(s, "type")
        || text_eq(s, "typeof")
        || text_eq(s, "unsafe")
        || text_eq(s, "unsized")
        || text_eq(s, "use")
        || text_eq(s, "virtual")
        || text_eq(s, "where")
        || text_eq(s, "while")
        || text_eq(s, "yield")
}

/// The text that opens a group with the delimiter `d`.
pub open spec fn open_text(d: char) -> Seq<char> {
    if d == '(' {
        seq!['(']
    } else if d == '[' {
        seq!['[']
    } else if d == '{' {
        seq!['{']
    } else {
        Seq::empty()
    }
}

/// The text that closes a group with the delimiter `d`.
pub open spec fn close_text(d: char) -> Seq<char> {
    if d == '(' {
        seq![')']
    } else if d == '[' {
        seq![']']
    } else if d == '{' {
        seq!['}']
    } else {
        Seq::empty()
    }
}

fn push_open(r: &mut String, d: char)
    ensures
        final(r)@ == old(r)@ + open_text(d),
{
    if d == '(' {
        push_char(r, '(');
    } else if d == '[' {
        push_char(r, '[');
    } else if d == '{' {
        push_char(r, '{');
    }
    assert(r@ =~= old(r)@ + open_text(d));
}

fn push_close(r: &mut String, d: char)
    ensures
        final(r)@ == old(r)@ + close_text(d),
{
    if d == '(' {
        push_char(r, ')');
    } else if d == '[' {
        push_char(r, ']');
    } else if d == '{' {
        push_char(r, '}');
    }
    assert(r@ =~= old(r)@ + close_text(d));
}


/// Whether `t` is an identifier or a literal.
pub open spec fn is_word(t: Tok) -> bool {
    t is Ident || t is Lit
}

/// Whether `t` is a punctuation character joined to the next one.
pub open spec fn is_joined(t: Tok) -> bool {
    match t {
        Tok::Punct(_, j) => j,
        _ => false,
    }
}

/// What stands between the tokens `x` and `y`: as Rust source, a space
/// unless `x` is joined to `y`; as compact text (`compact`), a space only
/// after a comma and between two words.
pub open spec fn sep(x: Tok, y: Tok, compact: bool) -> Seq<char> {
    if compact {
        if is_punct(x, ',') || (is_word(x) && is_word(y)) {
            seq![' ']
        } else {
            Seq::empty()
        }
    } else if is_joined(x) {
        Seq::empty()
    } else {
        seq![' ']
    }
}

/// The text of the token `t`.
pub open spec fn tok_render(t: Tok, compact: bool) -> Seq<char>
    decreases t,
{
    match t {
        Tok::Ident(s) => s@,
        Tok::Lit(s) => s@,
        Tok::Punct(c, _) => seq![c],
        Tok::Group(d, inner) => open_text(d) + render(inner@, compact) + close_text(d),
    }
}

/// The text of the tokens `ts`: as Rust source, or as compact text.
pub open spec fn render(ts: Seq<Tok>, compact: bool) -> Seq<char>
    decreases ts,
{
    if ts.len() == 0 {
        Seq::empty()
    } else if ts.len() == 1 {
        tok_render(ts[0], compact)
    } else {
        render(ts.drop_last(), compact) + sep(ts[ts.len() - 2], ts.last(), compact) + tok_render(
            ts.last(),
            compact,
        )
    }
}

/// The Rust source of the tokens `ts`.
pub open spec fn code(ts: Seq<Tok>) -> Seq<char> {
    render(ts, false)
}

fn push_sep(r: &mut String, x: &Tok, y: &Tok, compact: bool)
    ensures
        final(r)@ == old(r)@ + sep(*x, *y, compact),
{
    let space = if compact {
        punct_is(x, ',') || (word_is(x) && word_is(y))
    } else {
        match x {
            Tok::Punct(_, j) => !*j,
            _ => true,
        }
    };
    if space {
        push_char(r, ' ');
    }
    assert(r@ =~= old(r)@ + sep(*x, *y, compact));
}

fn word_is(t: &Tok) -> (r: bool)
    ensures
        r == is_word(*t),
{
    match t {
        Tok::Ident(_) => true,
        Tok::Lit(_) => true,
        _ => false,
    }
}

/// Appends the text of the token `t` to `r`.
fn push_render(r: &mut String, t: &Tok, compact: bool)
    ensures
        final(r)@ == old(r)@ + tok_render(*t, compact),
    decreases t, 1int,
{
    match t {
        Tok::Ident(s) => {
            r.append(s.as_str());
        },
        Tok::Lit(s) => {
            r.append(s.as_str());
        },
        Tok::Punct(c, _) => {
            push_char(r, *c);
        },
        Tok::Group(d, inner) => {
            push_open(r, *d);
            push_tokens(r, inner, compact);
            push_close(r, *d);
        },
    }
    assert(r@ =~= old(r)@ + tok_render(*t, compact));
}

/// Appends the text of the tokens `toks` to `r`.
#[verifier::loop_isolation(false)]
fn push_tokens(r: &mut String, toks: &Vec<Tok>, compact: bool)
    ensures
        final(r)@ == old(r)@ + render(toks@, compact),
    decreases toks, 0int,
{
    let ghost start = r@;
    let mut i: usize = 0;
    while i < toks.len()
        invariant
            i <= toks.len(),
            r@ == start + render(toks@.take(i as int), compact),
        decreases toks.len() - i,
    {
        if i > 0 {
            push_sep(r, &toks[i - 1], &toks[i], compact);
        }
        assert(decreases_to!(toks => toks@[i as int]));
        push_render(r, &toks[i], compact);
        let ghost s = toks@.take(i + 1);
        assert(s.drop_last() =~= toks@.take(i as int));
        assert(s.last() == toks@[i as int]);
        assert(i > 0 ==> s[s.len() - 2] == toks@[i - 1]);
        i = i + 1;
    }
    assert(toks@.take(toks.len() as int) =~= toks@);
}

/// The text of the tokens `toks[a..b]`.
fn render_range(toks: &Vec<Tok>, a: usize, b: usize, compact: bool) -> (r: String)
    requires
        a <= b <= toks.len(),
    ensures
        r@ == render(toks@.subrange(a as int, b as int), compact),
{
    let mut r = String::new();
    let mut i = a;
    while i < b
        invariant
            a <= i <= b <= toks.len(),
            r@ == render(toks@.subrange(a as int, i as int), compact),
        decreases b - i,
    {
        if i > a {
            push_sep(&mut r, &toks[i - 1], &toks[i], compact);
        }
        push_render(&mut r, &toks[i], compact);
        let ghost s = toks@.subrange(a as int, i + 1);
        assert(s.drop_last() =~= toks@.subrange(a as int, i as int));
        assert(s.last() == toks@[i as int]);
        assert(i > a ==> s[s.len() - 2] == toks@[i - 1]);
        assert(i == a ==> s[0] == toks@[i as int]);
        i = i + 1;
    }
    r
}

/// The end of the longest run of tokens from `at` up to `k` that `syn`
/// reads as an expression.
pub open spec fn expr_end(t: Seq<Tok>, at: int, k: int) -> Option<int>
    decreases k - at,
{
    if k <= at {
        None
    } else if expr_form(code(t.subrange(at, k))) is Some {
        Some(k)
    } else {
        expr_end(t, at, k - 1)
    }
}

fn expr_end_exec(toks: &Vec<Tok>, at: usize, k: usize) -> (r: Option<(usize, ExprForm)>)
    requires
        at <= k <= toks.len(),
    ensures
        match expr_end(toks@, at as int, k as int) {
            Some(e) => r matches Some((e2, f)) && e2 == e && expr_form(
                code(toks@.subrange(at as int, e)),
            ) == Some(f),
            None => r is None,
        },
        r matches Some((e, _)) ==> at < e <= k,
    decreases k - at,
{
    if k <= at {
        return None;
    }
    let src = render_range(toks, at, k, false);
    match rust_expr(src.as_str()) {
        Some(f) => Some((k, f)),
        None => expr_end_exec(toks, at, k - 1),
    }
}
fn find_arrow_exec(t: &Vec<Tok>, p: usize) -> (r: usize)
    requires
        p <= t.len(),
    ensures
        r == find_arrow(t@, p as int),
        p <= r <= t.len(),
        r + 1 < t.len() ==> is_joint(t@[r as int], '=') && is_punct(t@[r + 1], '>'),
    decreases t.len() - p,
{
    if p >= t.len() || t.len() - p < 2 {
        t.len()
    } else if joint_is(&t[p], '=') && punct_is(&t[p + 1], '>') {
        p
    } else {
        find_arrow_exec(t, p + 1)
    }
}

fn find_close_angle_exec(t: &Vec<Tok>, p: usize, depth: usize) -> (r: usize)
    requires
        p <= t.len(),
        depth + t.len() - p < usize::MAX,
    ensures
        r == find_close_angle(t@, p as int, depth as nat),
        p <= r <= t.len(),
    decreases t.len() - p,
{
    if p >= t.len() {
        t.len()
    } else if punct_is(&t[p], '>') {
        if depth == 0 {
            p
        } else {
            find_close_angle_exec(t, p + 1, depth - 1)
        }
    } else if punct_is(&t[p], '<') {
        find_close_angle_exec(t, p + 1, depth + 1)
    } else {
        find_close_angle_exec(t, p + 1, depth)
    }
}

fn lead_of(t: &Vec<Tok>, at: usize) -> (r: ValueLead)
    requires
        at < t.len(),
    ensures
        r == value_lead(t@, at as int),
{
    if ident_is(&t[at], "None") {
        ValueLead::NoneWord
    } else if ident_is(&t[at], "env_var") && t.len() - at > 2 && joint_is(&t[at + 1], ':')
        && punct_is(&t[at + 2], ':') {
        ValueLead::EnvVar
    } else if (ident_is(&t[at], "env_match") || ident_is(&t[at], "env_partial_match")) && t.len() - at
        > 1 && brace_is(&t[at + 1]) {
        ValueLead::EnvMatch(ident_is(&t[at], "env_partial_match"))
    } else if ident_is(&t[at], "env_include") {
        ValueLead::EnvInclude
    } else if match &t[at] {
        Tok::Ident(n) => !keyword_is(n.as_str()),
        _ => false,
    } && t.len() - at > 1 && brace_is(&t[at + 1]) {
        ValueLead::Nested
    } else if brace_is(&t[at]) {
        ValueLead::Block
    } else {
        ValueLead::Expr
    }
}


/// What reading a mapping value gives, as far as it is stated.
pub enum ValueShape {
    /// A string literal whose source is this text.
    LitSource(Seq<char>),
    /// A string literal that holds this text.
    TextOf(Seq<char>),
    /// A Rust expression whose source is this text.
    Code(Seq<char>),
    /// `None`.
    NoneValue,
    /// The environment variable of this name.
    EnvVar(Seq<char>),
    /// The type of this name built from these fields.
    Nested(Seq<char>, Seq<(Seq<char>, ValueShape)>),
    /// These arms (pattern sources and values), partial or not.
    EnvMatch(Seq<(Seq<char>, ValueShape)>, bool),
    /// The type of this source, with these overriding fields where given.
    EnvInclude(Seq<char>, Option<Seq<(Seq<char>, ValueShape)>>),
}

/// Holds where the mapping value `v` is what `s` describes.
pub open spec fn fits(v: MappingValue, s: ValueShape) -> bool
    decreases v,
{
    match v {
        MappingValue::EnvStr(l) => match s {
            ValueShape::LitSource(x) => l@ == x,
            ValueShape::TextOf(x) => str_lit_value(l@) == Some(x),
            _ => false,
        },
        MappingValue::EnvVar(n) => match s {
            ValueShape::EnvVar(x) => n@ == x,
            _ => false,
        },
        MappingValue::Expr(c) => match s {
            ValueShape::Code(x) => c@ == x,
            _ => false,
        },
        MappingValue::NoneValue => s is NoneValue,
        MappingValue::Nested { ty, mapping } => match s {
            ValueShape::Nested(t, fs) => ty@ == t && fields_fit(mapping.fields@, fs),
            _ => false,
        },
        MappingValue::EnvMatch { arms, partial } => match s {
            ValueShape::EnvMatch(a, p) => partial == p && fields_fit(arms@, a),
            _ => false,
        },
        MappingValue::EnvInclude { ty, mapping } => match s {
            ValueShape::EnvInclude(t, m) => ty@ == t && match mapping {
                Some(mm) => match m {
                    Some(fs) => fields_fit(mm.fields@, fs),
                    None => false,
                },
                None => m is None,
            },
            _ => false,
        },
    }
}

/// Holds where each named value of `fs` is what the one at the same place
/// of `ss` describes, under the same name.
pub open spec fn fields_fit(fs: Seq<(String, MappingValue)>, ss: Seq<(Seq<char>, ValueShape)>) -> bool
    decreases fs,
{
    if fs.len() == 0 {
        ss.len() == 0
    } else {
        &&& ss.len() == fs.len()
        &&& fs.last().0@ == ss.last().0
        &&& fits(fs.last().1, ss.last().1)
        &&& fields_fit(fs.drop_last(), ss.drop_last())
    }
}

/// Where the next item starts after one that ends at `e`: past a comma
/// that follows it.
pub open spec fn next_item(t: Seq<Tok>, e: int) -> int {
    if 0 <= e < t.len() && is_punct(t[e], ',') {
        e + 1
    } else {
        e
    }
}

/// The mapping value that starts at `at`, and where it ends; `None` where
/// the tokens there are no mapping value.
pub open spec fn parse_value(t: Seq<Tok>, at: int) -> Option<(ValueShape, int)>
    decreases t, t.len() - at,
{
    if at < 0 || at >= t.len() {
        None
    } else {
        match value_lead(t, at) {
            ValueLead::NoneWord => Some((ValueShape::NoneValue, at + 1)),
            ValueLead::EnvVar => if at + 3 < t.len() && t[at + 3] is Ident && !is_keyword(
                t[at + 3]->Ident_0@,
            ) {
                Some((ValueShape::EnvVar(t[at + 3]->Ident_0@), at + 4))
            } else {
                None
            },
            ValueLead::EnvMatch(partial) => match t[at + 1] {
                Tok::Group(_, inner) => {
                    proof {
                        assert(decreases_to!(t => t[at + 1]));
                    }
                    match parse_arms_spec(inner@, 0) {
                        Some(arms) => Some((ValueShape::EnvMatch(arms, partial), at + 2)),
                        None => None,
                    }
                },
                _ => None,
            },
            ValueLead::EnvInclude => {
                let close = find_close_angle(t, at + 2, 0);
                if at + 1 < t.len() && is_punct(t[at + 1], '<') && at + 2 <= close < t.len()
                    && is_rust_type(code(t.subrange(at + 2, close))) {
                    let ty = code(t.subrange(at + 2, close));
                    if close + 1 < t.len() && is_brace(t[close + 1]) {
                        match t[close + 1] {
                            Tok::Group(_, inner) => {
                                proof {
                                    assert(decreases_to!(t => t[close + 1]));
                                }
                                match parse_fields(inner@, 0) {
                                    Some(fs) => Some((ValueShape::EnvInclude(ty, Some(fs)), close + 2)),
                                    None => None,
                                }
                            },
                            _ => None,
                        }
                    } else {
                        Some((ValueShape::EnvInclude(ty, None), close + 1))
                    }
                } else {
                    None
                }
            },
            ValueLead::Nested => match t[at + 1] {
                Tok::Group(_, inner) => {
                    proof {
                        assert(decreases_to!(t => t[at + 1]));
                    }
                    match parse_fields(inner@, 0) {
                        Some(fs) => Some((ValueShape::Nested(t[at]->Ident_0@, fs), at + 2)),
                        None => None,
                    }
                },
                _ => None,
            },
            ValueLead::Block => match t[at] {
                Tok::Group(_, inner) => Some(
                    (ValueShape::TextOf(seq!['{'] + render(inner@, true) + seq!['}']), at + 1),
                ),
                _ => None,
            },
            ValueLead::Expr => match expr_end(t, at, t.len() as int) {
                Some(e) => {
                    let src = code(t.subrange(at, e));
                    match expr_form(src) {
                        Some(ExprForm::StrLit) => Some((ValueShape::LitSource(src), e)),
                        Some(ExprForm::PlainLit) => Some((ValueShape::TextOf(src), e)),
                        Some(ExprForm::Other) => Some((ValueShape::Code(src), e)),
                        Some(_) => Some((ValueShape::TextOf(render(t.subrange(at, e), true)), e)),
                        None => None,
                    }
                },
                None => None,
            },
        }
    }
}

/// The fields `name: value` from `p` on, each followed by an optional
/// comma; `None` where the tokens there are no such list.
pub open spec fn parse_fields(t: Seq<Tok>, p: int) -> Option<Seq<(Seq<char>, ValueShape)>>
    decreases t, t.len() - p + 1,
{
    if p < 0 {
        None
    } else if p >= t.len() {
        Some(Seq::empty())
    } else if t[p] is Ident && !is_keyword(t[p]->Ident_0@) && p + 2 < t.len() && is_punct(
        t[p + 1],
        ':',
    ) {
        match parse_value(t, p + 2) {
            Some((v, e)) => {
                let q = next_item(t, e);
                if q <= p || q > t.len() {
                    None
                } else {
                    match parse_fields(t, q) {
                        Some(rest) => Some(seq![(t[p]->Ident_0@, v)] + rest),
                        None => None,
                    }
                }
            },
            None => None,
        }
    } else {
        None
    }
}

/// The arms `pattern => value` from `p` on, each followed by an optional
/// comma; `None` where the tokens there are no such list.
pub open spec fn parse_arms_spec(t: Seq<Tok>, p: int) -> Option<Seq<(Seq<char>, ValueShape)>>
    decreases t, t.len() - p + 1,
{
    if p < 0 {
        None
    } else if p >= t.len() {
        Some(Seq::empty())
    } else {
        let k = find_arrow(t, p);
        if p <= k && k + 2 < t.len() && is_rust_pat(code(t.subrange(p, k))) {
            match parse_value(t, k + 2) {
                Some((v, e)) => {
                    let q = next_item(t, e);
                    if q <= p || q > t.len() {
                        None
                    } else {
                        match parse_arms_spec(t, q) {
                            Some(rest) => Some(seq![(code(t.subrange(p, k)), v)] + rest),
                            None => None,
                        }
                    }
                },
                None => None,
            }
        } else {
            None
        }
    }
}

/// `done` followed by the list `rest`, where there is one.
pub open spec fn prepend(done: Seq<(Seq<char>, ValueShape)>, rest: Option<Seq<(Seq<char>, ValueShape)>>) -> Option<
    Seq<(Seq<char>, ValueShape)>,
> {
    match rest {
        Some(r) => Some(done + r),
        None => None,
    }
}

/// Reads the mapping value that starts at `at`: the value, and the
/// position after it.
pub fn parse_mapping_value(toks: &Vec<Tok>, at: usize) -> (r: Result<(MappingValue, usize), String>)
    requires
        at < toks.len(),
    ensures
        match parse_value(toks@, at as int) {
            Some((s, e)) => (r matches Ok((v, e2)) && e2 == e && fits(v, s)),
            None => r is Err,
        },
        r matches Ok((_, e)) ==> at < e <= toks.len(),
    decreases toks, 0int,
{
    let lead = lead_of(toks, at);
    match lead {
        ValueLead::NoneWord => Ok((MappingValue::NoneValue, at + 1)),
        ValueLead::EnvVar => {
            if toks.len() - at > 3 {
                if let Tok::Ident(n) = &toks[at + 3] {
                    if !keyword_is(n.as_str()) {
                        return Ok((MappingValue::EnvVar(n.clone()), at + 4));
                    }
                }
            }
            Err(String::from_str("expected the name of an environment variable after `env_var::`"))
        },
        ValueLead::EnvMatch(partial) => {
            match &toks[at + 1] {
                Tok::Group(_, inner) => {
                    assert(decreases_to!(toks => toks@[at + 1]));
                    let arms = parse_arms(inner)?;
                    Ok((MappingValue::EnvMatch { arms, partial }, at + 2))
                },
                _ => Err(String::from_str("expected `{`")),
            }
        },
        ValueLead::EnvInclude => {
            if !(toks.len() - at > 1 && punct_is(&toks[at + 1], '<')) {
                return Err(String::from_str("expected `<` after `env_include`"));
            }
            let close = find_close_angle_exec(toks, at + 2, 0);
            if close >= toks.len() {
                return Err(String::from_str("expected `>`"));
            }
            let ty = render_range(toks, at + 2, close, false);
            if !rust_type(ty.as_str()) {
                return Err(String::from_str("expected a type"));
            }
            if toks.len() - close > 1 && brace_is(&toks[close + 1]) {
                match &toks[close + 1] {
                    Tok::Group(_, inner) => {
                        assert(decreases_to!(toks => toks@[close + 1]));
                        let mapping = parse_mapping(inner)?;
                        Ok((MappingValue::EnvInclude { ty, mapping: Some(mapping) }, close + 2))
                    },
                    _ => Err(String::from_str("expected `{`")),
                }
            } else {
                Ok((MappingValue::EnvInclude { ty, mapping: None }, close + 1))
            }
        },
        ValueLead::Nested => {
            match (&toks[at], &toks[at + 1]) {
                (Tok::Ident(n), Tok::Group(_, inner)) => {
                    assert(decreases_to!(toks => toks@[at + 1]));
                    let mapping = parse_mapping(inner)?;
                    Ok((MappingValue::Nested { ty: n.clone(), mapping }, at + 2))
                },
                _ => Err(String::from_str("expected a type and `{`")),
            }
        },
        ValueLead::Block => {
            match &toks[at] {
                Tok::Group(_, inner) => {
                    let mut block = String::new();
                    push_char(&mut block, '{');
                    let text = render_range(inner, 0, inner.len(), true);
                    block.append(text.as_str());
                    push_char(&mut block, '}');
                    assert(inner@.subrange(0, inner@.len() as int) =~= inner@);
                    assert(block@ =~= seq!['{'] + render(inner@, true) + seq!['}']);
                    Ok((MappingValue::EnvStr(string_literal(block.as_str())), at + 1))
                },
                _ => Err(String::from_str("expected `{`")),
            }
        },
        ValueLead::Expr => {
            let (e, form) = match expr_end_exec(toks, at, toks.len()) {
                Some(found) => found,
                None => {
                    return Err(String::from_str("expected a mapping value"));
                },
            };
            let src = render_range(toks, at, e, false);
            match form {
                ExprForm::StrLit => Ok((MappingValue::EnvStr(src), e)),
                ExprForm::PlainLit => Ok((MappingValue::EnvStr(string_literal(src.as_str())), e)),
                ExprForm::Other => Ok((MappingValue::Expr(src), e)),
                _ => {
                    let text = render_range(toks, at, e, true);
                    Ok((MappingValue::EnvStr(string_literal(text.as_str())), e))
                },
            }
        },
    }
}

/// Reads the arms `pattern => value` of an `env_match`, each followed by
/// an optional comma.
pub fn parse_arms(toks: &Vec<Tok>) -> (r: Result<Vec<(String, MappingValue)>, String>)
    ensures
        match parse_arms_spec(toks@, 0) {
            Some(ss) => (r matches Ok(arms) && fields_fit(arms@, ss)),
            None => r is Err,
        },
    decreases toks, 1int,
{
    let mut arms: Vec<(String, MappingValue)> = Vec::new();
    let ghost mut done: Seq<(Seq<char>, ValueShape)> = Seq::empty();
    let mut p: usize = 0;
    while p < toks.len()
        invariant
            p <= toks.len(),
            fields_fit(arms@, done),
            parse_arms_spec(toks@, 0) == prepend(done, parse_arms_spec(toks@, p as int)),
        decreases toks.len() - p,
    {
        let k = find_arrow_exec(toks, p);
        if k >= toks.len() || toks.len() - k < 3 {
            return Err(String::from_str("expected `=>` and a mapping value"));
        }
        let pat = render_range(toks, p, k, false);
        if !rust_pat(pat.as_str()) {
            return Err(String::from_str("expected a pattern"));
        }
        let (value, e) = parse_mapping_value(toks, k + 2)?;
        let q = if e < toks.len() && punct_is(&toks[e], ',') {
            e + 1
        } else {
            e
        };
        let ghost pv = parse_value(toks@, k + 2)->0;
        let ghost item = (pat@, pv.0);
        let ghost before = arms@;
        arms.push((pat, value));
        proof {
            assert(arms@.drop_last() =~= before);
            assert(done.push(item).drop_last() =~= done);
            assert(done + (seq![item] + parse_arms_spec(toks@, q as int)->0) =~= done.push(item)
                + parse_arms_spec(toks@, q as int)->0);
            done = done.push(item);
        }
        p = q;
    }
    assert(done + Seq::<(Seq<char>, ValueShape)>::empty() =~= done);
    Ok(arms)
}

/// Reads a field mapping: `field: value` items, each followed by an
/// optional comma.
pub fn parse_mapping(toks: &Vec<Tok>) -> (r: Result<Mapping, String>)
    ensures
        match parse_fields(toks@, 0) {
            Some(ss) => (r matches Ok(m) && fields_fit(m.fields@, ss)),
            None => r is Err,
        },
    decreases toks, 1int,
{
    let mut fields: Vec<(String, MappingValue)> = Vec::new();
    let ghost mut done: Seq<(Seq<char>, ValueShape)> = Seq::empty();
    let mut p: usize = 0;
    while p < toks.len()
        invariant
            p <= toks.len(),
            fields_fit(fields@, done),
            parse_fields(toks@, 0) == prepend(done, parse_fields(toks@, p as int)),
        decreases toks.len() - p,
    {
        let key = match &toks[p] {
            Tok::Ident(n) => n,
            _ => {
                return Err(String::from_str("expected a field name"));
            },
        };
        if keyword_is(key.as_str()) {
            return Err(String::from_str("expected a field name"));
        }
        if !(toks.len() - p > 2 && punct_is(&toks[p + 1], ':')) {
            return Err(String::from_str("expected `:` and a value after a field name"));
        }
        let (value, e) = parse_mapping_value(toks, p + 2)?;
        let q = if e < toks.len() && punct_is(&toks[e], ',') {
            e + 1
        } else {
            e
        };
        let ghost pv = parse_value(toks@, p + 2)->0;
        let ghost item = (key@, pv.0);
        let ghost before = fields@;
        fields.push((key.clone(), value));
        proof {
            assert(fields@.drop_last() =~= before);
            assert(done.push(item).drop_last() =~= done);
            assert(done + (seq![item] + parse_fields(toks@, q as int)->0) =~= done.push(item)
                + parse_fields(toks@, q as int)->0);
            done = done.push(item);
        }
        p = q;
    }
    assert(done + Seq::<(Seq<char>, ValueShape)>::empty() =~= done);
    Ok(Mapping { fields })
}

/// Whether `t` is the source of a string literal: `"..."` or a raw
/// `r"..."` / `r#"..."#`.
pub open spec fn is_str_lit(t: Tok) -> bool {
    t matches Tok::Lit(s) && s@.len() >= 2 && (s@[0] == '"' || (s@[0] == 'r' && (s@[1] == '"'
        || s@[1] == '#')))
}

fn str_lit_is(t: &Tok) -> (r: bool)
    ensures
        r == is_str_lit(*t),
{
    match t {
        Tok::Lit(s) => {
            let c = crate::text::chars_of(s.as_str());
            c.len() >= 2 && (c[0] == '"' || (c[0] == 'r' && (c[1] == '"' || c[1] == '#')))
        },
        _ => false,
    }
}

/// Whether `t` is one of the argument names of the attribute.
pub open spec fn is_arg_key(t: Tok) -> bool {
    is_ident(t, "mapping"@) || is_ident(t, "dotenv_file"@) || is_ident(t, "env_name_key"@)
}

/// What reading the arguments of the attribute gives: the field mapping,
/// and the sources of the string literals given for the dotenv file and
/// for the variable of the environment name.
pub struct ArgsShape {
    pub mapping: Seq<(Seq<char>, ValueShape)>,
    pub dotenv_file: Option<Seq<char>>,
    pub env_name_key: Option<Seq<char>>,
}

/// The text of an optional string.
pub open spec fn opt_text(o: Option<String>) -> Option<Seq<char>> {
    match o {
        Some(s) => Some(s@),
        None => None,
    }
}

/// Holds where the arguments `a` are what `s` describes.
pub open spec fn args_fit(a: EnvPortalAttrArgs, s: ArgsShape) -> bool {
    &&& fields_fit(a.mapping.fields@, s.mapping)
    &&& opt_text(a.dotenv_file) == s.dotenv_file
    &&& opt_text(a.env_name_key) == s.env_name_key
}

/// What the item `name = value` at `p` sets over the arguments read before
/// it (`acc`): `mapping` the field mapping read from its brace group,
/// `dotenv_file` and `env_name_key` the source of their string literal.
/// `None` where another name or value stands there.
pub open spec fn arg_item(t: Seq<Tok>, p: int, acc: ArgsShape) -> Option<ArgsShape> {
    if !is_arg_key(t[p]) || !(p + 2 < t.len() && is_punct(t[p + 1], '=')) {
        None
    } else if is_ident(t[p], "mapping"@) {
        match t[p + 2] {
            Tok::Group(d, inner) => if d == '{' {
                match parse_fields(inner@, 0) {
                    Some(fs) => Some(
                        ArgsShape {
                            mapping: fs,
                            dotenv_file: acc.dotenv_file,
                            env_name_key: acc.env_name_key,
                        },
                    ),
                    None => None,
                }
            } else {
                None
            },
            _ => None,
        }
    } else if is_str_lit(t[p + 2]) {
        let lit = t[p + 2]->Lit_0@;
        if is_ident(t[p], "dotenv_file"@) {
            Some(
                ArgsShape {
                    mapping: acc.mapping,
                    dotenv_file: Some(lit),
                    env_name_key: acc.env_name_key,
                },
            )
        } else {
            Some(
                ArgsShape {
                    mapping: acc.mapping,
                    dotenv_file: acc.dotenv_file,
                    env_name_key: Some(lit),
                },
            )
        }
    } else {
        None
    }
}

/// Where the item after the one at `p` starts: past its three tokens and a
/// comma that follows them.
pub open spec fn after_arg(t: Seq<Tok>, p: int) -> int {
    if p + 3 < t.len() && is_punct(t[p + 3], ',') {
        p + 4
    } else {
        p + 3
    }
}

/// The arguments from `p` on, read over the ones before (`acc`), one item
/// after the other, a later one replacing an earlier one; `None` where an
/// item does not read.
pub open spec fn parse_args(t: Seq<Tok>, p: int, acc: ArgsShape) -> Option<ArgsShape>
    decreases t.len() - p,
{
    if p < 0 {
        None
    } else if p >= t.len() {
        Some(acc)
    } else {
        match arg_item(t, p, acc) {
            Some(a) => parse_args(t, after_arg(t, p), a),
            None => None,
        }
    }
}

/// No mapping, dotenv file or variable for the environment name.
pub open spec fn no_args() -> ArgsShape {
    ArgsShape { mapping: Seq::empty(), dotenv_file: None, env_name_key: None }
}

/// Reads the arguments of the `env_portal` attribute: `mapping = { .. }`,
/// `dotenv_file = ".."` and `env_name_key = ".."`, in any order, each
/// followed by an optional comma. A name that is none of these is an error.
pub fn parse_attr_args(toks: &Vec<Tok>) -> (r: Result<EnvPortalAttrArgs, String>)
    ensures
        match parse_args(toks@, 0, no_args()) {
            Some(s) => (r matches Ok(a) && args_fit(a, s)),
            None => r is Err,
        },
{
    let mut args = EnvPortalAttrArgs::default();
    let ghost mut acc = no_args();
    let mut p: usize = 0;
    while p < toks.len()
        invariant
            p <= toks.len(),
            args_fit(args, acc),
            parse_args(toks@, 0, no_args()) == parse_args(toks@, p as int, acc),
        decreases toks.len() - p,
    {
        let key = &toks[p];
        if !(ident_is(key, "mapping") || ident_is(key, "dotenv_file") || ident_is(key, "env_name_key")) {
            return Err(String::from_str("expected `mapping`, `dotenv_file` or `env_name_key`"));
        }
        if !(toks.len() - p > 2 && punct_is(&toks[p + 1], '=')) {
            return Err(String::from_str("expected `=` and a value after an argument name"));
        }
        let value = &toks[p + 2];
        if ident_is(key, "mapping") {
            match value {
                Tok::Group(d, inner) => {
                    if *d != '{' {
                        return Err(String::from_str("expected `{`"));
                    }
                    args.mapping = parse_mapping(inner)?;
                    proof {
                        acc = ArgsShape {
                            mapping: parse_fields(inner@, 0)->0,
                            dotenv_file: acc.dotenv_file,
                            env_name_key: acc.env_name_key,
                        };
                    }
                },
                _ => {
                    return Err(String::from_str("expected `{`"));
                },
            }
        } else {
            if !str_lit_is(value) {
                return Err(String::from_str("expected a string literal"));
            }
            let lit = match value {
                Tok::Lit(s) => s.clone(),
                _ => String::new(),
            };
            if ident_is(key, "dotenv_file") {
                args.dotenv_file = Some(lit);
                proof {
                    acc = ArgsShape {
                        mapping: acc.mapping,
                        dotenv_file: Some(toks@[p + 2]->Lit_0@),
                        env_name_key: acc.env_name_key,
                    };
                }
            } else {
                args.env_name_key = Some(lit);
                proof {
                    acc = ArgsShape {
                        mapping: acc.mapping,
                        dotenv_file: acc.dotenv_file,
                        env_name_key: Some(toks@[p + 2]->Lit_0@),
                    };
                }
            }
        }
        p = if toks.len() - p > 3 && punct_is(&toks[p + 3], ',') {
            p + 4
        } else {
            p + 3
        };
    }
    Ok(args)
}

proof fn lemma_args_shift(pre: Seq<Tok>, r: Seq<Tok>, q: int, acc: ArgsShape)
    requires
        0 <= q,
    ensures
        parse_args(pre + r, pre.len() + q, acc) == parse_args(r, q, acc),
    decreases r.len() - q,
{
    let t = pre + r;
    let p = pre.len() + q;
    if q < r.len() {
        assert(t[p] == r[q]);
        if q + 1 < r.len() {
            assert(t[p + 1] == r[q + 1]);
        }
        if q + 2 < r.len() {
            assert(t[p + 2] == r[q + 2]);
        }
        if q + 3 < r.len() {
            assert(t[p + 3] == r[q + 3]);
        }
        assert(arg_item(t, p, acc) == arg_item(r, q, acc));
        assert(after_arg(t, p) == pre.len() + after_arg(r, q));
        if let Some(a) = arg_item(r, q, acc) {
            lemma_args_shift(pre, r, after_arg(r, q), a);
        }
    }
}

/// The arguments are read one item after the other: reading an item
/// `name = value`, a comma and the rest gives what reading the rest gives
/// over what reading the item alone gives. So no item, whatever comes
/// before it, is left unread.
pub proof fn law_args_in_turn(item: Seq<Tok>, c: Tok, rest: Seq<Tok>, acc: ArgsShape)
    requires
        item.len() == 3,
        is_punct(c, ','),
    ensures
        parse_args(item + seq![c] + rest, 0, acc) == match parse_args(item, 0, acc) {
            Some(a) => parse_args(rest, 0, a),
            None => None,
        },
{
    let pre = item + seq![c];
    let t = pre + rest;
    assert(t[0] == item[0] && t[1] == item[1] && t[2] == item[2] && t[3] == c);
    assert(arg_item(t, 0, acc) == arg_item(item, 0, acc));
    assert(after_arg(t, 0) == 4);
    assert(after_arg(item, 0) == 3);
    if let Some(a) = arg_item(item, 0, acc) {
        lemma_args_shift(pre, rest, 0, a);
        assert(pre.len() + 0 == 4);
        assert(parse_args(item, 3, a) == Some(a));
    }
}

/// What the item `name = value` sets, over the arguments read before it:
/// `mapping` the field mapping read from its brace group, `dotenv_file`
/// and `env_name_key` their string literal; any other name is an error.
pub proof fn law_args_item(k: Tok, e: Tok, v: Tok, acc: ArgsShape)
    requires
        is_punct(e, '='),
    ensures
        is_ident(k, "env_name_key"@) && is_str_lit(v) ==> parse_args(seq![k, e, v], 0, acc) == Some(
            ArgsShape {
                mapping: acc.mapping,
                dotenv_file: acc.dotenv_file,
                env_name_key: Some(v->Lit_0@),
            },
        ),
        is_ident(k, "dotenv_file"@) && is_str_lit(v) ==> parse_args(seq![k, e, v], 0, acc) == Some(
            ArgsShape {
                mapping: acc.mapping,
                dotenv_file: Some(v->Lit_0@),
                env_name_key: acc.env_name_key,
            },
        ),
        is_ident(k, "mapping"@) && is_brace(v) && parse_fields(v->Group_1@, 0) is Some ==> parse_args(seq![k, e, v], 0, acc) == Some(
            ArgsShape {
                mapping: parse_fields(v->Group_1@, 0)->0,
                dotenv_file: acc.dotenv_file,
                env_name_key: acc.env_name_key,
            },
        ),
        !is_arg_key(k) ==> parse_args(seq![k, e, v], 0, acc) is None,
{
    reveal_strlit("mapping");
    reveal_strlit("dotenv_file");
    reveal_strlit("env_name_key");
    assert("mapping"@.len() == 7);
    assert("dotenv_file"@.len() == 11);
    assert("env_name_key"@.len() == 12);
    let t = seq![k, e, v];
    assert(t[0] == k && t[1] == e && t[2] == v);
    assert(after_arg(t, 0) == 3);
    if let Some(a) = arg_item(t, 0, acc) {
        assert(parse_args(t, 3, a) == Some(a));
    }
}

/// The arguments read do not depend on the order of two items with
/// different names.
pub proof fn law_args_any_order(i1: Seq<Tok>, i2: Seq<Tok>, c: Tok, acc: ArgsShape)
    requires
        i1.len() == 3,
        i2.len() == 3,
        is_punct(c, ','),
        is_punct(i1[1], '='),
        is_punct(i2[1], '='),
        !(i1[0] is Ident && i2[0] is Ident && i1[0]->Ident_0@ == i2[0]->Ident_0@),
    ensures
        parse_args(i1 + seq![c] + i2, 0, acc) == parse_args(i2 + seq![c] + i1, 0, acc),
{
    law_args_in_turn(i1, c, i2, acc);
    law_args_in_turn(i2, c, i1, acc);
    assert(i1 =~= seq![i1[0], i1[1], i1[2]]);
    assert(i2 =~= seq![i2[0], i2[1], i2[2]]);
    law_args_item(i1[0], i1[1], i1[2], acc);
    law_args_item(i2[0], i2[1], i2[2], acc);
    assert forall|a: ArgsShape| #[trigger] parse_args(i1, 0, a) == parse_args(
        seq![i1[0], i1[1], i1[2]],
        0,
        a,
    ) by {}
    if let Some(a1) = parse_args(i1, 0, acc) {
        law_args_item(i2[0], i2[1], i2[2], a1);
    }
    if let Some(a2) = parse_args(i2, 0, acc) {
        law_args_item(i1[0], i1[1], i1[2], a2);
    }
    reveal_strlit("mapping");
    reveal_strlit("dotenv_file");
    reveal_strlit("env_name_key");
    assert("mapping"@.len() == 7);
    assert("dotenv_file"@.len() == 11);
    assert("env_name_key"@.len() == 12);
}

} // verus!
