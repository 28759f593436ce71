//! The derives: the item they are applied to, read by `syn`, and the code
//! they emit for it.
use vstd::prelude::*;
use crate::attr::{args_fit, no_args, parse_args, parse_attr_args, ArgsShape, Tok};
use crate::codegen::{
    env_enum_impl_code, env_enum_impl_code_exec, env_portal_impl_code, env_portal_impl_code_exec,
    EnvPortalAttrArgs,
};
use crate::text::text_eq;
use proc_macro2::{Delimiter, Spacing, TokenStream, TokenTree};

verus! {

#[verifier::external_type_specification]
#[verifier::external_body]
pub struct ExTokenStream(TokenStream);

#[verifier::external_type_specification]
#[verifier::external_body]
pub struct ExTokenTree(TokenTree);

/// What an item is, as far as the derives tell items apart.
pub enum ItemKind {
    /// A struct with named fields.
    NamedStruct,
    /// An enum, with the names of its variants in order.
    Enum(Vec<String>),
    /// Anything else.
    Other,
}

/// An attribute of an item: its name, where its path is one identifier,
/// and its argument tokens, where it has arguments in delimiters.
pub struct ItemAttr {
    pub name: Option<String>,
    pub args: Option<Vec<Tok>>,
}

/// What `syn` reads of the Rust source `src` as derive input: the item's
/// name and kind.
pub uninterp spec fn derive_head_of(src: Seq<char>) -> Option<(String, ItemKind)>;

/// What `syn` reads of the Rust source `src` as derive input: the item's
/// attributes, in order.
pub uninterp spec fn derive_attrs_of(src: Seq<char>) -> Option<Vec<ItemAttr>>;

/// The token `tt`, in the library's form.
#[verifier::external_body]
fn tok_of(tt: TokenTree) -> Tok {
    match tt {
        TokenTree::Ident(i) => Tok::Ident(i.to_string()),
        TokenTree::Punct(p) => Tok::Punct(p.as_char(), p.spacing() == Spacing::Joint),
        TokenTree::Literal(l) => Tok::Lit(l.to_string()),
        TokenTree::Group(g) => Tok::Group(match g.delimiter() {
            Delimiter::Parenthesis => '(',
            Delimiter::Bracket => '[',
            Delimiter::Brace => '{',
            Delimiter::None => ' ',
        }, toks_of(g.stream())),
    }
}

/// The tokens of `stream`, in the library's form.
#[verifier::external_body]
fn toks_of(stream: TokenStream) -> Vec<Tok> {
    stream.into_iter().map(tok_of).collect()
}

/// `syn::parse_str::<syn::DeriveInput>(src)`: the item's name and kind.
#[verifier::external_body]
fn derive_head(src: &str) -> (r: Option<(String, ItemKind)>)
    ensures
        r == derive_head_of(src@),
{
    let input = syn::parse_str::<syn::DeriveInput>(src).ok()?;
    let kind = match &input.data {
        syn::Data::Struct(syn::DataStruct { fields: syn::Fields::Named(_), .. }) => ItemKind::NamedStruct,
        syn::Data::Enum(e) => ItemKind::Enum(e.variants.iter().map(|v| v.ident.to_string()).collect()),
        _ => ItemKind::Other,
    };
    Some((input.ident.to_string(), kind))
}

/// `syn::parse_str::<syn::DeriveInput>(src)`: the item's attributes, each
/// with its name (`Path::get_ident`) and its arguments
/// (`Attribute::parse_args`).
#[verifier::external_body]
fn derive_attrs(src: &str) -> (r: Option<Vec<ItemAttr>>)
    ensures
        r == derive_attrs_of(src@),
{
    let input = syn::parse_str::<syn::DeriveInput>(src).ok()?;
    Some(input.attrs.iter().map(|a| ItemAttr {
        name: a.path().get_ident().map(|i| i.to_string()),
        args: a.parse_args::<TokenStream>().ok().map(toks_of),
    }).collect())
}

/// The position of the first attribute of `attrs` named `env_portal`, from
/// `i` on.
pub open spec fn portal_attr(attrs: Seq<ItemAttr>, i: int) -> Option<int>
    decreases attrs.len() - i,
{
    if i < 0 || i >= attrs.len() {
        None
    } else if (attrs[i].name matches Some(n) && n@ == "env_portal"@) {
        Some(i)
    } else {
        portal_attr(attrs, i + 1)
    }
}

/// The message that starts every error of reading the `env_portal`
/// attribute.
pub open spec fn attr_error_prefix() -> Seq<char> {
    "failed to parse 'env_portal' attribute: "@
}

/// The arguments that the `env_portal` derive reads from the attributes
/// `attrs`: none where no attribute is named `env_portal`, and otherwise
/// those of the first one so named, where they read.
pub open spec fn derive_args(attrs: Seq<ItemAttr>) -> Option<ArgsShape> {
    match portal_attr(attrs, 0) {
        None => Some(no_args()),
        Some(i) => match attrs[i].args {
            Some(toks) => parse_args(toks@, 0, no_args()),
            None => None,
        },
    }
}

fn find_portal_attr(attrs: &Vec<ItemAttr>) -> (r: Option<usize>)
    ensures
        match r {
            Some(i) => portal_attr(attrs@, 0) == Some(i as int) && i < attrs.len(),
            None => portal_attr(attrs@, 0) is None,
        },
{
    let mut i: usize = 0;
    while i < attrs.len()
        invariant
            i <= attrs.len(),
            portal_attr(attrs@, 0) == portal_attr(attrs@, i as int),
        decreases attrs.len() - i,
    {
        if let Some(n) = &attrs[i].name {
            if text_eq(n.as_str(), "env_portal") {
                return Some(i);
            }
        }
        i = i + 1;
    }
    None
}

/// The implementation of `EnvPortal` that the derive emits for the item
/// whose Rust source is `src`, or the error that it reports.
pub fn env_portal_derive_code(src: &str) -> (r: Result<String, String>)
    ensures
        match derive_head_of(src@) {
            None => (r matches Err(m) && m@ == "invalid input"@),
            Some((ident, kind)) => if !(kind is NamedStruct) {
                r matches Err(m) && m@ == "EnvPortal can only be derived for structs with named fields"@
            } else {
                match derive_attrs_of(src@) {
                    None => (r matches Err(m) && m@ == "invalid input"@),
                    Some(attrs) => match derive_args(attrs@) {
                        Some(s) => (r matches Ok(c) && exists|a: EnvPortalAttrArgs|
                            args_fit(a, s) && c@ == #[trigger] env_portal_impl_code(ident@, a)),
                        None => (r matches Err(m) && attr_error_prefix().is_prefix_of(m@)),
                    },
                }
            },
        },
{
    let (ident, kind) = match derive_head(src) {
        Some(head) => head,
        None => {
            return Err(String::from_str("invalid input"));
        },
    };
    match kind {
        ItemKind::NamedStruct => {},
        _ => {
            return Err(String::from_str("EnvPortal can only be derived for structs with named fields"));
        },
    }
    let attrs = match derive_attrs(src) {
        Some(attrs) => attrs,
        None => {
            return Err(String::from_str("invalid input"));
        },
    };
    let args = match find_portal_attr(&attrs) {
        None => EnvPortalAttrArgs::default(),
        Some(i) => {
            let toks = match &attrs[i].args {
                Some(toks) => toks,
                None => {
                    let mut m = String::from_str("failed to parse 'env_portal' attribute: ");
                    m.append("expected arguments in parentheses");
                    assert(m@.subrange(0, attr_error_prefix().len() as int) =~= attr_error_prefix());
                    return Err(m);
                },
            };
            match parse_attr_args(toks) {
                Ok(args) => args,
                Err(e) => {
                    let mut m = String::from_str("failed to parse 'env_portal' attribute: ");
                    m.append(e.as_str());
                    assert(m@.subrange(0, attr_error_prefix().len() as int) =~= attr_error_prefix());
                    return Err(m);
                },
            }
        },
    };
    let code = env_portal_impl_code_exec(ident.as_str(), &args);
    Ok(code)
}

/// The implementation of `FromEnvStrValue` that the `EnvEnum` derive emits
/// for the item whose Rust source is `src`, or the error that it reports.
pub fn env_enum_derive_code(src: &str) -> (r: Result<String, String>)
    ensures
        match derive_head_of(src@) {
            None => (r matches Err(m) && m@ == "invalid input"@),
            Some((ident, kind)) => match kind {
                ItemKind::Enum(vs) => (r matches Ok(c) && c@ == env_enum_impl_code(ident@, vs@)),
                _ => (r matches Err(m) && m@ == "EnvEnum can only be derived for enums"@),
            },
        },
{
    match derive_head(src) {
        Some((ident, ItemKind::Enum(vs))) => Ok(env_enum_impl_code_exec(ident.as_str(), &vs)),
        Some(_) => Err(String::from_str("EnvEnum can only be derived for enums")),
        None => Err(String::from_str("invalid input")),
    }
}

/// Whether the attribute `a` is named `env_portal`.
pub open spec fn is_portal(a: ItemAttr) -> bool {
    a.name matches Some(n) && n@ == "env_portal"@
}

proof fn lemma_portal_attr_from(attrs: Seq<ItemAttr>, j: int, i: int)
    requires
        0 <= j,
    ensures
        portal_attr(attrs, j) == Some(i) <==> (j <= i < attrs.len() && is_portal(attrs[i])
            && forall|k: int| j <= k < i ==> !is_portal(#[trigger] attrs[k])),
        portal_attr(attrs, j) is None <==> forall|k: int|
            j <= k < attrs.len() ==> !is_portal(#[trigger] attrs[k]),
    decreases attrs.len() - j,
{
    if j < attrs.len() {
        lemma_portal_attr_from(attrs, j + 1, i);
    }
}

/// The derive reads the first attribute named `env_portal`, whatever
/// attributes stand before it: `portal_attr` gives `i` exactly when the
/// attribute at `i` is so named and none before it is, and gives nothing
/// exactly when no attribute is so named.
pub proof fn law_first_portal_attr(attrs: Seq<ItemAttr>, i: int)
    ensures
        portal_attr(attrs, 0) == Some(i) <==> (0 <= i < attrs.len() && is_portal(attrs[i])
            && forall|k: int| 0 <= k < i ==> !is_portal(#[trigger] attrs[k])),
        portal_attr(attrs, 0) is None <==> forall|k: int|
            0 <= k < attrs.len() ==> !is_portal(#[trigger] attrs[k]),
{
    lemma_portal_attr_from(attrs, 0, i);
}

} // verus!
