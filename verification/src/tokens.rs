//! Names, types and literals as token text.
//!
//! Whether a string is an identifier or a type is for `syn` to say, and how
//! tokens are written out is for `proc_macro2` to say. Each function below
//! makes one such call, and each result has a name that the contracts of the
//! generator speak of.

use quote::ToTokens;
use std::str::FromStr;
use vstd::prelude::*;

verus! {

/// The text of `s` read as an identifier; `None` where `s` is not one.
pub uninterp spec fn ident_text(s: Seq<char>) -> Option<Seq<char>>;

/// The tokens of `s` read as a type, as text; `None` where `s` is not a
/// type.
pub uninterp spec fn type_text(s: Seq<char>) -> Option<Seq<char>>;

/// The string literal that stands for `s` in source code, quotes included.
pub uninterp spec fn string_literal_text(s: Seq<char>) -> Seq<char>;

/// The tokens of the source text `s`, written out; `None` where `s` cannot
/// be split into tokens.
pub uninterp spec fn token_text(s: Seq<char>) -> Option<Seq<char>>;

/// `s` in upper case.
pub uninterp spec fn uppercase_text(s: Seq<char>) -> Seq<char>;

/// Parses `s` as a `syn::Ident` and writes the identifier out, or gives
/// `None` where `syn::parse_str` fails.
#[verifier::external_body]
pub(crate) fn ident_tokens(s: &str) -> (r: Option<String>)
    ensures
        r.deep_view() == ident_text(s@),
{
    Some(syn::parse_str::<syn::Ident>(s).ok()?.to_string())
}

/// Parses `s` as a `syn::Type` and writes its tokens out, or gives `None`
/// where `syn::parse_str` fails.
#[verifier::external_body]
pub(crate) fn type_tokens(s: &str) -> (r: Option<String>)
    ensures
        r.deep_view() == type_text(s@),
{
    Some(syn::parse_str::<syn::Type>(s).ok()?.to_token_stream().to_string())
}

/// Writes out `proc_macro2::Literal::string(s)`.
#[verifier::external_body]
pub(crate) fn string_literal(s: &str) -> (r: String)
    ensures
        r@ == string_literal_text(s@),
{
    proc_macro2::Literal::string(s).to_string()
}

/// Splits `s` into a `proc_macro2::TokenStream` and writes it out, or gives
/// `None` where `s` cannot be split into tokens.
#[verifier::external_body]
pub(crate) fn render_tokens(s: &str) -> (r: Option<String>)
    ensures
        r.deep_view() == token_text(s@),
{
    Some(proc_macro2::TokenStream::from_str(s).ok()?.to_string())
}

/// `str::to_uppercase`.
#[verifier::external_body]
pub(crate) fn uppercase(s: &str) -> (r: String)
    ensures
        r@ == uppercase_text(s@),
{
    s.to_uppercase()
}

} // verus!
