//! The syntax-tree operations that this crate takes from `syn` and `quote`.
//!
//! Nothing in this file is proved: every contract here is a statement about
//! `syn` 1.0 that the verifier takes on trust.
//!
//! The three parsing functions ask for a readable text: on a literal token
//! of a kind that it does not know, the parser does not return.

use vstd::prelude::*;
use vstd::string::StringSliceAdditionalSpecFns;
use crate::literals::is_readable;

verus! {

#[verifier::external_type_specification]
#[verifier::external_body]
pub struct ExItemTrait(syn::ItemTrait);

#[verifier::external_type_specification]
#[verifier::external_body]
pub struct ExTypeParamBound(syn::TypeParamBound);

#[verifier::external_type_specification]
#[verifier::external_body]
pub struct ExSyntaxError(syn::Error);

/// What `syn::parse_str::<syn::ItemTrait>` returns for `source`.
pub uninterp spec fn parsed_trait(source: Seq<char>) -> Result<syn::ItemTrait, syn::Error>;

/// What `syn::parse_str::<syn::TypeParamBound>` returns for `path`.
pub uninterp spec fn parsed_bound(path: Seq<char>) -> Result<syn::TypeParamBound, syn::Error>;

/// The name of the type that `syn::parse_str::<syn::DeriveInput>` finds
/// declared in `source`, or the error it reports.
pub uninterp spec fn parsed_type_name(source: Seq<char>) -> Result<Seq<char>, syn::Error>;

/// The identifier of a trait declaration, as text.
pub uninterp spec fn trait_name(item: syn::ItemTrait) -> Seq<char>;

/// The supertrait bounds of a trait declaration, in source order.
pub uninterp spec fn trait_supertraits(item: syn::ItemTrait) -> Seq<syn::TypeParamBound>;

/// The token text that `quote::ToTokens` prints for a trait declaration.
pub uninterp spec fn trait_tokens(item: syn::ItemTrait) -> Seq<char>;

/// The trait declaration that `Punctuated::push` on `supertraits` leaves.
pub uninterp spec fn with_supertrait(item: syn::ItemTrait, bound: syn::TypeParamBound) -> syn::ItemTrait;

/// The message that a `syn::Error` displays.
pub uninterp spec fn error_text(error: syn::Error) -> Seq<char>;

/// `syn::parse_str::<syn::ItemTrait>`: parsing is a function of the text
/// alone, so the result is the one that `parsed_trait` names. The text has
/// to be readable.
#[verifier::external_body]
pub(crate) fn parse_trait(source: &str) -> (parsed: Result<syn::ItemTrait, syn::Error>)
    requires
        is_readable(source.spec_bytes()),
    ensures
        parsed == parsed_trait(source@),
{
    syn::parse_str::<syn::ItemTrait>(source)
}

/// `syn::parse_str::<syn::TypeParamBound>`: the result is the one that
/// `parsed_bound` names. The text has to be readable.
#[verifier::external_body]
pub(crate) fn parse_bound(path: &str) -> (parsed: Result<syn::TypeParamBound, syn::Error>)
    requires
        is_readable(path.spec_bytes()),
    ensures
        parsed == parsed_bound(path@),
{
    syn::parse_str::<syn::TypeParamBound>(path)
}

/// `syn::parse_str::<syn::DeriveInput>`, keeping of the declaration only
/// its identifier, as `Ident`'s `to_string` prints it. The text has to be
/// readable.
#[verifier::external_body]
pub(crate) fn parse_type_name(source: &str) -> (parsed: Result<String, syn::Error>)
    requires
        is_readable(source.spec_bytes()),
    ensures
        match parsed {
            Ok(name) => parsed_type_name(source@) == Ok::<Seq<char>, syn::Error>(name@),
            Err(error) => parsed_type_name(source@) == Err::<Seq<char>, syn::Error>(error),
        },
{
    match syn::parse_str::<syn::DeriveInput>(source) {
        Ok(declaration) => Ok(declaration.ident.to_string()),
        Err(error) => Err(error),
    }
}

/// `Ident`'s `to_string` on the `ident` field of a trait declaration.
#[verifier::external_body]
pub(crate) fn read_trait_name(item: &syn::ItemTrait) -> (name: String)
    ensures
        name@ == trait_name(*item),
{
    item.ident.to_string()
}

/// `Punctuated::push` on the `supertraits` field: the bound becomes the
/// last supertrait, the earlier ones keep their places, and no other field
/// of the declaration is touched.
#[verifier::external_body]
pub(crate) fn push_supertrait(item: &mut syn::ItemTrait, bound: syn::TypeParamBound)
    ensures
        *final(item) == with_supertrait(*old(item), bound),
        trait_name(*final(item)) == trait_name(*old(item)),
        trait_supertraits(*final(item)) == trait_supertraits(*old(item)).push(bound),
{
    item.supertraits.push(bound)
}

/// `quote::ToTokens::to_token_stream` on a trait declaration, printed by
/// the token stream's `to_string`.
#[verifier::external_body]
pub(crate) fn print_trait(item: &syn::ItemTrait) -> (tokens: String)
    ensures
        tokens@ == trait_tokens(*item),
{
    quote::ToTokens::to_token_stream(item).to_string()
}

/// `to_string` on a `syn::Error`, which goes through its `Display`.
#[verifier::external_body]
pub(crate) fn error_message(error: &syn::Error) -> (message: String)
    ensures
        message@ == error_text(*error),
{
    error.to_string()
}

} // verus!
