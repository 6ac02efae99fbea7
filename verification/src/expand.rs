//! The two source-to-source transformations: the shim for a concrete type
//! and the capability injection for an interface.
//!
//! A declaration comes in as source text and the generated declarations go
//! out as source text. Parsing and printing are `syn`'s; what is generated,
//! and in which order, is decided here.

use vstd::prelude::*;
use vstd::string::StringExecFns;
use vstd::string::StringSliceAdditionalSpecFns;
use crate::literals::{can_read, is_plain, is_readable, lemma_plain_is_readable};
use crate::syntax::{
    error_message, error_text, parse_bound, parse_trait, parse_type_name, parsed_bound,
    parsed_trait, parsed_type_name, print_trait, push_supertrait, read_trait_name, trait_name,
    trait_supertraits, trait_tokens, with_supertrait,
};

verus! {

/// The path under which an interface requires the hidden capability. It is
/// fully qualified, so that it resolves whatever the interface's module has
/// in scope.
pub const CAPABILITY_PATH: &'static str = "dyn_partial_eq::DynPartialEq";

/// What stands before the concrete type's name in its shim.
pub const SHIM_HEAD: &'static str = "impl DynPartialEq for ";

/// What stands behind the concrete type's name in its shim: the accessor
/// erases the receiver itself, and the comparison recovers the other value
/// as the receiver's type before it compares natively.
pub const SHIM_BODY: &'static str =
    " {\n    fn as_any(&self) -> dyn_partial_eq::ErasedRef<'_> {\n        dyn_partial_eq::erase(self)\n    }\n\n    fn box_eq(&self, other: dyn_partial_eq::ErasedRef<'_>) -> bool {\n        dyn_partial_eq::equals_erased(self, other)\n    }\n}\n";

/// What stands before the interface's name in the equality of two of its
/// owned boxes.
pub const VALUE_EQUALITY_HEAD: &'static str = "impl core::cmp::PartialEq for Box<dyn ";

/// What stands behind the interface's name there.
pub const VALUE_EQUALITY_BODY: &'static str =
    "> {\n    fn eq(&self, other: &Self) -> bool {\n        dyn_partial_eq::boxed_eq(self, other)\n    }\n}\n";

/// What stands before the interface's name in the equality of an owned box
/// with a borrowed reference to another.
pub const REFERENCE_EQUALITY_HEAD: &'static str = "impl core::cmp::PartialEq<&Self> for Box<dyn ";

/// What stands behind the interface's name there.
pub const REFERENCE_EQUALITY_BODY: &'static str =
    "> {\n    fn eq(&self, other: &&Self) -> bool {\n        dyn_partial_eq::boxed_eq_ref(self, other)\n    }\n}\n";

/// The parser can be handed the path of the hidden capability: it holds
/// letters, underscores and colons only.
pub proof fn lemma_capability_path_is_readable()
    ensures
        is_readable(CAPABILITY_PATH.spec_bytes()),
{
    broadcast use vstd::string::is_ascii_spec_bytes;

    reveal_strlit("dyn_partial_eq::DynPartialEq");
    let path = CAPABILITY_PATH;
    assert(vstd::string::is_ascii(path));
    assert(is_plain(path.spec_bytes()));
    lemma_plain_is_readable(path.spec_bytes());
}

/// Why a transformation produced nothing.
#[derive(Debug)]
pub enum ExpansionError {
    /// The annotated declaration is not of the shape that the
    /// transformation works on. Carries the parser's message.
    MalformedTarget(String),
    /// The path given for the capability is not a bound that an interface
    /// can require. Carries the parser's message.
    MalformedCapability(String),
    /// A text holds a token that the parser cannot read: a C string
    /// literal, or the marker of a failed expansion.
    UnreadableLiteral,
}

/// The shim for the concrete type `name`: one implementation of the hidden
/// capability, for exactly that type.
pub open spec fn shim_text(name: Seq<char>) -> Seq<char> {
    SHIM_HEAD@ + name + SHIM_BODY@
}

/// Native equality of an owned box of the interface `name` with another
/// owned box of it.
pub open spec fn value_equality_text(name: Seq<char>) -> Seq<char> {
    VALUE_EQUALITY_HEAD@ + name + VALUE_EQUALITY_BODY@
}

/// Native equality of an owned box of the interface `name` with a borrowed
/// reference to another owned box of it.
pub open spec fn reference_equality_text(name: Seq<char>) -> Seq<char> {
    REFERENCE_EQUALITY_HEAD@ + name + REFERENCE_EQUALITY_BODY@
}

/// The three declarations that take the place of an annotated interface:
/// its own declaration, then the two equality implementations.
pub open spec fn interface_text(declaration: Seq<char>, name: Seq<char>) -> Seq<char> {
    declaration + "\n\n"@ + value_equality_text(name) + "\n"@ + reference_equality_text(name)
}

/// Emits the shim for the concrete type `name`.
pub fn impl_dyn_partial_eq(name: &str) -> (shim: String)
    ensures
        shim@ == shim_text(name@),
{
    let mut shim = String::from_str(SHIM_HEAD);
    shim.append(name);
    shim.append(SHIM_BODY);
    shim
}

/// Emits the two equality implementations for boxes of the interface
/// `name`: first value against value, then value against reference.
pub fn equality_impls(name: &str) -> (impls: (String, String))
    ensures
        impls.0@ == value_equality_text(name@),
        impls.1@ == reference_equality_text(name@),
{
    let mut by_value = String::from_str(VALUE_EQUALITY_HEAD);
    by_value.append(name);
    by_value.append(VALUE_EQUALITY_BODY);
    let mut by_reference = String::from_str(REFERENCE_EQUALITY_HEAD);
    by_reference.append(name);
    by_reference.append(REFERENCE_EQUALITY_BODY);
    (by_value, by_reference)
}

/// Puts the two equality implementations for the interface `name` behind
/// its declaration.
pub fn assemble_interface(declaration: &str, name: &str) -> (expanded: String)
    ensures
        expanded@ == interface_text(declaration@, name@),
{
    let (by_value, by_reference) = equality_impls(name);
    let mut expanded = String::from_str(declaration);
    expanded.append("\n\n");
    expanded.append(by_value.as_str());
    expanded.append("\n");
    expanded.append(by_reference.as_str());
    expanded
}

/// The shim generator. Accepts the source of one type declaration and
/// emits the shim for the declared type; the declaration itself is left as
/// it is and not emitted again.
///
/// The text has to declare a type: on any other there is no shim to emit.
/// `expand_derive` makes that test and then calls.
pub fn dyn_partial_eq_macro_derive(input: &str) -> (shim: String)
    requires
        is_readable(input.spec_bytes()),
        parsed_type_name(input@) is Ok,
    ensures
        shim@ == shim_text(parsed_type_name(input@)->Ok_0),
{
    match parse_type_name(input) {
        Ok(name) => impl_dyn_partial_eq(name.as_str()),
        Err(_) => unreached(),
    }
}

/// Runs the shim generator on `input` where it declares a type, and says
/// why not where it does not: a text that the parser cannot be handed has
/// an unreadable literal, and any other that declares no type is a
/// malformed target.
pub fn expand_derive(input: &str) -> (expanded: Result<String, ExpansionError>)
    ensures
        match expanded {
            Ok(shim) => {
                &&& is_readable(input.spec_bytes())
                &&& parsed_type_name(input@) is Ok
                &&& shim@ == shim_text(parsed_type_name(input@)->Ok_0)
            },
            Err(ExpansionError::UnreadableLiteral) => !is_readable(input.spec_bytes()),
            Err(ExpansionError::MalformedTarget(message)) => {
                &&& is_readable(input.spec_bytes())
                &&& parsed_type_name(input@) is Err
                &&& message@ == error_text(parsed_type_name(input@)->Err_0)
            },
            Err(ExpansionError::MalformedCapability(_)) => false,
        },
{
    if !can_read(input) {
        return Err(ExpansionError::UnreadableLiteral);
    }
    match parse_type_name(input) {
        Ok(_) => Ok(dyn_partial_eq_macro_derive(input)),
        Err(error) => Err(ExpansionError::MalformedTarget(error_message(&error))),
    }
}

/// The rewritten declaration of `interface` differs from it in its
/// requirements, which gain exactly one entry: `bound`, behind those that
/// were there. The interface keeps its name.
pub open spec fn gains_requirement(interface: syn::ItemTrait, bound: syn::TypeParamBound) -> bool {
    &&& trait_name(with_supertrait(interface, bound)) == trait_name(interface)
    &&& trait_supertraits(with_supertrait(interface, bound)) == trait_supertraits(interface).push(
        bound,
    )
}

/// What the capability injector makes of the interface declared in
/// `source`, when `capability` is the path of the hidden capability: the
/// declaration with that path as its last requirement, then the two
/// equality implementations for boxes of the interface.
pub open spec fn interface_expansion(source: Seq<char>, capability: Seq<char>) -> Option<
    Seq<char>,
> {
    match (parsed_trait(source), parsed_bound(capability)) {
        (Ok(interface), Ok(bound)) => Some(
            interface_text(
                trait_tokens(with_supertrait(interface, bound)),
                trait_name(interface),
            ),
        ),
        _ => None,
    }
}

/// Whether the parser can be handed both the interface's source and the
/// capability's path.
pub open spec fn both_readable(source: &str, capability: &str) -> bool {
    is_readable(source.spec_bytes()) && is_readable(capability.spec_bytes())
}

/// Rewrites the interface declared in `source` so that it requires
/// `capability` as well, and emits the equality implementations for its
/// boxes behind it.
///
/// Both texts are first tested for literals that the parser cannot read.
/// Then a `source` that is not an interface declaration is a malformed
/// target; it is reported before `capability` is parsed.
pub fn inject_capability(source: &str, capability: &str) -> (expanded: Result<
    String,
    ExpansionError,
>)
    ensures
        match expanded {
            Ok(text) => {
                &&& both_readable(source, capability)
                &&& interface_expansion(source@, capability@) == Some(text@)
                &&& gains_requirement(
                    parsed_trait(source@)->Ok_0,
                    parsed_bound(capability@)->Ok_0,
                )
            },
            Err(ExpansionError::UnreadableLiteral) => !both_readable(source, capability),
            Err(ExpansionError::MalformedTarget(message)) => {
                &&& both_readable(source, capability)
                &&& parsed_trait(source@) is Err
                &&& message@ == error_text(parsed_trait(source@)->Err_0)
            },
            Err(ExpansionError::MalformedCapability(message)) => {
                &&& both_readable(source, capability)
                &&& parsed_trait(source@) is Ok
                &&& parsed_bound(capability@) is Err
                &&& message@ == error_text(parsed_bound(capability@)->Err_0)
            },
        },
{
    if !can_read(source) || !can_read(capability) {
        return Err(ExpansionError::UnreadableLiteral);
    }
    match parse_trait(source) {
        Err(error) => Err(ExpansionError::MalformedTarget(error_message(&error))),
        Ok(interface) => {
            let mut interface = interface;
            let name = read_trait_name(&interface);
            match parse_bound(capability) {
                Err(error) => Err(ExpansionError::MalformedCapability(error_message(&error))),
                Ok(bound) => {
                    push_supertrait(&mut interface, bound);
                    let declaration = print_trait(&interface);
                    Ok(assemble_interface(declaration.as_str(), name.as_str()))
                },
            }
        },
    }
}

/// The capability injector. Accepts the source of one interface
/// declaration and emits it with the hidden capability as one more
/// requirement, followed by the two equality implementations for its
/// boxes. The annotation takes no parameters: `attribute` is not read.
pub fn dyn_partial_eq(attribute: &str, input: &str) -> (expanded: Result<String, ExpansionError>)
    ensures
        match expanded {
            Ok(text) => {
                &&& is_readable(input.spec_bytes())
                &&& interface_expansion(input@, CAPABILITY_PATH@) == Some(text@)
                &&& gains_requirement(
                    parsed_trait(input@)->Ok_0,
                    parsed_bound(CAPABILITY_PATH@)->Ok_0,
                )
            },
            Err(ExpansionError::UnreadableLiteral) => !is_readable(input.spec_bytes()),
            Err(ExpansionError::MalformedTarget(message)) => {
                &&& is_readable(input.spec_bytes())
                &&& parsed_trait(input@) is Err
                &&& message@ == error_text(parsed_trait(input@)->Err_0)
            },
            Err(ExpansionError::MalformedCapability(message)) => {
                &&& is_readable(input.spec_bytes())
                &&& parsed_trait(input@) is Ok
                &&& parsed_bound(CAPABILITY_PATH@) is Err
                &&& message@ == error_text(parsed_bound(CAPABILITY_PATH@)->Err_0)
            },
        },
{
    proof {
        lemma_capability_path_is_readable();
    }
    inject_capability(input, CAPABILITY_PATH)
}

} // verus!
