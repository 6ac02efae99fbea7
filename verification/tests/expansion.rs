use dyn_partial_eq::{
    assemble_interface, can_read, dyn_partial_eq, dyn_partial_eq_macro_derive, equality_impls,
    expand_derive, impl_dyn_partial_eq, inject_capability, ExpansionError,
};

const SHIM_FOR_A: &str = "impl DynPartialEq for A {\n    fn as_any(&self) -> dyn_partial_eq::ErasedRef<'_> {\n        dyn_partial_eq::erase(self)\n    }\n\n    fn box_eq(&self, other: dyn_partial_eq::ErasedRef<'_>) -> bool {\n        dyn_partial_eq::equals_erased(self, other)\n    }\n}\n";

const VALUE_EQUALITY_FOR_SHAPE: &str = "impl core::cmp::PartialEq for Box<dyn Shape> {\n    fn eq(&self, other: &Self) -> bool {\n        dyn_partial_eq::boxed_eq(self, other)\n    }\n}\n";

const REFERENCE_EQUALITY_FOR_SHAPE: &str = "impl core::cmp::PartialEq<&Self> for Box<dyn Shape> {\n    fn eq(&self, other: &&Self) -> bool {\n        dyn_partial_eq::boxed_eq_ref(self, other)\n    }\n}\n";

fn tokens_of(source: &str) -> String {
    let stream: syn::File = syn::parse_str(source).unwrap();
    quote::ToTokens::to_token_stream(&stream).to_string()
}

#[test]
fn shim_names_the_concrete_type() {
    assert_eq!(impl_dyn_partial_eq("A"), SHIM_FOR_A);
    assert_eq!(
        impl_dyn_partial_eq("Circle"),
        SHIM_FOR_A.replace("for A {", "for Circle {")
    );
}

#[test]
fn derive_emits_the_shim_of_the_declared_type() {
    let shim = dyn_partial_eq_macro_derive("#[derive(PartialEq)] struct A(usize);");
    assert_eq!(shim, SHIM_FOR_A);
    let shim = dyn_partial_eq_macro_derive("pub enum A { Left, Right(u8) }");
    assert_eq!(shim, SHIM_FOR_A);
    let shim = dyn_partial_eq_macro_derive("struct Parent { child: Box<dyn ChildTrait> }");
    assert_eq!(shim, impl_dyn_partial_eq("Parent"));
}

#[test]
fn tested_derive_emits_the_same_shim() {
    let source = "#[doc = \"a \\\"quoted\\\" word, 1.5e-3, b'x', '\\u{41}'\"] struct A([u8; 0x10]);";
    assert!(can_read(source));
    assert_eq!(expand_derive(source).unwrap(), SHIM_FOR_A);
    assert_eq!(expand_derive("union A { left: u8, right: i8 }").unwrap(), SHIM_FOR_A);
}

#[test]
fn derive_rejects_what_is_no_type_declaration() {
    match expand_derive("trait X {}") {
        Err(ExpansionError::MalformedTarget(message)) => {
            assert_eq!(message, "expected one of: `struct`, `enum`, `union`")
        }
        other => panic!("{:?}", other),
    }
    assert!(matches!(expand_derive("fn f() {}"), Err(ExpansionError::MalformedTarget(_))));
    assert!(matches!(expand_derive(""), Err(ExpansionError::MalformedTarget(_))));
    assert!(matches!(
        expand_derive("struct A(usize); struct B;"),
        Err(ExpansionError::MalformedTarget(_))
    ));
}

#[test]
fn shim_is_one_implementation_of_the_capability() {
    let shim: syn::ItemImpl = syn::parse_str(&impl_dyn_partial_eq("Circle")).unwrap();
    assert_eq!(shim.items.len(), 2);
    let (_, capability, _) = shim.trait_.unwrap();
    assert_eq!(quote::ToTokens::to_token_stream(&capability).to_string(), "DynPartialEq");
    assert_eq!(quote::ToTokens::to_token_stream(&shim.self_ty).to_string(), "Circle");
}

#[test]
fn equality_impls_name_the_interface() {
    let (by_value, by_reference) = equality_impls("Shape");
    assert_eq!(by_value, VALUE_EQUALITY_FOR_SHAPE);
    assert_eq!(by_reference, REFERENCE_EQUALITY_FOR_SHAPE);
}

#[test]
fn interface_comes_first_then_both_equalities() {
    let expanded = assemble_interface("trait Shape {}", "Shape");
    let expected = format!(
        "trait Shape {{}}\n\n{}\n{}",
        VALUE_EQUALITY_FOR_SHAPE, REFERENCE_EQUALITY_FOR_SHAPE
    );
    assert_eq!(expanded, expected);
}

#[test]
fn attribute_injects_the_capability() {
    let expanded = dyn_partial_eq("", "trait Shape {}").unwrap();
    let expected = format!(
        "trait Shape : dyn_partial_eq :: DynPartialEq {{ }}\n\n{}\n{}",
        VALUE_EQUALITY_FOR_SHAPE, REFERENCE_EQUALITY_FOR_SHAPE
    );
    assert_eq!(expanded, expected);
}

#[test]
fn attribute_ignores_its_own_arguments() {
    assert_eq!(
        dyn_partial_eq("anything at all", "trait Shape {}").unwrap(),
        dyn_partial_eq("", "trait Shape {}").unwrap()
    );
}

#[test]
fn injection_keeps_the_rest_of_the_declaration() {
    let source = "#[doc = \"x\"] pub unsafe trait Shape<T: Clone>: core::fmt::Debug + Send where T: Copy { fn area(&self) -> u32; }";
    let expanded = dyn_partial_eq("", source).unwrap();
    let file: syn::File = syn::parse_str(&expanded).unwrap();
    assert_eq!(file.items.len(), 3);
    let mut items = file.items.into_iter();
    let mut rewritten = match items.next() {
        Some(syn::Item::Trait(item)) => item,
        _ => panic!("the interface does not come first"),
    };
    assert!(matches!(items.next(), Some(syn::Item::Impl(_))));
    assert!(matches!(items.next(), Some(syn::Item::Impl(_))));
    let declared: syn::ItemTrait = syn::parse_str(source).unwrap();
    assert_eq!(rewritten.ident, declared.ident);
    assert_eq!(rewritten.supertraits.len(), declared.supertraits.len() + 1);
    let bounds: Vec<String> = rewritten
        .supertraits
        .iter()
        .map(|bound| quote::ToTokens::to_token_stream(bound).to_string())
        .collect();
    assert_eq!(bounds, vec!["core :: fmt :: Debug", "Send", "dyn_partial_eq :: DynPartialEq"]);
    let untouched: syn::ItemTrait = syn::parse_str(source).unwrap();
    rewritten.supertraits = untouched.supertraits;
    assert_eq!(
        quote::ToTokens::to_token_stream(&rewritten).to_string(),
        quote::ToTokens::to_token_stream(&declared).to_string()
    );
}

#[test]
fn injection_takes_the_capability_it_is_given() {
    let expanded = inject_capability("trait Shape: Send {}", "my_crate::Comparable").unwrap();
    assert!(expanded.starts_with("trait Shape : Send + my_crate :: Comparable { }\n\n"));
    assert!(expanded.ends_with(REFERENCE_EQUALITY_FOR_SHAPE));
}

#[test]
fn attribute_rejects_what_is_no_interface() {
    match dyn_partial_eq("", "struct A(usize);") {
        Err(ExpansionError::MalformedTarget(message)) => assert_eq!(message, "expected `trait`"),
        other => panic!("{:?}", other),
    }
    assert!(matches!(
        dyn_partial_eq("", "trait Shape { \"unterminated }"),
        Err(ExpansionError::MalformedTarget(_))
    ));
    assert!(matches!(dyn_partial_eq("", ""), Err(ExpansionError::MalformedTarget(_))));
    assert!(matches!(
        dyn_partial_eq("trait Shape {}", "impl Shape for A {}"),
        Err(ExpansionError::MalformedTarget(_))
    ));
}

#[test]
fn capability_that_is_no_bound_is_rejected() {
    match inject_capability("trait Shape {}", "not a bound!") {
        Err(ExpansionError::MalformedCapability(message)) => {
            assert_eq!(message, "unexpected token")
        }
        other => panic!("{:?}", other),
    }
    assert!(matches!(
        inject_capability("trait Shape {}", ""),
        Err(ExpansionError::MalformedCapability(_))
    ));
}

#[test]
fn literals_that_the_parser_cannot_read_are_refused() {
    assert!(matches!(
        dyn_partial_eq("", "trait T: Foo<c\"x\"> {}"),
        Err(ExpansionError::UnreadableLiteral)
    ));
    assert!(matches!(
        dyn_partial_eq(
            "",
            "trait Shape { fn tag() -> &'static core::ffi::CStr { c\"shape\" } }"
        ),
        Err(ExpansionError::UnreadableLiteral)
    ));
    assert!(matches!(
        dyn_partial_eq("", "trait Shape { fn tag() -> &'static core::ffi::CStr { cr#\"shape\"# } }"),
        Err(ExpansionError::UnreadableLiteral)
    ));
    assert!(matches!(
        dyn_partial_eq("", "trait T: Foo<(/*ERROR*/)> {}"),
        Err(ExpansionError::UnreadableLiteral)
    ));
    assert!(matches!(
        inject_capability("trait T {}", "Foo<c\"x\">"),
        Err(ExpansionError::UnreadableLiteral)
    ));
    assert!(matches!(
        inject_capability("trait T {}", "Foo<(/*ERROR*/)>"),
        Err(ExpansionError::UnreadableLiteral)
    ));
    assert!(matches!(
        expand_derive("struct A(Foo<c\"x\">);"),
        Err(ExpansionError::UnreadableLiteral)
    ));
    assert!(matches!(
        expand_derive("struct A(Foo<cr\"x\">);"),
        Err(ExpansionError::UnreadableLiteral)
    ));
    assert!(matches!(
        expand_derive("struct A(Foo<(/*ERROR*/)>);"),
        Err(ExpansionError::UnreadableLiteral)
    ));
}

const READABLE: [&str; 30] = [
    "",
    "c",
    "cr",
    "crate::x",
    "struct Magic(u8);",
    "#[doc = \"magic\"] struct A;",
    "#[doc = \"the letter c\"] struct A;",
    "#[serde(rename = \"c\")] struct A;",
    "trait T { fn unit() -> &'static str { \"c\" } }",
    "trait T { fn unit() -> &'static str { \"cr\" } }",
    "trait T { fn unit() -> (char, &'static str) { ('c', \"x\") } }",
    "trait T { fn unit() -> &'static str { \"say c\\\"x\\\" twice\" } }",
    "trait T { fn unit() -> &'static str { r#\"a c\"x\" b\"# } }",
    "trait T { fn unit() -> &'static [u8] { b\"c\\\"x\\\"\" } }",
    "trait T { fn unit() -> &'static [u8] { br##\"c\"x\"#\"## } }",
    "trait T { fn unit() -> &'static str { \"(/*ERROR*/)\" } }",
    "trait T { // c\"x\" and (/*ERROR*/)\n fn unit(); }",
    "trait T { /* c\"x\" /* nested c\"y\" */ (/*ERROR*/) */ fn unit(); }",
    "trait T { /// c\"x\"\n fn unit(); }",
    "trait T { fn unit(/* ERROR */); }",
    "trait T { fn unit() -> u8 { abc\"x\".len() as u8 } }",
    "trait T { fn quote() -> char { '\"' } fn unit() -> &'static str { \"c\" } }",
    "trait T { fn tick() -> char { '\\'' } fn unit() -> &'static str { \"c\" } }",
    "trait T { fn byte() -> u8 { b'\"' } fn unit() -> &'static str { \"c\" } }",
    "trait T { fn slash() -> &'static str { \"\\\\\" } fn unit() -> &'static str { \"c\" } }",
    "trait T<'c> { fn unit(&'c self) -> &'c str { \"x\" } }",
    "struct A { abc: [u8; 1], r: &'static str, b: u8, c: u8 }",
    "trait T { const C: &'static str = \"abc\"; fn f() -> u8 { 0xc } }",
    "trait T { fn f() -> (char, char, char) { ('\\u{63}', '\\x63', '\u{e9}') } fn g() -> &'static str { \"c\" } }",
    "trait T { fn r#c() -> &'static str { \"x\" } }",
];

const UNREADABLE: [&str; 22] = [
    "c\"\"",
    "cr\"\"",
    "cr#\"\"#",
    " c\"x\"",
    "(c\"x\")",
    "(/*ERROR*/)",
    "f((/*ERROR*/))",
    "trait T { fn f(/*ERROR*/); }",
    "trait T: Foo<c\"x\"> {}",
    "trait Shape { fn tag() -> &'static core::ffi::CStr { c\"shape\" } }",
    "trait T { fn f() { let a = \"\\\\\"; let b = c\"x\"; } }",
    "trait T { fn f() { let a = \"c\"; let b = c\"x\"; } }",
    "trait T { fn f() { let a = '\"'; let b = c\"x\"; } }",
    "trait T { fn f() { let a = '\\''; let b = c\"x\"; } }",
    "trait T { fn f() { let a = '\\u{41}'; let b = c\"x\"; } }",
    "trait T { fn f() { let a = b'\"'; let b = c\"x\"; } }",
    "trait T { fn f() { let a = b\"\\\"\"; let b = c\"x\"; } }",
    "trait T { fn f() { let a = r#\"a\"b\"#; let b = c\"x\"; } }",
    "trait T { /* \" */ fn f() { c\"x\"; } }",
    "trait T { // \"\n fn f() { c\"x\"; } }",
    "trait T { /* /* */ */ fn f() { cr##\"x\"##; } }",
    "trait T<'a> { fn f(&'a self) { c\"x\"; } }",
];

#[test]
fn readable_texts_are_told_from_the_others() {
    for text in READABLE {
        assert!(can_read(text), "{}", text);
    }
    for text in UNREADABLE {
        assert!(!can_read(text), "{}", text);
    }
}

#[test]
fn readable_texts_go_through_the_parser() {
    for text in READABLE {
        let _ = syn::parse_str::<syn::File>(text);
        let _ = dyn_partial_eq("", text);
        let _ = expand_derive(text);
    }
    for text in UNREADABLE {
        assert!(matches!(dyn_partial_eq("", text), Err(ExpansionError::UnreadableLiteral)));
        assert!(matches!(expand_derive(text), Err(ExpansionError::UnreadableLiteral)));
    }
}

const PIECES: [&str; 18] = [
    "c", "r", "b", "\"", "'", "#", "\\", "/", "*", " ", "x", "(", ")", "(/*ERROR*/)", "\n",
    "\u{e9}", "1", ".",
];

#[test]
fn no_text_that_is_handed_on_stops_the_parser() {
    let mut handed_on = 0usize;
    let mut refused = 0usize;
    for first in PIECES {
        for second in PIECES {
            for third in PIECES {
                for fourth in PIECES {
                    let body = format!("{}{}{}{}", first, second, third, fourth);
                    for text in [
                        format!("trait T {{ fn f() {{ {} }} }}", body),
                        format!("trait T {{ fn f() {{ a{} }} }}", body),
                        format!("trait T {{ fn f() {{ {} c\"x\" }} }}", body),
                    ] {
                        match dyn_partial_eq("", &text) {
                            Err(ExpansionError::UnreadableLiteral) => refused += 1,
                            _ => handed_on += 1,
                        }
                    }
                }
            }
        }
    }
    assert!(handed_on > 0);
    assert!(refused > 0);
}

#[test]
fn well_formed_declarations_with_a_lone_letter_expand() {
    let expanded = dyn_partial_eq("", "trait T { fn unit() -> &'static str { \"c\" } }").unwrap();
    assert!(expanded.starts_with("trait T : dyn_partial_eq :: DynPartialEq {"));
    assert_eq!(
        expand_derive("#[serde(rename = \"c\")] struct A;").unwrap(),
        SHIM_FOR_A
    );
    assert_eq!(
        expand_derive("#[doc = \"the letter c\"] struct A;").unwrap(),
        SHIM_FOR_A
    );
    assert_eq!(
        dyn_partial_eq_macro_derive("/// ends in cr\nstruct A { name: &'static str }"),
        SHIM_FOR_A
    );
}

#[test]
fn malformed_target_is_reported_before_the_capability() {
    assert!(matches!(
        inject_capability("struct A;", "not a bound!"),
        Err(ExpansionError::MalformedTarget(_))
    ));
}

#[test]
fn generated_text_is_what_the_boxed_tests_are_written_with() {
    let by_hand = "impl DynPartialEq for A { fn as_any(&self) -> dyn_partial_eq::ErasedRef<'_> { dyn_partial_eq::erase(self) } fn box_eq(&self, other: dyn_partial_eq::ErasedRef<'_>) -> bool { dyn_partial_eq::equals_erased(self, other) } }";
    assert_eq!(tokens_of(&impl_dyn_partial_eq("A")), tokens_of(by_hand));
    let by_hand = "trait SomeTrait: dyn_partial_eq::DynPartialEq {} impl core::cmp::PartialEq for Box<dyn SomeTrait> { fn eq(&self, other: &Self) -> bool { dyn_partial_eq::boxed_eq(self, other) } } impl core::cmp::PartialEq<&Self> for Box<dyn SomeTrait> { fn eq(&self, other: &&Self) -> bool { dyn_partial_eq::boxed_eq_ref(self, other) } }";
    assert_eq!(tokens_of(&dyn_partial_eq("", "trait SomeTrait {}").unwrap()), tokens_of(by_hand));
}
