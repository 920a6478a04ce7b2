use pseudonym::alias;
use pseudonym::declaration::Declaration;
use pseudonym::error::{AliasError, ArgError, Fault};

fn spell(stream: proc_macro2::TokenStream, out: &mut Vec<String>) {
    for tree in stream {
        match tree {
            proc_macro2::TokenTree::Group(group) => {
                out.push(format!("{:?}(", group.delimiter()));
                spell(group.stream(), out);
                out.push(")".to_string());
            }
            proc_macro2::TokenTree::Ident(word) => out.push(word.to_string()),
            proc_macro2::TokenTree::Punct(punct) => out.push(punct.as_char().to_string()),
            proc_macro2::TokenTree::Literal(literal) => out.push(literal.to_string()),
        }
    }
}

/// The tokens of the text, one by one, so that spacing does not count.
fn tokens(text: &str) -> String {
    let mut out = Vec::new();
    spell(text.parse::<proc_macro2::TokenStream>().unwrap(), &mut out);
    out.join(" ")
}

fn expanded(args: &str, input: &str) -> Vec<String> {
    alias(args, input).unwrap().iter().map(|text| tokens(text)).collect()
}

fn malformed(fault: Fault, at: usize, inside: Option<usize>) -> AliasError {
    AliasError::MalformedArguments(ArgError { fault, at, inside })
}

#[test]
fn constant_with_three_aliases() {
    let out = alias(
        "B1, deprecated(B2), deprecated(B3, since=\"0.1.0\")",
        "const A: int = 5;",
    )
    .unwrap();
    assert_eq!(out.len(), 4);
    assert_eq!(out[0], "const A: int = 5;");
    assert_eq!(tokens(&out[1]), tokens("const B1: int = 5;"));
    assert_eq!(tokens(&out[2]), tokens("#[deprecated] const B2: int = 5;"));
    assert_eq!(
        tokens(&out[3]),
        tokens("#[deprecated(since = \"0.1.0\")] const B3: int = 5;")
    );
}

#[test]
fn implementation_block_with_two_aliases() {
    let out = expanded("S1, S2", "impl S { fn new() -> Self { S(5) } }");
    assert_eq!(
        out,
        vec![
            tokens("impl S { fn new() -> Self { S(5) } }"),
            tokens("impl S1 { fn new() -> Self { S(5) } }"),
            tokens("impl S2 { fn new() -> Self { S(5) } }"),
        ]
    );
}

#[test]
fn function_alias() {
    let out = expanded("short_name", "fn very_long_function_name() { }");
    assert_eq!(
        out,
        vec![tokens("fn very_long_function_name() { }"), tokens("fn short_name() { }")]
    );
}

#[test]
fn structure_with_every_marker_shape() {
    let out = expanded(
        "S1, deprecated(S2), deprecated(S3, since = \"0.1.0\"), \
         deprecated(S4, note = \"deprecation note\"), \
         deprecated(S5, since = \"0.1.0\", note = \"deprecation note\")",
        "struct S(i32);",
    );
    assert_eq!(
        out,
        vec![
            tokens("struct S(i32);"),
            tokens("struct S1(i32);"),
            tokens("#[deprecated] struct S2(i32);"),
            tokens("#[deprecated(since = \"0.1.0\")] struct S3(i32);"),
            tokens("#[deprecated(note = \"deprecation note\")] struct S4(i32);"),
            tokens(
                "#[deprecated(since = \"0.1.0\", note = \"deprecation note\")] struct S5(i32);"
            ),
        ]
    );
}

#[test]
fn trait_with_every_marker_shape() {
    let out = expanded(
        "T1, deprecated(T2), deprecated(T3, since = \"0.1.0\"), \
         deprecated(T4, note = \"deprecation note\"), \
         deprecated(T5, since = \"0.1.0\", note = \"deprecation note\")",
        "trait T { fn t(self); }",
    );
    assert_eq!(
        out,
        vec![
            tokens("trait T { fn t(self); }"),
            tokens("trait T1 { fn t(self); }"),
            tokens("#[deprecated] trait T2 { fn t(self); }"),
            tokens("#[deprecated(since = \"0.1.0\")] trait T3 { fn t(self); }"),
            tokens("#[deprecated(note = \"deprecation note\")] trait T4 { fn t(self); }"),
            tokens(
                "#[deprecated(since = \"0.1.0\", note = \"deprecation note\")] \
                 trait T5 { fn t(self); }"
            ),
        ]
    );
}

#[test]
fn constant_with_every_marker_shape() {
    let out = expanded(
        "C1, deprecated(C2), deprecated(C3, since = \"0.1.0\"), \
         deprecated(C4, note = \"deprecation note\"), \
         deprecated(C5, since = \"0.1.0\", note = \"deprecation note\")",
        "const C: u8 = 1;",
    );
    assert_eq!(
        out,
        vec![
            tokens("const C: u8 = 1;"),
            tokens("const C1: u8 = 1;"),
            tokens("#[deprecated] const C2: u8 = 1;"),
            tokens("#[deprecated(since = \"0.1.0\")] const C3: u8 = 1;"),
            tokens("#[deprecated(note = \"deprecation note\")] const C4: u8 = 1;"),
            tokens("#[deprecated(since = \"0.1.0\", note = \"deprecation note\")] const C5: u8 = 1;"),
        ]
    );
}

#[test]
fn implementation_block_with_a_comma_behind_the_last_entry() {
    let out = expanded(
        "S1, deprecated(S2), deprecated(S3, since = \"0.1.0\"), \
         deprecated(S4, note = \"deprecation note\"), \
         deprecated(S5, since = \"0.1.0\", note = \"deprecation note\"),",
        "impl S { fn new() -> Self { Self(5) } }",
    );
    assert_eq!(out.len(), 6);
    assert_eq!(out[1], tokens("impl S1 { fn new() -> Self { Self(5) } }"));
    assert_eq!(
        out[5],
        tokens(
            "#[deprecated(since = \"0.1.0\", note = \"deprecation note\")] \
             impl S5 { fn new() -> Self { Self(5) } }"
        )
    );
}

#[test]
fn last_value_of_a_repeated_key_wins() {
    let out = expanded("deprecated(x, since = \"1.0\", since = \"2.0\")", "fn f() {}");
    assert_eq!(out, vec![tokens("fn f() {}"), tokens("#[deprecated(since = \"2.0\")] fn x() {}")]);
}

#[test]
fn keys_in_either_order() {
    let out = expanded("deprecated(x, note = \"n\", since = \"s\")", "fn f() {}");
    assert_eq!(out[1], tokens("#[deprecated(since = \"s\", note = \"n\")] fn x() {}"));
}

#[test]
fn only_the_name_changes() {
    let input = "#[inline] pub(crate) unsafe fn f<'a, T: Clone>(x: &'a T) -> T where T: Send \
                 { /* kept */ x.clone() }";
    let out = expanded("g", input);
    assert_eq!(
        out[1],
        tokens(
            "#[inline] pub(crate) unsafe fn g<'a, T: Clone>(x: &'a T) -> T where T: Send \
             { x.clone() }"
        )
    );
}

#[test]
fn the_declaration_comes_first_as_it_was_given() {
    let input = "fn   spaced ( )  { }";
    let out = alias("a, b", input).unwrap();
    assert_eq!(out[0], input);
}

#[test]
fn a_marker_is_added_to_the_markers_already_there() {
    let out = expanded("deprecated(g)", "#[deprecated] fn f() {}");
    assert_eq!(out[1], tokens("#[deprecated] #[deprecated] fn g() {}"));
}

#[test]
fn only_the_leading_segment_of_the_target_changes() {
    let out = expanded("other", "impl<T> Tr for outer::Inner<T> {}");
    assert_eq!(out[1], tokens("impl<T> Tr for other::Inner<T> {}"));
}

#[test]
fn the_same_alias_twice_gives_two_duplicates() {
    let out = expanded("X, X", "struct S;");
    assert_eq!(out, vec![tokens("struct S;"), tokens("struct X;"), tokens("struct X;")]);
}

#[test]
fn a_note_is_written_as_a_string_literal() {
    let out = expanded("deprecated(g, note = \"say \\\"no\\\" \\\\ twice\")", "fn f() {}");
    assert_eq!(out[1], tokens("#[deprecated(note = \"say \\\"no\\\" \\\\ twice\")] fn g() {}"));
    assert!(out[1].contains("\\\"no\\\""));
}

#[test]
fn a_raw_string_is_read_by_its_value() {
    let out = expanded("deprecated(g, note = r#\"a \"b\"\"#)", "fn f() {}");
    assert_eq!(out[1], tokens("#[deprecated(note = \"a \\\"b\\\"\")] fn g() {}"));
}

#[test]
fn deprecated_without_its_group_is_a_fault() {
    assert_eq!(
        alias("deprecated", "fn f() {}"),
        Err(malformed(Fault::ExpectedParentheses, 1, None))
    );
    assert_eq!(
        alias("deprecated, other", "fn f() {}"),
        Err(malformed(Fault::ExpectedParentheses, 1, None))
    );
    assert_eq!(
        alias("a, deprecated", "fn f() {}"),
        Err(malformed(Fault::ExpectedParentheses, 3, None))
    );
    assert_eq!(
        alias("a, deprecated,", "fn f() {}"),
        Err(malformed(Fault::ExpectedParentheses, 3, None))
    );
}

#[test]
fn a_deprecated_alias_may_be_called_deprecated() {
    let out = expanded("deprecated(deprecated)", "fn f() {}");
    assert_eq!(out, vec![tokens("fn f() {}"), tokens("#[deprecated] fn deprecated() {}")]);
}

#[test]
fn other_declarations_are_unsupported() {
    for input in [
        "enum E { A }",
        "static X: u8 = 1;",
        "type T = u8;",
        "mod m {}",
        "use std::fmt;",
        "union U { a: u8 }",
        "macro_rules! m { () => {} }",
        "extern crate alloc;",
    ] {
        assert_eq!(alias("a", input), Err(AliasError::UnsupportedDeclaration), "{}", input);
    }
}

#[test]
fn text_that_is_no_item_is_no_declaration() {
    assert_eq!(alias("a", "fn"), Err(AliasError::NotADeclaration));
    assert_eq!(alias("a", ""), Err(AliasError::NotADeclaration));
    assert_eq!(alias("a", "fn f() {} fn g() {}"), Err(AliasError::NotADeclaration));
    assert_eq!(alias("a", "fn f() {"), Err(AliasError::NotADeclaration));
    assert_eq!(alias("a", "1 + 1"), Err(AliasError::NotADeclaration));
}

#[test]
fn an_implementation_for_an_unnamed_type_is_turned_down() {
    assert_eq!(alias("a", "impl Tr for (u8, u8) {}"), Err(AliasError::MalformedSelfType));
    assert_eq!(alias("a", "impl<T> Tr for &T {}"), Err(AliasError::MalformedSelfType));
    assert_eq!(alias("a", "impl Tr for [u8] {}"), Err(AliasError::MalformedSelfType));
}

#[test]
fn arguments_are_read_before_the_declaration() {
    assert_eq!(alias("", "enum E { A }"), Err(malformed(Fault::Empty, 0, None)));
}

#[test]
fn an_empty_list_is_malformed() {
    assert_eq!(alias("", "fn f() {}"), Err(malformed(Fault::Empty, 0, None)));
    assert_eq!(alias("   ", "fn f() {}"), Err(malformed(Fault::Empty, 0, None)));
}

#[test]
fn unreadable_arguments_are_malformed() {
    assert_eq!(alias("a, (", "fn f() {}"), Err(malformed(Fault::Unreadable, 0, None)));
}

#[test]
fn an_entry_must_be_a_name() {
    assert_eq!(alias(",", "fn f() {}"), Err(malformed(Fault::ExpectedName, 0, None)));
    assert_eq!(alias("a,,", "fn f() {}"), Err(malformed(Fault::ExpectedName, 2, None)));
    assert_eq!(alias("a, \"b\"", "fn f() {}"), Err(malformed(Fault::ExpectedName, 2, None)));
    assert_eq!(alias("a, fn", "fn f() {}"), Err(malformed(Fault::ExpectedName, 2, None)));
    assert_eq!(alias("_", "fn f() {}"), Err(malformed(Fault::ExpectedName, 0, None)));
    assert_eq!(alias("(a)", "fn f() {}"), Err(malformed(Fault::ExpectedName, 0, None)));
}

#[test]
fn entries_are_separated_by_commas() {
    assert_eq!(alias("a b", "fn f() {}"), Err(malformed(Fault::ExpectedComma, 1, None)));
    assert_eq!(alias("a [b]", "fn f() {}"), Err(malformed(Fault::ExpectedComma, 1, None)));
    assert_eq!(
        alias("deprecated(a) b", "fn f() {}"),
        Err(malformed(Fault::ExpectedComma, 2, None))
    );
}

#[test]
fn deprecated_takes_parentheses() {
    assert_eq!(
        alias("deprecated[a]", "fn f() {}"),
        Err(malformed(Fault::ExpectedParentheses, 1, None))
    );
    assert_eq!(
        alias("a, deprecated \"b\"", "fn f() {}"),
        Err(malformed(Fault::ExpectedParentheses, 3, None))
    );
}

#[test]
fn only_deprecated_takes_a_group() {
    assert_eq!(alias("a, b(c)", "fn f() {}"), Err(malformed(Fault::OnlyDeprecated, 2, None)));
}

#[test]
fn a_group_starts_with_a_name() {
    assert_eq!(alias("deprecated()", "fn f() {}"), Err(malformed(Fault::ExpectedName, 1, Some(0))));
    assert_eq!(
        alias("deprecated(since = \"1\")", "fn f() {}"),
        Err(malformed(Fault::ExpectedComma, 1, Some(1)))
    );
    assert_eq!(
        alias("a, deprecated(\"x\")", "fn f() {}"),
        Err(malformed(Fault::ExpectedName, 3, Some(0)))
    );
}

#[test]
fn pairs_stand_behind_commas() {
    assert_eq!(
        alias("deprecated(x since = \"1\")", "fn f() {}"),
        Err(malformed(Fault::ExpectedComma, 1, Some(1)))
    );
    assert_eq!(
        alias("deprecated(x, since = \"1\" note = \"n\")", "fn f() {}"),
        Err(malformed(Fault::ExpectedComma, 1, Some(5)))
    );
}

#[test]
fn a_pair_is_a_key_an_equals_sign_and_a_string() {
    for (args, inside) in [
        ("deprecated(x, since)", 2),
        ("deprecated(x, since \"1\")", 2),
        ("deprecated(x, since = )", 2),
        ("deprecated(x, since = 1)", 2),
        ("deprecated(x, since = b\"1\")", 2),
        ("deprecated(x, since = 'c')", 2),
        ("deprecated(x, \"since\" = \"1\")", 2),
        ("deprecated(x, type = \"1\")", 2),
        ("deprecated(x,,)", 2),
        ("deprecated(x, since = \"1\",,)", 6),
        ("deprecated(x, since == \"1\")", 2),
    ] {
        assert_eq!(
            alias(args, "fn f() {}"),
            Err(malformed(Fault::ExpectedKeyValue, 1, Some(inside))),
            "{}",
            args
        );
    }
}

#[test]
fn only_since_and_note_are_keys() {
    assert_eq!(
        alias("deprecated(x, version = \"1\")", "fn f() {}"),
        Err(malformed(Fault::UnknownKey, 1, Some(2)))
    );
    assert_eq!(
        alias("deprecated(x, since = \"1\", Note = \"n\")", "fn f() {}"),
        Err(malformed(Fault::UnknownKey, 1, Some(6)))
    );
}

#[test]
fn one_comma_may_end_a_group() {
    let plain = expanded("deprecated(x)", "fn f() {}");
    assert_eq!(expanded("deprecated(x,)", "fn f() {}"), plain);
    let since = expanded("deprecated(x, since = \"1\")", "fn f() {}");
    assert_eq!(expanded("deprecated(x, since = \"1\",)", "fn f() {}"), since);
}

#[test]
fn no_duplicates_on_failure() {
    assert!(alias("a, b, deprecated(c, nope = \"x\")", "fn f() {}").is_err());
    assert!(alias("a, b", "enum E {}").is_err());
}

#[test]
fn messages() {
    assert_eq!(AliasError::UnsupportedDeclaration.message(), "unsupported item");
    assert_eq!(AliasError::NotADeclaration.message(), "expected an item");
    assert_eq!(
        malformed(Fault::OnlyDeprecated, 0, None).message(),
        "invalid argument, only `deprecated` is supported"
    );
    assert_eq!(
        malformed(Fault::UnknownKey, 0, Some(2)).message(),
        "invalid argument, only `since` and `note` are supported"
    );
    assert_eq!(Fault::ExpectedKeyValue.message(), "expected a key-value pair");
    assert_eq!(Fault::ExpectedParentheses.message(), "expected parentheses");
    assert_eq!(Fault::ExpectedName.message(), "expected identifier");
    assert_eq!(Fault::ExpectedComma.message(), "expected `,`");
    assert_eq!(Fault::Empty.message(), "expected at least one alias");
    assert_eq!(Fault::Unreadable.message(), "arguments are not a sequence of tokens");
    assert_eq!(
        AliasError::MalformedSelfType.message(),
        "implementation target is not a named type"
    );
}

#[test]
fn duplicates_are_declarations_of_the_same_kind() {
    for input in [
        "#[inline] pub fn f<T>(t: T) -> T { t }",
        "pub struct S<T> { pub t: T }",
        "pub trait T: Sized { type A; fn f(&self); }",
        "impl<T> core::fmt::Debug for S<T> { }",
        "pub const C: &str = \"c\";",
    ] {
        let kind = Declaration::read(input).unwrap().kind;
        let out = alias("a, deprecated(b, note = \"n\")", input).unwrap();
        assert_eq!(out.len(), 3);
        for text in &out {
            assert_eq!(Declaration::read(text).unwrap().kind, kind, "{}", text);
        }
    }
}

#[test]
fn texts_are_printed_the_same_way_every_time() {
    let out = alias("short, deprecated(old, since = \"0.2.0\")", "fn long_name() {}").unwrap();
    assert_eq!(
        out,
        vec![
            "fn long_name() {}".to_string(),
            "fn short () { }".to_string(),
            "#[deprecated(since = \"0.2.0\")] fn old () { }".to_string(),
        ]
    );
    proc_macro2::fallback::unforce();
    assert_eq!(
        alias("short, deprecated(old, since = \"0.2.0\")", "fn long_name() {}").unwrap(),
        out
    );
}
