use safe_builder::attr::{
    find_eq_string_from, find_method_name, is_blank, resolve_method_name, Attribute, Token,
};
use safe_builder::error::GenerateError;
use safe_builder::expander::{expand, RecordBody, RecordDef};

fn ident(name: &str) -> Token {
    Token::Ident(name.to_owned())
}

fn string(value: &str) -> Token {
    Token::Str(value.to_owned())
}

fn attribute(tokens: Vec<Token>) -> Attribute {
    Attribute { arguments: Some(tokens) }
}

fn assigns(name: &str, value: Token) -> Attribute {
    attribute(vec![ident(name), Token::Punct('='), value])
}

fn record(attrs: Vec<Attribute>) -> RecordDef {
    RecordDef { name: "Foo".to_owned(), attrs, body: RecordBody::Named(vec![]) }
}

#[test]
fn blank_text_is_told() {
    assert!(is_blank(""));
    assert!(is_blank(" "));
    assert!(is_blank(" \t\r\n"));
    assert!(is_blank("\u{a0}\u{2003}\u{3000}"));
    assert!(!is_blank("a"));
    assert!(!is_blank("  a  "));
    assert!(!is_blank("_"));
    assert!(!is_blank("\u{200b}"));
}

#[test]
fn assignment_is_found_at_the_start_of_the_arguments() {
    assert_eq!(
        find_eq_string_from(&assigns("method_name", string("foo_builder")), "method_name"),
        Ok(Some("foo_builder".to_owned()))
    );
    assert_eq!(
        find_eq_string_from(&assigns("other", string("x")), "other"),
        Ok(Some("x".to_owned()))
    );
    let longer = attribute(vec![
        ident("method_name"),
        Token::Punct('='),
        string("make"),
        Token::Punct(','),
        ident("more"),
    ]);
    assert_eq!(find_eq_string_from(&longer, "method_name"), Ok(Some("make".to_owned())));
}

#[test]
fn assigned_value_is_handed_on_as_it_is() {
    assert_eq!(
        find_eq_string_from(&assigns("method_name", string("  Foo Bar ")), "method_name"),
        Ok(Some("  Foo Bar ".to_owned()))
    );
    assert_eq!(
        find_eq_string_from(&assigns("method_name", string("a\nb")), "method_name"),
        Ok(Some("a\nb".to_owned()))
    );
}

#[test]
fn other_attributes_assign_nothing() {
    assert_eq!(find_eq_string_from(&Attribute { arguments: None }, "method_name"), Ok(None));
    assert_eq!(find_eq_string_from(&attribute(vec![]), "method_name"), Ok(None));
    assert_eq!(
        find_eq_string_from(&attribute(vec![ident("method_name")]), "method_name"),
        Ok(None)
    );
    assert_eq!(find_eq_string_from(&assigns("name", string("x")), "method_name"), Ok(None));
    assert_eq!(find_eq_string_from(&assigns("name", Token::Literal), "method_name"), Ok(None));
    assert_eq!(
        find_eq_string_from(
            &attribute(vec![ident("method_name"), Token::Punct(':'), string("x")]),
            "method_name"
        ),
        Ok(None)
    );
    assert_eq!(
        find_eq_string_from(
            &attribute(vec![ident("method_name"), Token::Group]),
            "method_name"
        ),
        Ok(None)
    );
    assert_eq!(
        find_eq_string_from(
            &attribute(vec![Token::Group, Token::Punct('='), string("x")]),
            "method_name"
        ),
        Ok(None)
    );
    assert_eq!(
        find_eq_string_from(
            &attribute(vec![string("method_name"), Token::Punct('='), string("x")]),
            "method_name"
        ),
        Ok(None)
    );
}

#[test]
fn value_that_is_no_string_is_malformed() {
    let malformed = Err(GenerateError::MalformedOption);
    assert_eq!(find_eq_string_from(&assigns("method_name", Token::Literal), "method_name"), malformed);
    assert_eq!(find_eq_string_from(&assigns("method_name", ident("foo")), "method_name"), malformed);
    assert_eq!(find_eq_string_from(&assigns("method_name", Token::Group), "method_name"), malformed);
    assert_eq!(
        find_eq_string_from(&assigns("method_name", Token::Punct('-')), "method_name"),
        malformed
    );
    assert_eq!(
        find_eq_string_from(
            &attribute(vec![ident("method_name"), Token::Punct('=')]),
            "method_name"
        ),
        malformed
    );
}

#[test]
fn blank_value_is_malformed() {
    let malformed = Err(GenerateError::MalformedOption);
    assert_eq!(find_eq_string_from(&assigns("method_name", string("")), "method_name"), malformed);
    assert_eq!(find_eq_string_from(&assigns("method_name", string("   ")), "method_name"), malformed);
    assert_eq!(
        find_eq_string_from(&assigns("method_name", string("\t\n")), "method_name"),
        malformed
    );
}

#[test]
fn first_assignment_names_the_method() {
    assert_eq!(find_method_name(&vec![]), Ok(None));
    assert_eq!(
        find_method_name(&vec![assigns("method_name", string("one"))]),
        Ok(Some("one".to_owned()))
    );
    assert_eq!(
        find_method_name(&vec![
            Attribute { arguments: None },
            assigns("rename", string("zero")),
            assigns("rename", Token::Literal),
            assigns("method_name", string("one")),
            assigns("method_name", string("two")),
        ]),
        Ok(Some("one".to_owned()))
    );
    assert_eq!(
        find_method_name(&vec![Attribute { arguments: None }, assigns("rename", string("zero"))]),
        Ok(None)
    );
}

#[test]
fn first_assignment_decides_also_where_it_is_malformed() {
    assert_eq!(
        find_method_name(&vec![
            assigns("method_name", Token::Literal),
            assigns("method_name", string("one")),
        ]),
        Err(GenerateError::MalformedOption)
    );
    assert_eq!(
        find_method_name(&vec![
            assigns("method_name", string("one")),
            assigns("method_name", Token::Literal),
        ]),
        Ok(Some("one".to_owned()))
    );
}

#[test]
fn method_name_must_be_an_identifier() {
    assert_eq!(resolve_method_name(None), Ok("builder".to_owned()));
    assert_eq!(
        resolve_method_name(Some("foo_builder".to_owned())),
        Ok("foo_builder".to_owned())
    );
    assert_eq!(resolve_method_name(Some("r#type".to_owned())), Ok("r#type".to_owned()));
    assert_eq!(resolve_method_name(Some(String::new())), Err(GenerateError::MalformedOption));
    assert_eq!(resolve_method_name(Some("   ".to_owned())), Err(GenerateError::MalformedOption));
    assert_eq!(resolve_method_name(Some("1st".to_owned())), Err(GenerateError::MalformedOption));
    assert_eq!(
        resolve_method_name(Some("foo builder".to_owned())),
        Err(GenerateError::MalformedOption)
    );
    assert_eq!(
        resolve_method_name(Some("r#self".to_owned())),
        Err(GenerateError::MalformedOption)
    );
}

#[test]
fn number_for_a_method_name_fails_generation() {
    assert_eq!(
        expand(&record(vec![assigns("method_name", Token::Literal)])),
        Err(GenerateError::MalformedOption)
    );
}

#[test]
fn identifier_for_a_method_name_fails_generation() {
    assert_eq!(
        expand(&record(vec![assigns("method_name", ident("foo"))])),
        Err(GenerateError::MalformedOption)
    );
}

#[test]
fn empty_method_name_fails_generation() {
    assert_eq!(
        expand(&record(vec![assigns("method_name", string(""))])),
        Err(GenerateError::MalformedOption)
    );
    assert_eq!(
        expand(&record(vec![
            assigns("method_name", string("  ")),
            assigns("method_name", string("fine")),
        ])),
        Err(GenerateError::MalformedOption)
    );
}

#[test]
fn method_name_that_is_no_identifier_fails_generation() {
    assert_eq!(
        expand(&record(vec![assigns("method_name", string("not a name"))])),
        Err(GenerateError::MalformedOption)
    );
}

#[test]
fn only_named_fields_are_supported() {
    let input = RecordDef { name: "Foo".to_owned(), attrs: vec![], body: RecordBody::Other };
    assert_eq!(expand(&input), Err(GenerateError::UnsupportedShape));
    let both = RecordDef {
        name: "Foo".to_owned(),
        attrs: vec![assigns("method_name", string(""))],
        body: RecordBody::Other,
    };
    assert_eq!(expand(&both), Err(GenerateError::UnsupportedShape));
}

#[test]
fn errors_have_a_message() {
    assert_eq!(GenerateError::UnsupportedShape.message(), "`Builder` only supports `struct`.");
    assert_eq!(GenerateError::MalformedOption.message(), "`method_name` must be an identifier.");
}
