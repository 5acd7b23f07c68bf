use safe_builder::attr::{Attribute, Token};
use safe_builder::expander::{expand, RecordBody, RecordDef};
use safe_builder::schema::{Field, FieldType, GenericArg, PathArguments, PathSegment, TypeShape};
use safe_builder::typestate::Record;

fn plain(text: &str) -> FieldType {
    FieldType {
        text: text.to_owned(),
        shape: TypeShape::Path(vec![PathSegment {
            ident: text.to_owned(),
            arguments: PathArguments::Absent,
        }]),
    }
}

fn option_of(inner: &str) -> FieldType {
    FieldType {
        text: format!("Option < {} >", inner),
        shape: TypeShape::Path(vec![PathSegment {
            ident: "Option".to_owned(),
            arguments: PathArguments::Angle(vec![GenericArg::Type(inner.to_owned())]),
        }]),
    }
}

fn field(name: &str, ty: FieldType) -> Field {
    Field { name: name.to_owned(), ty }
}

fn record(name: &str, attrs: Vec<Attribute>, fields: Vec<Field>) -> RecordDef {
    RecordDef { name: name.to_owned(), attrs, body: RecordBody::Named(fields) }
}

fn user() -> RecordDef {
    record(
        "User",
        vec![],
        vec![
            field("id", plain("String")),
            field("name", plain("String")),
            field("addr", option_of("String")),
        ],
    )
}

fn method_name(value: &str) -> Attribute {
    Attribute {
        arguments: Some(vec![
            Token::Ident("method_name".to_owned()),
            Token::Punct('='),
            Token::Str(value.to_owned()),
        ]),
    }
}

#[test]
fn smoke_test() {
    let user = expand(&user()).unwrap();
    let builder = user.enter::<String>("builder").unwrap();
    let builder = user.call(builder, "id", "1234".to_owned()).unwrap();
    let builder = user.call(builder, "name", "bokuweb".to_owned()).unwrap();
    let me = user.build(builder).unwrap();
    assert_eq!(
        Record {
            values: vec![Some("1234".to_owned()), Some("bokuweb".to_owned()), None],
        },
        me
    )
}

#[test]
fn rename_builder_test() {
    let plan = expand(&record(
        "Foo",
        vec![method_name("foo_builder")],
        vec![field("bar", plain("String"))],
    ))
    .unwrap();
    let builder = plan.enter::<String>("foo_builder").unwrap();
    let builder = plan.call(builder, "bar", "bokuweb".to_owned()).unwrap();
    let foo = plan.build(builder).unwrap();
    assert_eq!(
        Record {
            values: vec![Some("bokuweb".to_owned())],
        },
        foo
    )
}

#[test]
fn raw_identifier_test() {
    let plan = expand(&record(
        "RawIdentifier",
        vec![],
        vec![field("id", plain("String")), field("r#type", plain("String"))],
    ))
    .unwrap();
    let builder = plan.enter::<String>("builder").unwrap();
    let builder = plan.call(builder, "id", "1234".to_owned()).unwrap();
    let builder = plan.call(builder, "r#type", "type".to_owned()).unwrap();
    let raw_ident = plan.build(builder).unwrap();
    assert_eq!(
        Record {
            values: vec![Some("1234".to_owned()), Some("type".to_owned())],
        },
        raw_ident
    )
}

#[test]
fn reversed_order_builds_the_same_record() {
    let user = expand(&user()).unwrap();
    let builder = user.enter::<String>("builder").unwrap();
    let builder = user.call(builder, "name", "x".to_owned()).unwrap();
    let builder = user.call(builder, "id", "y".to_owned()).unwrap();
    let me = user.build(builder).unwrap();
    assert_eq!(
        Record {
            values: vec![Some("y".to_owned()), Some("x".to_owned()), None],
        },
        me
    );
}

#[test]
fn no_required_field_builds_at_once() {
    let plan = expand(&record("Foo", vec![], vec![field("bar", option_of("String"))])).unwrap();
    assert!(plan.type_params.is_empty());
    let builder = plan.enter::<String>("builder").unwrap();
    let foo = plan.build(builder).unwrap();
    assert_eq!(Record { values: vec![None] }, foo);
}

#[test]
fn renamed_entry_point_has_one_name() {
    let plan = expand(&record(
        "Foo",
        vec![method_name("foo_builder")],
        vec![field("bar", plain("String"))],
    ))
    .unwrap();
    assert_eq!(plan.method_name, "foo_builder");
    assert!(plan.enter::<String>("foo_builder").is_some());
    assert!(plan.enter::<String>("builder").is_none());
    assert!(plan.enter::<String>("bar").is_none());
}

#[test]
fn default_entry_point_is_builder() {
    let plan = expand(&user()).unwrap();
    assert_eq!(plan.method_name, "builder");
    assert!(plan.enter::<String>("builder").is_some());
    assert!(plan.enter::<String>("foo_builder").is_none());
}

#[test]
fn build_needs_every_required_field() {
    let user = expand(&user()).unwrap();
    let start = user.enter::<String>("builder").unwrap();
    assert!(user.build(start.clone()).is_none());
    let only_id = user.call(start.clone(), "id", "1".to_owned()).unwrap();
    assert!(user.build(only_id.clone()).is_none());
    let only_name = user.call(start.clone(), "name", "n".to_owned()).unwrap();
    assert!(user.build(only_name).is_none());
    let with_addr = user.call(only_id.clone(), "addr", "a".to_owned()).unwrap();
    assert!(user.build(with_addr.clone()).is_none());
    let all = user.call(with_addr, "name", "n".to_owned()).unwrap();
    assert_eq!(
        user.build(all),
        Some(Record {
            values: vec![Some("1".to_owned()), Some("n".to_owned()), Some("a".to_owned())],
        })
    );
}

#[test]
fn every_order_of_setters_reaches_build() {
    let user = expand(&user()).unwrap();
    let orders = [
        ["id", "name", "addr"],
        ["id", "addr", "name"],
        ["name", "id", "addr"],
        ["name", "addr", "id"],
        ["addr", "id", "name"],
        ["addr", "name", "id"],
    ];
    for order in orders {
        let mut builder = user.enter::<String>("builder").unwrap();
        for name in order {
            builder = user.call(builder, name, format!("value of {}", name)).unwrap();
        }
        assert_eq!(
            user.build(builder),
            Some(Record {
                values: vec![
                    Some("value of id".to_owned()),
                    Some("value of name".to_owned()),
                    Some("value of addr".to_owned()),
                ],
            })
        );
    }
}

#[test]
fn optional_field_keeps_the_last_value() {
    let user = expand(&user()).unwrap();
    let builder = user.enter::<String>("builder").unwrap();
    let builder = user.call(builder, "addr", "first".to_owned()).unwrap();
    let builder = user.call(builder, "id", "1".to_owned()).unwrap();
    let builder = user.call(builder, "addr", "second".to_owned()).unwrap();
    let builder = user.call(builder, "name", "n".to_owned()).unwrap();
    let builder = user.call(builder, "addr", "third".to_owned()).unwrap();
    assert_eq!(
        user.build(builder),
        Some(Record {
            values: vec![Some("1".to_owned()), Some("n".to_owned()), Some("third".to_owned())],
        })
    );
}

#[test]
fn required_setter_is_gone_once_called() {
    let user = expand(&user()).unwrap();
    let builder = user.enter::<String>("builder").unwrap();
    let builder = user.call(builder, "id", "1".to_owned()).unwrap();
    assert_eq!(builder.state, vec![Some("String".to_owned()), None]);
    assert!(user.call(builder.clone(), "id", "2".to_owned()).is_none());
    let builder = user.call(builder, "addr", "a".to_owned()).unwrap();
    assert!(user.call(builder, "id", "2".to_owned()).is_none());
}

#[test]
fn unknown_setter_is_refused() {
    let user = expand(&user()).unwrap();
    let builder = user.enter::<String>("builder").unwrap();
    assert!(user.call(builder.clone(), "email", "x".to_owned()).is_none());
    assert!(user.call(builder, "build", "x".to_owned()).is_none());
}

#[test]
fn entry_point_returns_the_unset_builder() {
    let user = expand(&user()).unwrap();
    let builder = user.enter::<u32>("builder").unwrap();
    assert_eq!(builder.state, vec![None, None]);
    assert_eq!(builder.slots, vec![None, None, None]);
}

#[test]
fn setter_changes_its_own_position_only() {
    let user = expand(&user()).unwrap();
    let builder = user.enter::<u32>("builder").unwrap();
    let builder = user.call(builder, "name", 7).unwrap();
    assert_eq!(builder.state, vec![None, Some("String".to_owned())]);
    assert_eq!(builder.slots, vec![None, Some(7), None]);
    let builder = user.call(builder, "addr", 9).unwrap();
    assert_eq!(builder.state, vec![None, Some("String".to_owned())]);
    assert_eq!(builder.slots, vec![None, Some(7), Some(9)]);
}

fn unit() -> FieldType {
    FieldType { text: "()".to_owned(), shape: TypeShape::Other }
}

#[test]
fn unit_typed_required_field_blocks_build_until_it_is_set() {
    let plan = expand(&record("Marker", vec![], vec![field("unit", unit())])).unwrap();
    let start = plan.enter::<u8>("builder").unwrap();
    assert_eq!(start.state, vec![None]);
    assert_eq!(plan.build(start.clone()), None);
    let set = plan.call(start, "unit", 0).unwrap();
    assert_eq!(set.state, vec![Some("()".to_owned())]);
    assert!(plan.call(set.clone(), "unit", 1).is_none());
    assert_eq!(plan.build(set), Some(Record { values: vec![Some(0)] }));
}

#[test]
fn required_field_of_any_type_blocks_build_until_it_is_set() {
    let types = vec![
        unit(),
        plain("String"),
        plain("MarkerBuilderUnset"),
        plain("XType"),
        FieldType { text: "& 'static str".to_owned(), shape: TypeShape::Other },
    ];
    for ty in types {
        let plan = expand(&record(
            "Marker",
            vec![],
            vec![field("x", ty.clone()), field("y", option_of("u8"))],
        ))
        .unwrap();
        let start = plan.enter::<u8>("builder").unwrap();
        assert_eq!(plan.build(start.clone()), None);
        let other = plan.call(start.clone(), "y", 2).unwrap();
        assert_eq!(plan.build(other), None);
        let set = plan.call(start, "x", 1).unwrap();
        assert_eq!(set.state, vec![Some(ty.text.clone())]);
        assert_eq!(plan.build(set), Some(Record { values: vec![Some(1), None] }));
    }
}

#[test]
fn field_names_beyond_ascii() {
    let plan = expand(&record(
        "Mesure",
        vec![],
        vec![field("a\u{e9}Bc", plain("f64")), field("unit\u{e9}", option_of("String"))],
    ))
    .unwrap();
    assert_eq!(plan.setters[0].decls, Vec::<String>::new());
    assert_eq!(
        plan.type_params,
        vec![safe_builder::typevars::TypeArg::Param("A\u{e9}BcType".to_owned())]
    );
    let builder = plan.enter::<u8>("builder").unwrap();
    let builder = plan.call(builder, "a\u{e9}Bc", 1).unwrap();
    assert_eq!(plan.build(builder), Some(Record { values: vec![Some(1), None] }));
}
