use safe_builder::schema::{
    classify, extract_schema, inner_type, is_option, Field, FieldSpec, FieldType, GenericArg,
    PathArguments, PathSegment, Schema, TypeShape,
};

fn segment(ident: &str, arguments: PathArguments) -> PathSegment {
    PathSegment { ident: ident.to_owned(), arguments }
}

fn path(text: &str, segments: Vec<PathSegment>) -> FieldType {
    FieldType { text: text.to_owned(), shape: TypeShape::Path(segments) }
}

fn plain(text: &str) -> FieldType {
    path(text, vec![segment(text, PathArguments::Absent)])
}

fn wrapped(wrapper: &str, inner: &str) -> FieldType {
    path(
        &format!("{} < {} >", wrapper, inner),
        vec![segment(wrapper, PathArguments::Angle(vec![GenericArg::Type(inner.to_owned())]))],
    )
}

fn field(name: &str, ty: FieldType) -> Field {
    Field { name: name.to_owned(), ty }
}

fn spec(name: &str, declared: &str, required: bool, value: &str) -> FieldSpec {
    FieldSpec {
        name: name.to_owned(),
        declared_type: declared.to_owned(),
        required,
        value_type: value.to_owned(),
    }
}

fn qualified_option() -> FieldType {
    path(
        "std :: option :: Option < String >",
        vec![
            segment("std", PathArguments::Absent),
            segment("option", PathArguments::Absent),
            segment("Option", PathArguments::Angle(vec![GenericArg::Type("String".to_owned())])),
        ],
    )
}

#[test]
fn option_around_one_type_marks_an_optional_field() {
    assert!(is_option(&wrapped("Option", "String")));
    assert!(is_option(&wrapped("Option", "Vec < u8 >")));
    assert!(!is_option(&plain("Option")));
    assert!(!is_option(&qualified_option()));
    assert!(!is_option(&plain("String")));
    assert!(!is_option(&wrapped("Vec", "Option < u8 >")));
    assert!(!is_option(&path("", vec![])));
    assert!(!is_option(&FieldType { text: "& str".to_owned(), shape: TypeShape::Other }));
    assert!(!is_option(&plain("option")));
    let two = path(
        "option :: Option",
        vec![segment("option", PathArguments::Absent), segment("Option", PathArguments::Absent)],
    );
    assert!(!is_option(&two));
    assert_eq!(inner_type("Option", &two), None);
}

#[test]
fn every_optional_type_has_an_inner_type() {
    let types = vec![
        wrapped("Option", "String"),
        plain("Option"),
        qualified_option(),
        plain("String"),
        wrapped("Vec", "u8"),
        path("Option < 'a >", vec![segment("Option", PathArguments::Angle(vec![GenericArg::Other]))]),
        path("Option (u8)", vec![segment("Option", PathArguments::Parenthesized)]),
        FieldType { text: "()".to_owned(), shape: TypeShape::Other },
    ];
    for ty in &types {
        assert_eq!(is_option(ty), inner_type("Option", ty).is_some());
    }
}

#[test]
fn inner_type_of_a_single_argument_wrapper() {
    assert_eq!(inner_type("Option", &wrapped("Option", "String")), Some(&"String".to_owned()));
    assert_eq!(inner_type("Vec", &wrapped("Vec", "u8")), Some(&"u8".to_owned()));
    assert_eq!(inner_type("Option", &wrapped("Vec", "u8")), None);
    assert_eq!(inner_type("Option", &plain("Option")), None);
    assert_eq!(inner_type("Option", &plain("String")), None);
    assert_eq!(inner_type("Option", &qualified_option()), None);
    assert_eq!(
        inner_type("Option", &FieldType { text: "()".to_owned(), shape: TypeShape::Other }),
        None
    );
}

#[test]
fn inner_type_needs_exactly_one_type_argument() {
    let two = path(
        "Option < A , B >",
        vec![segment(
            "Option",
            PathArguments::Angle(vec![
                GenericArg::Type("A".to_owned()),
                GenericArg::Type("B".to_owned()),
            ]),
        )],
    );
    assert_eq!(inner_type("Option", &two), None);
    let none = path("Option < >", vec![segment("Option", PathArguments::Angle(vec![]))]);
    assert_eq!(inner_type("Option", &none), None);
    let lifetime =
        path("Option < 'a >", vec![segment("Option", PathArguments::Angle(vec![GenericArg::Other]))]);
    assert_eq!(inner_type("Option", &lifetime), None);
    let call = path("Option (u8)", vec![segment("Option", PathArguments::Parenthesized)]);
    assert_eq!(inner_type("Option", &call), None);
}

#[test]
fn fields_are_classified_by_shape() {
    assert_eq!(
        classify(&field("id", plain("String"))),
        spec("id", "String", true, "String")
    );
    assert_eq!(
        classify(&field("addr", wrapped("Option", "String"))),
        spec("addr", "Option < String >", false, "String")
    );
    assert_eq!(
        classify(&field("tags", wrapped("Vec", "String"))),
        spec("tags", "Vec < String >", true, "Vec < String >")
    );
}

#[test]
fn option_in_another_shape_is_required() {
    assert_eq!(
        classify(&field("addr", qualified_option())),
        spec(
            "addr",
            "std :: option :: Option < String >",
            true,
            "std :: option :: Option < String >"
        )
    );
    assert_eq!(
        classify(&field("raw", plain("Option"))),
        spec("raw", "Option", true, "Option")
    );
}

fn user_schema() -> Schema {
    extract_schema(&vec![
        field("id", plain("String")),
        field("addr", wrapped("Option", "String")),
        field("name", plain("String")),
        field("age", wrapped("Option", "u8")),
    ])
}

#[test]
fn schema_keeps_declaration_order() {
    let schema = user_schema();
    let names: Vec<&str> = schema.fields.iter().map(|f| f.name.as_str()).collect();
    assert_eq!(names, vec!["id", "addr", "name", "age"]);
    let required: Vec<bool> = schema.fields.iter().map(|f| f.required).collect();
    assert_eq!(required, vec![true, false, true, false]);
    assert_eq!(extract_schema(&vec![]).fields, vec![]);
}

#[test]
fn required_indices_follow_declaration_order() {
    let schema = user_schema();
    assert_eq!(schema.positions_of(true), vec![0, 2]);
    assert_eq!(schema.positions_of(false), vec![1, 3]);
    assert_eq!(schema.required_count(), 2);
    let empty = Schema { fields: vec![] };
    assert_eq!(empty.positions_of(true), Vec::<usize>::new());
    assert_eq!(empty.required_count(), 0);
}

#[test]
fn distinct_names_are_told() {
    assert!(user_schema().has_distinct_names());
    assert!(Schema { fields: vec![] }.has_distinct_names());
    let twice = extract_schema(&vec![
        field("id", plain("String")),
        field("name", plain("String")),
        field("id", plain("u8")),
    ]);
    assert!(!twice.has_distinct_names());
}
