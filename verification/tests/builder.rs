use record_derive::builder::{
    derive_struct, derive_struct_named, field_setter, resolve_field, struct_name_impl_struct,
    struct_named_struct_builder, struct_named_struct_builder_def,
    struct_named_struct_builder_impl_build, struct_named_struct_builder_impl_setters, BuildStep,
    BuilderField, BuilderPlan, BuilderType, Initial, Setter, SetterKind,
};
use record_derive::error::Error;
use record_derive::resolver::BuilderDirective;
use record_derive::schema::{
    Data, FieldDescriptor, Fields, Literal, Location, Meta, Nested, RawAnnotation, RecordDefinition,
    TypeExpr, TypeSchema,
};

fn named(name: &str) -> TypeExpr {
    TypeExpr::Named(name.to_string())
}

fn applied(wrapper: &str, inner: TypeExpr) -> TypeExpr {
    TypeExpr::Applied(wrapper.to_string(), Box::new(inner))
}

fn each(alias: &str, field: usize) -> RawAnnotation {
    RawAnnotation {
        name: "builder".to_string(),
        meta: Meta::List(vec![Nested::KeyValue("each".to_string(), Literal::Str(alias.to_string()))]),
        location: Location { field, annotation: 4 },
    }
}

fn field(name: &str, ty: TypeExpr, annotations: Vec<RawAnnotation>) -> FieldDescriptor {
    FieldDescriptor { name: name.to_string(), declared_type: ty, annotations }
}

fn record(name: &str, fields: Vec<FieldDescriptor>) -> RecordDefinition {
    RecordDefinition { name: name.to_string(), generics: vec![], data: Data::Struct(Fields::Named(fields)) }
}

fn full(name: &str, position: usize, param: TypeExpr) -> Setter {
    Setter { name: name.to_string(), field: position, kind: SetterKind::Full, param }
}

fn append(name: &str, position: usize, param: TypeExpr) -> Setter {
    Setter { name: name.to_string(), field: position, kind: SetterKind::Append, param }
}

fn command_fields() -> Vec<FieldDescriptor> {
    vec![
        field("executable", named("String"), vec![]),
        field("args", applied("Sequence", named("String")), vec![each("arg", 3)]),
        field("env", applied("Sequence", named("String")), vec![each("env", 5)]),
        field("current_dir", applied("Optional", named("String")), vec![]),
    ]
}

#[test]
fn derive_generates_the_whole_plan() {
    let plan = record_derive::builder::derive(record("Command", command_fields())).unwrap();
    let expected = BuilderPlan {
        record: "Command".to_string(),
        builder: BuilderType {
            name: "CommandBuilder".to_string(),
            fields: vec![
                BuilderField { name: "executable".to_string(), ty: applied("Optional", named("String")) },
                BuilderField {
                    name: "args".to_string(),
                    ty: applied("Optional", applied("Sequence", named("String"))),
                },
                BuilderField {
                    name: "env".to_string(),
                    ty: applied("Optional", applied("Sequence", named("String"))),
                },
                BuilderField { name: "current_dir".to_string(), ty: applied("Optional", named("String")) },
            ],
            setters: vec![
                full("executable", 0, named("String")),
                append("arg", 1, named("String")),
                full("args", 1, applied("Sequence", named("String"))),
                append("env", 2, named("String")),
                full("current_dir", 3, named("String")),
            ],
            steps: vec![
                BuildStep { name: "executable".to_string(), required: true },
                BuildStep { name: "args".to_string(), required: true },
                BuildStep { name: "env".to_string(), required: true },
                BuildStep { name: "current_dir".to_string(), required: false },
            ],
        },
        initial: vec![Initial::Absent, Initial::EmptySequence, Initial::EmptySequence, Initial::Absent],
    };
    assert_eq!(plan, expected);
}

#[test]
fn derive_refuses_what_is_no_record() {
    let def = RecordDefinition { name: "E".to_string(), generics: vec![], data: Data::Enum };
    assert_eq!(record_derive::builder::derive(def), Err(Error::UnsupportedShape));
    let def = RecordDefinition { name: "U".to_string(), generics: vec![], data: Data::Union };
    assert_eq!(record_derive::builder::derive(def), Err(Error::UnsupportedShape));
    let def =
        RecordDefinition { name: "T".to_string(), generics: vec![], data: Data::Struct(Fields::Unnamed) };
    assert_eq!(record_derive::builder::derive(def), Err(Error::UnsupportedShape));
    let def = RecordDefinition { name: "T".to_string(), generics: vec![], data: Data::Struct(Fields::Unit) };
    assert_eq!(record_derive::builder::derive(def), Err(Error::UnsupportedShape));
}

#[test]
fn derive_struct_refuses_unlabelled_fields() {
    assert_eq!(derive_struct("T".to_string(), vec![], Fields::Unnamed), Err(Error::UnsupportedShape));
    assert_eq!(derive_struct("T".to_string(), vec![], Fields::Unit), Err(Error::UnsupportedShape));
    let twice = Fields::Named(vec![field("a", named("u8"), vec![]), field("a", named("u8"), vec![])]);
    assert_eq!(derive_struct("T".to_string(), vec![], twice), Err(Error::UnsupportedShape));
    let plan = derive_struct("T".to_string(), vec![], Fields::Named(vec![])).unwrap();
    assert_eq!(plan.builder.name, "TBuilder");
    assert_eq!(plan.builder.setters, vec![]);
}

#[test]
fn derive_fails_with_the_first_malformed_field() {
    let bad = |key: &str, field: usize| RawAnnotation {
        name: "builder".to_string(),
        meta: Meta::List(vec![Nested::KeyValue(key.to_string(), Literal::Str("x".to_string()))]),
        location: Location { field, annotation: 0 },
    };
    let def = record(
        "R",
        vec![
            field("a", named("u8"), vec![]),
            field("b", applied("Sequence", named("u8")), vec![bad("eac", 2)]),
            field("c", applied("Sequence", named("u8")), vec![bad("ea", 3)]),
        ],
    );
    assert_eq!(
        record_derive::builder::derive(def),
        Err(Error::MalformedDirective {
            message: "expected `builder(each = \"...\")`".to_string(),
            location: Location { field: 2, annotation: 0 },
        })
    );
}

#[test]
fn an_alias_on_a_field_that_holds_no_sequence_is_malformed() {
    let def = record("R", vec![field("a", named("u8"), vec![each("item", 9)])]);
    assert_eq!(
        record_derive::builder::derive(def),
        Err(Error::MalformedDirective {
            message: "invalid Sequence<> inner type".to_string(),
            location: Location { field: 9, annotation: 4 },
        })
    );
    let def = record("R", vec![field("a", applied("Optional", named("u8")), vec![each("item", 9)])]);
    assert!(record_derive::builder::derive(def).is_err());
}

#[test]
fn resolve_field_gives_the_directive() {
    let plain = field("a", named("u8"), vec![]);
    assert_eq!(resolve_field(&plain), Ok(BuilderDirective::NoDirective));
    let listed = field("a", applied("Sequence", named("u8")), vec![each("item", 1)]);
    assert_eq!(resolve_field(&listed), Ok(BuilderDirective::AppendAlias("item".to_string())));
    let optional =
        field("a", applied("Optional", applied("Sequence", named("u8"))), vec![each("item", 1)]);
    assert_eq!(resolve_field(&optional), Ok(BuilderDirective::AppendAlias("item".to_string())));
}

#[test]
fn field_setter_without_annotation_is_the_full_setter() {
    let f = field("name", named("String"), vec![]);
    assert_eq!(field_setter(4, &f), Ok(vec![full("name", 4, named("String"))]));
}

#[test]
fn field_setter_of_an_optional_field_takes_the_inner_type() {
    let f = field("dir", applied("Optional", named("String")), vec![]);
    assert_eq!(field_setter(0, &f), Ok(vec![full("dir", 0, named("String"))]));
}

#[test]
fn field_setter_with_an_alias_beside_the_name_gives_both() {
    let f = field("args", applied("Sequence", named("String")), vec![each("arg", 1)]);
    assert_eq!(
        field_setter(1, &f),
        Ok(vec![append("arg", 1, named("String")), full("args", 1, applied("Sequence", named("String")))])
    );
}

#[test]
fn field_setter_with_the_name_as_alias_gives_the_append_setter_only() {
    let f = field("env", applied("Sequence", named("String")), vec![each("env", 1)]);
    assert_eq!(field_setter(2, &f), Ok(vec![append("env", 2, named("String"))]));
}

#[test]
fn field_setter_of_an_optional_sequence_appends_elements() {
    let f = field("tags", applied("Optional", applied("Sequence", named("u8"))), vec![each("tag", 1)]);
    assert_eq!(
        field_setter(0, &f),
        Ok(vec![append("tag", 0, named("u8")), full("tags", 0, applied("Sequence", named("u8")))])
    );
}

#[test]
fn the_builder_mirrors_the_fields() {
    let fields = vec![
        field("a", named("u8"), vec![]),
        field("b", applied("Optional", named("u8")), vec![]),
        field("c", applied("Sequence", named("u8")), vec![]),
    ];
    assert_eq!(
        struct_named_struct_builder_def(&fields),
        vec![
            BuilderField { name: "a".to_string(), ty: applied("Optional", named("u8")) },
            BuilderField { name: "b".to_string(), ty: applied("Optional", named("u8")) },
            BuilderField { name: "c".to_string(), ty: applied("Optional", applied("Sequence", named("u8"))) },
        ]
    );
}

#[test]
fn the_setters_follow_the_declaration_order() {
    let setters = struct_named_struct_builder_impl_setters(&command_fields()).unwrap();
    let names: Vec<&str> = setters.iter().map(|s| s.name.as_str()).collect();
    assert_eq!(names, vec!["executable", "arg", "args", "env", "current_dir"]);
}

#[test]
fn the_build_requires_all_but_optional_fields() {
    assert_eq!(
        struct_named_struct_builder_impl_build(&command_fields()),
        vec![
            BuildStep { name: "executable".to_string(), required: true },
            BuildStep { name: "args".to_string(), required: true },
            BuildStep { name: "env".to_string(), required: true },
            BuildStep { name: "current_dir".to_string(), required: false },
        ]
    );
}

#[test]
fn only_an_aliased_sequence_starts_empty() {
    let fields = vec![
        field("a", applied("Sequence", named("u8")), vec![]),
        field("b", applied("Sequence", named("u8")), vec![each("item", 1)]),
        field("c", applied("Optional", applied("Sequence", named("u8"))), vec![each("one", 2)]),
        field("d", named("u8"), vec![]),
    ];
    assert_eq!(
        struct_name_impl_struct(&fields),
        Ok(vec![Initial::Absent, Initial::EmptySequence, Initial::Absent, Initial::Absent])
    );
}

#[test]
fn the_builder_type_is_named_after_the_record() {
    let schema = TypeSchema::extract(record("Point", vec![field("x", named("i32"), vec![])])).unwrap();
    let builder = struct_named_struct_builder(&schema).unwrap();
    assert_eq!(builder.name, "PointBuilder");
    assert_eq!(builder.setters, vec![full("x", 0, named("i32"))]);
    let plan = derive_struct_named(&schema).unwrap();
    assert_eq!(plan.record, "Point");
    assert_eq!(plan.builder, builder);
    assert_eq!(plan.initial, vec![Initial::Absent]);
}

#[test]
fn every_unannotated_field_has_one_full_setter() {
    let plan = record_derive::builder::derive(record(
        "R",
        vec![
            field("a", named("u8"), vec![]),
            field("b", applied("Optional", named("u8")), vec![]),
            field("c", applied("Sequence", named("u8")), vec![]),
        ],
    ))
    .unwrap();
    assert_eq!(
        plan.builder.setters,
        vec![
            full("a", 0, named("u8")),
            full("b", 1, named("u8")),
            full("c", 2, applied("Sequence", named("u8"))),
        ]
    );
}
