use record_derive::debug::{
    impl_debug, impl_debug_header_generic, impl_debug_named, is_phantom_only, phantoms, DebugHeader,
    DebugPlan, FieldFormat,
};
use record_derive::error::Error;
use record_derive::resolver::RepresentationDirective;
use record_derive::schema::{
    Data, FieldDescriptor, Fields, GenericParam, Literal, Location, Meta, RawAnnotation,
    RecordDefinition, TypeExpr, TypeSchema,
};

fn named(name: &str) -> TypeExpr {
    TypeExpr::Named(name.to_string())
}

fn applied(wrapper: &str, inner: TypeExpr) -> TypeExpr {
    TypeExpr::Applied(wrapper.to_string(), Box::new(inner))
}

fn phantom(param: &str) -> TypeExpr {
    applied("PhantomData", named(param))
}

fn field(name: &str, ty: TypeExpr) -> FieldDescriptor {
    FieldDescriptor { name: name.to_string(), declared_type: ty, annotations: vec![] }
}

fn formatted(name: &str, ty: TypeExpr, format: &str, field: usize) -> FieldDescriptor {
    FieldDescriptor {
        name: name.to_string(),
        declared_type: ty,
        annotations: vec![RawAnnotation {
            name: "debug".to_string(),
            meta: Meta::KeyValue(Literal::Str(format.to_string())),
            location: Location { field, annotation: 0 },
        }],
    }
}

fn generics(names: &[&str]) -> Vec<GenericParam> {
    names.iter().map(|n| GenericParam { name: n.to_string() }).collect()
}

fn strings(names: &[&str]) -> Vec<String> {
    names.iter().map(|n| n.to_string()).collect()
}

fn record(name: &str, params: &[&str], fields: Vec<FieldDescriptor>) -> RecordDefinition {
    RecordDefinition {
        name: name.to_string(),
        generics: generics(params),
        data: Data::Struct(Fields::Named(fields)),
    }
}

#[test]
fn the_representation_shows_each_field_in_order() {
    let plan = record_derive::debug::derive(record(
        "Field",
        &[],
        vec![field("name", named("String")), formatted("bitmask", named("u8"), "0b{:08b}", 4)],
    ))
    .unwrap();
    assert_eq!(
        plan,
        DebugPlan {
            header: DebugHeader { name: "Field".to_string(), generics: vec![], bounded: vec![] },
            fields: vec![
                FieldFormat { name: "name".to_string(), format: RepresentationDirective::NoDirective },
                FieldFormat {
                    name: "bitmask".to_string(),
                    format: RepresentationDirective::FormatString("0b{:08b}".to_string()),
                },
            ],
        }
    );
}

#[test]
fn the_representation_refuses_what_is_no_record() {
    let def = RecordDefinition { name: "E".to_string(), generics: vec![], data: Data::Enum };
    assert_eq!(record_derive::debug::derive(def), Err(Error::UnsupportedShape));
    let def = RecordDefinition { name: "U".to_string(), generics: vec![], data: Data::Union };
    assert_eq!(record_derive::debug::derive(def), Err(Error::UnsupportedShape));
    assert_eq!(impl_debug("T".to_string(), vec![], Fields::Unnamed), Err(Error::UnsupportedShape));
    assert_eq!(impl_debug("T".to_string(), vec![], Fields::Unit), Err(Error::UnsupportedShape));
}

#[test]
fn the_representation_fails_with_the_first_malformed_field() {
    let bad = |field: usize| FieldDescriptor {
        name: format!("f{}", field),
        declared_type: named("u8"),
        annotations: vec![RawAnnotation {
            name: "show".to_string(),
            meta: Meta::KeyValue(Literal::Str("{}".to_string())),
            location: Location { field, annotation: 2 },
        }],
    };
    let def = record("R", &[], vec![field("a", named("u8")), bad(5), bad(6)]);
    assert_eq!(
        record_derive::debug::derive(def),
        Err(Error::MalformedDirective {
            message: "expected `debug \"...\"`".to_string(),
            location: Location { field: 5, annotation: 2 },
        })
    );
}

#[test]
fn a_parameter_used_directly_is_bounded() {
    let plan = record_derive::debug::derive(record("Wrapper", &["T"], vec![field("value", named("T"))]))
        .unwrap();
    assert_eq!(plan.header.generics, strings(&["T"]));
    assert_eq!(plan.header.bounded, strings(&["T"]));
    assert!(plan.header.requires_bound("T"));
}

#[test]
fn a_phantom_only_parameter_is_not_bounded() {
    let plan = record_derive::debug::derive(record(
        "Tagged",
        &["T", "U"],
        vec![field("marker", phantom("T")), field("value", named("U"))],
    ))
    .unwrap();
    assert_eq!(plan.header.generics, strings(&["T", "U"]));
    assert_eq!(plan.header.bounded, strings(&["U"]));
    assert!(!plan.header.requires_bound("T"));
    assert!(plan.header.requires_bound("U"));
}

#[test]
fn a_parameter_both_phantom_and_used_is_bounded() {
    let plan = record_derive::debug::derive(record(
        "Both",
        &["T"],
        vec![field("marker", phantom("T")), field("value", named("T"))],
    ))
    .unwrap();
    assert_eq!(plan.header.bounded, strings(&["T"]));
    let plan = record_derive::debug::derive(record(
        "Both",
        &["T"],
        vec![field("values", applied("Sequence", named("T"))), field("marker", phantom("T"))],
    ))
    .unwrap();
    assert_eq!(plan.header.bounded, strings(&["T"]));
}

#[test]
fn a_parameter_that_no_field_mentions_is_bounded() {
    let plan =
        record_derive::debug::derive(record("Unused", &["T"], vec![field("value", named("u8"))])).unwrap();
    assert_eq!(plan.header.bounded, strings(&["T"]));
}

#[test]
fn the_phantom_set_holds_the_phantom_only_parameters() {
    let fields = vec![
        field("a", phantom("A")),
        field("b", phantom("B")),
        field("c", named("B")),
        field("d", applied("Optional", phantom("D"))),
        field("e", phantom("E")),
        field("f", phantom("E")),
    ];
    let params = generics(&["A", "B", "C", "D", "E"]);
    assert_eq!(phantoms(&params, &fields), strings(&["A", "E"]));
    assert!(is_phantom_only(&fields, "A"));
    assert!(!is_phantom_only(&fields, "B"));
    assert!(!is_phantom_only(&fields, "C"));
    assert!(!is_phantom_only(&fields, "D"));
    assert!(is_phantom_only(&fields, "E"));
    let header = impl_debug_header_generic(&"R".to_string(), &params, &fields);
    assert_eq!(header.name, "R");
    assert_eq!(header.generics, strings(&["A", "B", "C", "D", "E"]));
    assert_eq!(header.bounded, strings(&["B", "C", "D"]));
}

#[test]
fn a_marker_over_what_is_no_parameter_changes_nothing() {
    let fields = vec![field("a", phantom("String")), field("b", named("T"))];
    let header = impl_debug_header_generic(&"R".to_string(), &generics(&["T"]), &fields);
    assert_eq!(header.bounded, strings(&["T"]));
}

#[test]
fn impl_debug_named_works_from_a_schema() {
    let schema = TypeSchema::extract(record("P", &["T"], vec![field("m", phantom("T"))])).unwrap();
    let plan = impl_debug_named(&schema).unwrap();
    assert_eq!(plan.header.bounded, strings(&[]));
    assert_eq!(
        plan.fields,
        vec![FieldFormat { name: "m".to_string(), format: RepresentationDirective::NoDirective }]
    );
}

#[test]
fn render_shows_name_and_fields() {
    let plan = record_derive::debug::derive(record(
        "Field",
        &[],
        vec![field("name", named("String")), formatted("bitmask", named("u8"), "0b{:08b}", 4)],
    ))
    .unwrap();
    assert_eq!(
        plan.render(&strings(&["\"F\"", "0b00011100"])),
        Some("Field { name: \"F\", bitmask: 0b00011100 }".to_string())
    );
}

#[test]
fn render_of_one_field() {
    let plan = record_derive::debug::derive(record("One", &[], vec![field("a", named("u8"))])).unwrap();
    assert_eq!(plan.render(&strings(&["7"])), Some("One { a: 7 }".to_string()));
}

#[test]
fn render_without_fields_is_the_name() {
    let plan = record_derive::debug::derive(record("Empty", &[], vec![])).unwrap();
    assert_eq!(plan.render(&vec![]), Some("Empty".to_string()));
}

#[test]
fn render_wants_one_text_for_each_field() {
    let plan = record_derive::debug::derive(record("One", &[], vec![field("a", named("u8"))])).unwrap();
    assert_eq!(plan.render(&vec![]), None);
    assert_eq!(plan.render(&strings(&["1", "2"])), None);
}

#[test]
fn render_agrees_with_the_standard_rendering() {
    #[derive(Debug)]
    #[allow(dead_code)]
    struct Pair {
        left: i32,
        right: Vec<u8>,
    }
    let plan = record_derive::debug::derive(record(
        "Pair",
        &[],
        vec![field("left", named("i32")), field("right", applied("Sequence", named("u8")))],
    ))
    .unwrap();
    let pair = Pair { left: -3, right: vec![1, 2] };
    let texts = vec![format!("{:?}", pair.left), format!("{:?}", pair.right)];
    assert_eq!(plan.render(&texts), Some(format!("{:?}", pair)));
}
