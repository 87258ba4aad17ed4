use record_derive::error::Error;
use record_derive::schema::{
    Data, FieldDescriptor, Fields, GenericParam, RecordDefinition, TypeExpr, TypeSchema,
};

fn field(name: &str, ty: &str) -> FieldDescriptor {
    FieldDescriptor {
        name: name.to_string(),
        declared_type: TypeExpr::Named(ty.to_string()),
        annotations: vec![],
    }
}

fn definition(data: Data) -> RecordDefinition {
    RecordDefinition { name: "Pair".to_string(), generics: vec![], data }
}

#[test]
fn extract_keeps_name_generics_and_field_order() {
    let def = RecordDefinition {
        name: "Pair".to_string(),
        generics: vec![GenericParam { name: "T".to_string() }, GenericParam { name: "U".to_string() }],
        data: Data::Struct(Fields::Named(vec![field("b", "T"), field("a", "U"), field("c", "u8")])),
    };
    let schema = TypeSchema::extract(def).unwrap();
    assert_eq!(schema.name(), "Pair");
    assert_eq!(
        schema.generics(),
        &vec![GenericParam { name: "T".to_string() }, GenericParam { name: "U".to_string() }]
    );
    assert_eq!(schema.fields(), &vec![field("b", "T"), field("a", "U"), field("c", "u8")]);
}

#[test]
fn extract_takes_a_record_without_fields() {
    let schema = TypeSchema::extract(definition(Data::Struct(Fields::Named(vec![])))).unwrap();
    assert_eq!(schema.fields().len(), 0);
}

#[test]
fn extract_refuses_an_enumeration() {
    assert_eq!(TypeSchema::extract(definition(Data::Enum)), Err(Error::UnsupportedShape));
}

#[test]
fn extract_refuses_a_union() {
    assert_eq!(TypeSchema::extract(definition(Data::Union)), Err(Error::UnsupportedShape));
}

#[test]
fn extract_refuses_a_tuple_style_record() {
    assert_eq!(
        TypeSchema::extract(definition(Data::Struct(Fields::Unnamed))),
        Err(Error::UnsupportedShape)
    );
}

#[test]
fn extract_refuses_a_unit_record() {
    assert_eq!(
        TypeSchema::extract(definition(Data::Struct(Fields::Unit))),
        Err(Error::UnsupportedShape)
    );
}

#[test]
fn extract_refuses_two_fields_of_one_name() {
    let data = Data::Struct(Fields::Named(vec![field("a", "u8"), field("b", "u8"), field("a", "i8")]));
    assert_eq!(TypeSchema::extract(definition(data)), Err(Error::UnsupportedShape));
}

#[test]
fn from_named_validates_the_fields() {
    let ok = TypeSchema::from_named("P".to_string(), vec![], vec![field("a", "u8"), field("b", "u8")]);
    assert_eq!(ok.unwrap().fields().len(), 2);
    let twice = TypeSchema::from_named("P".to_string(), vec![], vec![field("a", "u8"), field("a", "u8")]);
    assert_eq!(twice, Err(Error::UnsupportedShape));
}

#[test]
fn error_messages_name_what_went_wrong() {
    assert_eq!(Error::MissingField("executable".to_string()).message(), "missing executable");
    assert_eq!(
        Error::MalformedDirective {
            message: "expected `builder(each = \"...\")`".to_string(),
            location: record_derive::schema::Location { field: 1, annotation: 2 },
        }
        .message(),
        "expected `builder(each = \"...\")`"
    );
    assert_eq!(Error::UnsupportedShape.message(), "expected a record with labelled fields");
}
