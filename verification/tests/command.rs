use record_derive::command::Command;
use record_derive::error::Error;
use record_derive::protocol::{FieldValue, Record, Value};
use record_derive::schema::{Data, FieldDescriptor, Fields, TypeExpr};

fn text(s: &str) -> Value {
    Value::Text(s.to_string())
}

fn texts(items: &[&str]) -> Value {
    Value::List(items.iter().map(|s| text(s)).collect())
}

fn value(name: &str, value: Option<Value>) -> FieldValue {
    FieldValue { name: name.to_string(), value }
}

#[test]
fn the_definition_lists_the_four_fields() {
    let def = Command::definition();
    assert_eq!(def.name, "Command");
    assert_eq!(def.generics, vec![]);
    let sequence = || {
        TypeExpr::Applied("Sequence".to_string(), Box::new(TypeExpr::Named("String".to_string())))
    };
    let field = |name: &str, ty: TypeExpr| FieldDescriptor {
        name: name.to_string(),
        declared_type: ty,
        annotations: vec![],
    };
    assert_eq!(
        def.data,
        Data::Struct(Fields::Named(vec![
            field("executable", TypeExpr::Named("String".to_string())),
            field("args", sequence()),
            field("env", sequence()),
            field("current_dir", TypeExpr::Named("String".to_string())),
        ]))
    );
}

#[test]
fn a_fresh_command_builder_misses_the_executable() {
    assert_eq!(Command::builder().build(), Err(Error::MissingField("executable".to_string())));
}

#[test]
fn a_command_is_built_and_read_back() {
    let mut builder = Command::builder();
    assert!(builder.call("executable", text("cargo")).is_some());
    assert!(builder.call("args", texts(&["build", "--release"])).is_some());
    assert!(builder.call("env", texts(&[])).is_some());
    assert!(builder.call("current_dir", text("..")).is_some());
    let record = builder.build().unwrap();
    assert_eq!(
        Command::from_record(&record),
        Some(Command {
            executable: "cargo".to_string(),
            args: vec!["build".to_string(), "--release".to_string()],
            env: vec![],
            current_dir: "..".to_string(),
        })
    );
}

#[test]
fn a_record_of_another_shape_is_no_command() {
    let good = || Record {
        name: "Command".to_string(),
        fields: vec![
            value("executable", Some(text("ls"))),
            value("args", Some(texts(&["-l"]))),
            value("env", Some(texts(&[]))),
            value("current_dir", Some(text("/"))),
        ],
    };
    assert!(Command::from_record(&good()).is_some());

    let mut other = good();
    other.name = "Order".to_string();
    assert_eq!(Command::from_record(&other), None);

    let mut other = good();
    other.fields.pop();
    assert_eq!(Command::from_record(&other), None);

    let mut other = good();
    other.fields[0].name = "program".to_string();
    assert_eq!(Command::from_record(&other), None);

    let mut other = good();
    other.fields[0].value = None;
    assert_eq!(Command::from_record(&other), None);

    let mut other = good();
    other.fields[1].value = Some(text("-l"));
    assert_eq!(Command::from_record(&other), None);

    let mut other = good();
    other.fields[2].value = Some(Value::List(vec![text("A=1"), Value::Int(3)]));
    assert_eq!(Command::from_record(&other), None);

    let mut other = good();
    other.fields[3].value = Some(Value::Int(0));
    assert_eq!(Command::from_record(&other), None);
}
