//! A record to try the engine on: a command to run, described to the
//! builder generator, built through the construction protocol, and read
//! back from the record that the build hands over.
use vstd::prelude::*;
use vstd::string::*;
use crate::builder::{derived, derived_named, PlanView};
use crate::error::ErrorView;
use crate::laws::law_unannotated_record;
use crate::protocol::{
    lemma_list_view, slot_view, Builder, FieldValueView, Record, RecordView, Value, ValueView,
};
use crate::schema::{
    extracted, Data, DataView, DefinitionView, FieldDescriptor, FieldView, Fields, FieldsView,
    RecordDefinition, SchemaView, TypeExpr, TypeExprView,
};
use crate::shape::{sequence_wrapper, SEQUENCE};
use crate::text::{same_text, views};

verus! {

/// A command to run: what to execute, with which arguments, in which
/// environment and where.
#[derive(Debug, PartialEq, Eq)]
pub struct Command {
    pub executable: String,
    pub args: Vec<String>,
    pub env: Vec<String>,
    pub current_dir: String,
}

/// The mathematical model of a [`Command`].
pub struct CommandView {
    pub executable: Seq<char>,
    pub args: Seq<Seq<char>>,
    pub env: Seq<Seq<char>>,
    pub current_dir: Seq<char>,
}

impl View for Command {
    type V = CommandView;

    open spec fn view(&self) -> CommandView {
        CommandView {
            executable: self.executable@,
            args: views(self.args@),
            env: views(self.env@),
            current_dir: self.current_dir@,
        }
    }
}

/// A field of plain text.
pub open spec fn text_field(name: Seq<char>) -> FieldView {
    FieldView { name, declared_type: TypeExprView::Named("String"@), annotations: Seq::empty() }
}

/// A field that holds a sequence of texts.
pub open spec fn texts_field(name: Seq<char>) -> FieldView {
    FieldView {
        name,
        declared_type: TypeExprView::Applied(sequence_wrapper(), Box::new(TypeExprView::Named("String"@))),
        annotations: Seq::empty(),
    }
}

/// The fields of a command, in declaration order.
pub open spec fn command_fields() -> Seq<FieldView> {
    seq![
        text_field("executable"@),
        texts_field("args"@),
        texts_field("env"@),
        text_field("current_dir"@),
    ]
}

/// The schema of a command.
pub open spec fn command_schema() -> SchemaView {
    SchemaView { name: "Command"@, generics: Seq::empty(), fields: command_fields() }
}

/// The definition of a command, as it is handed to the generators.
pub open spec fn command_definition() -> DefinitionView {
    DefinitionView {
        name: "Command"@,
        generics: Seq::empty(),
        data: DataView::Struct(FieldsView::Named(command_fields())),
    }
}

/// Whether every value is a text.
pub open spec fn all_texts(items: Seq<ValueView>) -> bool {
    forall|i: int| 0 <= i < items.len() ==> #[trigger] items[i] is Text
}

/// The texts that the values hold.
pub open spec fn texts_of(items: Seq<ValueView>) -> Seq<Seq<char>> {
    Seq::new(items.len(), |i: int| items[i]->Text_0)
}

/// Whether a field of a record is called `name` and holds a text.
pub open spec fn holds_text(field: FieldValueView, name: Seq<char>) -> bool {
    &&& field.name == name
    &&& field.value matches Some(ValueView::Text(_))
}

/// Whether a field of a record is called `name` and holds a sequence of
/// texts.
pub open spec fn holds_texts(field: FieldValueView, name: Seq<char>) -> bool {
    &&& field.name == name
    &&& field.value matches Some(ValueView::List(items))
    &&& all_texts(items)
}

/// Whether a record is a command: it is called so, and has the four fields
/// of a command, each with a value of its type.
pub open spec fn is_command(record: RecordView) -> bool {
    &&& record.name == "Command"@
    &&& record.fields.len() == 4
    &&& holds_text(record.fields[0], "executable"@)
    &&& holds_texts(record.fields[1], "args"@)
    &&& holds_texts(record.fields[2], "env"@)
    &&& holds_text(record.fields[3], "current_dir"@)
}

/// The command that a record holds.
pub open spec fn command_of(record: RecordView) -> CommandView {
    CommandView {
        executable: record.fields[0].value->Some_0->Text_0,
        args: texts_of(record.fields[1].value->Some_0->List_0),
        env: texts_of(record.fields[2].value->Some_0->List_0),
        current_dir: record.fields[3].value->Some_0->Text_0,
    }
}

/// The names of a command's fields differ from each other, and none of the
/// fields is annotated: generation succeeds for it.
pub proof fn lemma_command_derives()
    ensures
        extracted(command_definition()) == Ok::<SchemaView, ErrorView>(command_schema()),
        derived(command_definition()) is Ok,
        derived(command_definition()) == derived_named(command_schema()),
{
    reveal_strlit("executable");
    reveal_strlit("args");
    reveal_strlit("env");
    reveal_strlit("current_dir");
    let fields = command_fields();
    assert(fields[0].name.len() == 10);
    assert(fields[1].name.len() == 4);
    assert(fields[2].name.len() == 3);
    assert(fields[3].name.len() == 11);
    law_unannotated_record(command_schema());
}

/// The text of a value, if it is one.
fn text_of(value: &Option<Value>) -> (r: Option<String>)
    ensures
        match r {
            Some(text) => slot_view(*value) == Some(ValueView::Text(text@)),
            None => !(slot_view(*value) matches Some(ValueView::Text(_))),
        },
{
    match value {
        Some(Value::Text(text)) => Some(text.clone()),
        _ => None,
    }
}

/// The texts of a value, if it is a sequence of texts.
fn texts_in(value: &Option<Value>) -> (r: Option<Vec<String>>)
    ensures
        match r {
            Some(texts) => {
                &&& slot_view(*value) matches Some(ValueView::List(items))
                &&& all_texts(items)
                &&& views(texts@) == texts_of(items)
            },
            None => !({
                &&& slot_view(*value) matches Some(ValueView::List(items))
                &&& all_texts(items)
            }),
        },
{
    match value {
        Some(Value::List(items)) => {
            proof {
                lemma_list_view(items@);
            }
            let mut out: Vec<String> = Vec::new();
            let mut i: usize = 0;
            while i < items.len()
                invariant
                    i <= items.len(),
                    out.len() == i,
                    slot_view(*value) == Some(ValueView::List(views(items@))),
                    forall|k: int| 0 <= k < i ==> #[trigger] items[k]@ == ValueView::Text(out[k]@),
                decreases items.len() - i,
            {
                match &items[i] {
                    Value::Text(text) => {
                        out.push(text.clone());
                    },
                    _ => {
                        assert(!(views(items@)[i as int] is Text));
                        return None;
                    },
                }
                i += 1;
            }
            Some(out)
        },
        _ => None,
    }
}

/// A field without annotations.
fn plain_field(name: &str, declared_type: TypeExpr) -> (r: FieldDescriptor)
    ensures
        r@ == (FieldView { name: name@, declared_type: declared_type@, annotations: Seq::empty() }),
{
    let field = FieldDescriptor { name: String::from_str(name), declared_type, annotations: Vec::new() };
    assert(field@.annotations =~= Seq::empty());
    field
}

/// The type of a sequence of texts.
fn texts_type() -> (r: TypeExpr)
    ensures
        r@ == TypeExprView::Applied(sequence_wrapper(), Box::new(TypeExprView::Named("String"@))),
{
    let inner = TypeExpr::Named(String::from_str("String"));
    let ty = TypeExpr::Applied(String::from_str(SEQUENCE), Box::new(inner));
    assert(ty@ == TypeExprView::Applied(sequence_wrapper(), Box::new(inner@)));
    ty
}

impl Command {
    /// The definition of this record, as it is handed to the generators.
    pub fn definition() -> (r: RecordDefinition)
        ensures
            r@ == command_definition(),
    {
        let mut fields: Vec<FieldDescriptor> = Vec::new();
        fields.push(plain_field("executable", TypeExpr::Named(String::from_str("String"))));
        fields.push(plain_field("args", texts_type()));
        fields.push(plain_field("env", texts_type()));
        fields.push(plain_field("current_dir", TypeExpr::Named(String::from_str("String"))));
        assert(views(fields@) =~= command_fields());
        let definition = RecordDefinition {
            name: String::from_str("Command"),
            generics: Vec::new(),
            data: Data::Struct(Fields::Named(fields)),
        };
        assert(definition@.generics =~= Seq::empty());
        definition
    }

    /// A fresh builder for a command: it follows the plan generated from
    /// the definition and holds no field.
    pub fn builder() -> (r: Builder)
        ensures
            derived(command_definition()) == Ok::<PlanView, ErrorView>(r@.plan),
            r@.slots == Seq::new(4, |i: int| None::<ValueView>),
    {
        proof {
            lemma_command_derives();
            law_unannotated_record(command_schema());
        }
        match crate::builder::derive(Command::definition()) {
            Ok(plan) => Builder::new(plan),
            Err(_) => vstd::pervasive::unreached(),
        }
    }

    /// Reads a command from a record: the command, if the record is one.
    pub fn from_record(record: &Record) -> (r: Option<Command>)
        ensures
            match r {
                Some(command) => is_command(record@) && command@ == command_of(record@),
                None => !is_command(record@),
            },
    {
        if !same_text(record.name.as_str(), "Command") || record.fields.len() != 4 {
            return None;
        }
        if !same_text(record.fields[0].name.as_str(), "executable") || !same_text(
            record.fields[1].name.as_str(),
            "args",
        ) || !same_text(record.fields[2].name.as_str(), "env") || !same_text(
            record.fields[3].name.as_str(),
            "current_dir",
        ) {
            return None;
        }
        let executable = match text_of(&record.fields[0].value) {
            Some(text) => text,
            None => {
                return None;
            },
        };
        let args = match texts_in(&record.fields[1].value) {
            Some(texts) => texts,
            None => {
                return None;
            },
        };
        let env = match texts_in(&record.fields[2].value) {
            Some(texts) => texts,
            None => {
                return None;
            },
        };
        let current_dir = match text_of(&record.fields[3].value) {
            Some(text) => text,
            None => {
                return None;
            },
        };
        Some(Command { executable, args, env, current_dir })
    }
}

} // verus!
