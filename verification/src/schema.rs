//! The data model: type expressions, annotations as they are attached to a
//! field, record definitions as they are handed in, and the validated schema
//! that both generators work from.
use vstd::prelude::*;
use crate::error::{Error, ErrorView};
use crate::text::{same_text, views};

verus! {

/// The declared type of a field: a plain named type, or a wrapper applied to
/// exactly one inner type. Anything else is a plain type under its own text.
#[derive(Debug, PartialEq, Eq)]
pub enum TypeExpr {
    Named(String),
    Applied(String, Box<TypeExpr>),
}

/// The mathematical model of a [`TypeExpr`].
pub enum TypeExprView {
    Named(Seq<char>),
    Applied(Seq<char>, Box<TypeExprView>),
}

/// The model of a type expression, by recursion over its structure.
pub open spec fn type_view(ty: TypeExpr) -> TypeExprView
    decreases ty,
{
    match ty {
        TypeExpr::Named(name) => TypeExprView::Named(name@),
        TypeExpr::Applied(wrapper, inner) => TypeExprView::Applied(
            wrapper@,
            Box::new(type_view(*inner)),
        ),
    }
}

impl View for TypeExpr {
    type V = TypeExprView;

    open spec fn view(&self) -> TypeExprView {
        type_view(*self)
    }
}

impl Clone for TypeExpr {
    fn clone(&self) -> (r: Self)
        ensures
            r@ == self@,
        decreases self,
    {
        match self {
            TypeExpr::Named(name) => TypeExpr::Named(name.clone()),
            TypeExpr::Applied(wrapper, inner) => {
                let inner: TypeExpr = (**inner).clone();
                TypeExpr::Applied(wrapper.clone(), Box::new(inner))
            },
        }
    }
}

/// The name at the bottom of a type expression: what is left once every
/// wrapper is taken off.
pub open spec fn leaf(ty: TypeExprView) -> Seq<char>
    decreases ty,
{
    match ty {
        TypeExprView::Named(name) => name,
        TypeExprView::Applied(_, inner) => leaf(*inner),
    }
}

impl TypeExpr {
    /// The name at the bottom of this type expression.
    pub fn leaf(&self) -> (r: &String)
        ensures
            r@ == leaf(self@),
        decreases self,
    {
        match self {
            TypeExpr::Named(name) => name,
            TypeExpr::Applied(_, inner) => inner.leaf(),
        }
    }

    /// Whether two type expressions have the same structure and names.
    pub fn same_as(&self, other: &TypeExpr) -> (r: bool)
        ensures
            r == (self@ == other@),
        decreases self,
    {
        match (self, other) {
            (TypeExpr::Named(a), TypeExpr::Named(b)) => same_text(a.as_str(), b.as_str()),
            (TypeExpr::Applied(w, i), TypeExpr::Applied(v, j)) => {
                same_text(w.as_str(), v.as_str()) && i.same_as(j)
            },
            _ => false,
        }
    }
}

/// Where an annotation stands in the description of a record: the position
/// of the field that carries it, and its own position among that field's
/// annotations. The engine does not read a location; it hands it back in a
/// failure, so that the failure can be attributed.
#[derive(Debug, Clone, Copy, PartialEq, Eq, Structural)]
pub struct Location {
    pub field: usize,
    pub annotation: usize,
}

/// The value of a `key = value` pair: the text of a string literal, or any
/// other literal.
#[derive(Debug, PartialEq, Eq)]
pub enum Literal {
    Str(String),
    Other,
}

pub enum LiteralView {
    Str(Seq<char>),
    Other,
}

impl View for Literal {
    type V = LiteralView;

    open spec fn view(&self) -> LiteralView {
        match self {
            Literal::Str(text) => LiteralView::Str(text@),
            Literal::Other => LiteralView::Other,
        }
    }
}

/// One entry between the parentheses of a scoped annotation: a `key = value`
/// pair, or anything else.
#[derive(Debug, PartialEq, Eq)]
pub enum Nested {
    KeyValue(String, Literal),
    Other,
}

pub enum NestedView {
    KeyValue(Seq<char>, LiteralView),
    Other,
}

impl View for Nested {
    type V = NestedView;

    open spec fn view(&self) -> NestedView {
        match self {
            Nested::KeyValue(key, value) => NestedView::KeyValue(key@, value@),
            Nested::Other => NestedView::Other,
        }
    }
}

/// What follows the name of an annotation: nothing (`name`), a value
/// (`name = value`), or a list of entries (`name(entry, ..)`).
#[derive(Debug, PartialEq, Eq)]
pub enum Meta {
    Path,
    KeyValue(Literal),
    List(Vec<Nested>),
}

pub enum MetaView {
    Path,
    KeyValue(LiteralView),
    List(Seq<NestedView>),
}

impl View for Meta {
    type V = MetaView;

    open spec fn view(&self) -> MetaView {
        match self {
            Meta::Path => MetaView::Path,
            Meta::KeyValue(value) => MetaView::KeyValue(value@),
            Meta::List(entries) => MetaView::List(views(entries@)),
        }
    }
}

/// An annotation as it is attached to a field, before any generator has
/// given it a meaning.
#[derive(Debug, PartialEq, Eq)]
pub struct RawAnnotation {
    pub name: String,
    pub meta: Meta,
    pub location: Location,
}

pub struct AnnotationView {
    pub name: Seq<char>,
    pub meta: MetaView,
    pub location: Location,
}

impl View for RawAnnotation {
    type V = AnnotationView;

    open spec fn view(&self) -> AnnotationView {
        AnnotationView { name: self.name@, meta: self.meta@, location: self.location }
    }
}

/// One field of a record: its name, its declared type and the annotations
/// attached to it, in source order.
#[derive(Debug, PartialEq, Eq)]
pub struct FieldDescriptor {
    pub name: String,
    pub declared_type: TypeExpr,
    pub annotations: Vec<RawAnnotation>,
}

pub struct FieldView {
    pub name: Seq<char>,
    pub declared_type: TypeExprView,
    pub annotations: Seq<AnnotationView>,
}

impl View for FieldDescriptor {
    type V = FieldView;

    open spec fn view(&self) -> FieldView {
        FieldView {
            name: self.name@,
            declared_type: self.declared_type@,
            annotations: views(self.annotations@),
        }
    }
}

/// A generic parameter of a record.
#[derive(Debug, PartialEq, Eq)]
pub struct GenericParam {
    pub name: String,
}

impl View for GenericParam {
    type V = Seq<char>;

    open spec fn view(&self) -> Seq<char> {
        self.name@
    }
}

/// The fields of a structure as declared: labelled, unlabelled (tuple
/// style), or none at all.
#[derive(Debug, PartialEq, Eq)]
pub enum Fields {
    Named(Vec<FieldDescriptor>),
    Unnamed,
    Unit,
}

pub enum FieldsView {
    Named(Seq<FieldView>),
    Unnamed,
    Unit,
}

impl View for Fields {
    type V = FieldsView;

    open spec fn view(&self) -> FieldsView {
        match self {
            Fields::Named(fields) => FieldsView::Named(views(fields@)),
            Fields::Unnamed => FieldsView::Unnamed,
            Fields::Unit => FieldsView::Unit,
        }
    }
}

/// The body of a type definition.
#[derive(Debug, PartialEq, Eq)]
pub enum Data {
    Struct(Fields),
    Enum,
    Union,
}

pub enum DataView {
    Struct(FieldsView),
    Enum,
    Union,
}

impl View for Data {
    type V = DataView;

    open spec fn view(&self) -> DataView {
        match self {
            Data::Struct(fields) => DataView::Struct(fields@),
            Data::Enum => DataView::Enum,
            Data::Union => DataView::Union,
        }
    }
}

/// A type definition as it is handed to the generators.
#[derive(Debug, PartialEq, Eq)]
pub struct RecordDefinition {
    pub name: String,
    pub generics: Vec<GenericParam>,
    pub data: Data,
}

pub struct DefinitionView {
    pub name: Seq<char>,
    pub generics: Seq<Seq<char>>,
    pub data: DataView,
}

impl View for RecordDefinition {
    type V = DefinitionView;

    open spec fn view(&self) -> DefinitionView {
        DefinitionView { name: self.name@, generics: views(self.generics@), data: self.data@ }
    }
}

/// The model of a [`TypeSchema`].
pub struct SchemaView {
    pub name: Seq<char>,
    pub generics: Seq<Seq<char>>,
    pub fields: Seq<FieldView>,
}

/// No two fields carry the same name.
pub open spec fn distinct_names(fields: Seq<FieldView>) -> bool {
    forall|i: int, j: int|
        0 <= i < j < fields.len() ==> (#[trigger] fields[i]).name != (#[trigger] fields[j]).name
}

impl SchemaView {
    /// The invariant of a schema: field names are unique.
    pub open spec fn wf(self) -> bool {
        distinct_names(self.fields)
    }
}

/// What extraction makes of a definition: the schema of a labelled-field
/// record with distinct field names, and `UnsupportedShape` of anything else.
pub open spec fn extracted(def: DefinitionView) -> Result<SchemaView, ErrorView> {
    match def.data {
        DataView::Struct(FieldsView::Named(fields)) => if distinct_names(fields) {
            Ok(SchemaView { name: def.name, generics: def.generics, fields })
        } else {
            Err(ErrorView::UnsupportedShape)
        },
        _ => Err(ErrorView::UnsupportedShape),
    }
}

/// A validated record: a name, its generic parameters, and its labelled
/// fields in declaration order, no two of them with the same name.
#[derive(Debug, PartialEq, Eq)]
pub struct TypeSchema {
    name: String,
    generics: Vec<GenericParam>,
    fields: Vec<FieldDescriptor>,
}

impl View for TypeSchema {
    type V = SchemaView;

    closed spec fn view(&self) -> SchemaView {
        SchemaView {
            name: self.name@,
            generics: views(self.generics@),
            fields: views(self.fields@),
        }
    }
}

/// Whether the field at `at` has a name that no earlier field has.
fn is_new_name(fields: &Vec<FieldDescriptor>, at: usize) -> (r: bool)
    requires
        at < fields.len(),
    ensures
        r == forall|i: int|
            0 <= i < at ==> (#[trigger] views(fields@)[i]).name != views(fields@)[at as int].name,
{
    let mut i: usize = 0;
    while i < at
        invariant
            i <= at < fields.len(),
            forall|k: int|
                0 <= k < i ==> (#[trigger] views(fields@)[k]).name != views(fields@)[at as int].name,
        decreases at - i,
    {
        if same_text(fields[i].name.as_str(), fields[at].name.as_str()) {
            assert(views(fields@)[i as int].name == views(fields@)[at as int].name);
            return false;
        }
        i += 1;
    }
    true
}

/// Whether no two fields carry the same name.
fn has_distinct_names(fields: &Vec<FieldDescriptor>) -> (r: bool)
    ensures
        r == distinct_names(views(fields@)),
{
    let ghost all = views(fields@);
    let mut j: usize = 0;
    while j < fields.len()
        invariant
            j <= fields.len(),
            all == views(fields@),
            forall|a: int, b: int| 0 <= a < b < j ==> (#[trigger] all[a]).name != (#[trigger] all[b]).name,
        decreases fields.len() - j,
    {
        if !is_new_name(fields, j) {
            return false;
        }
        j += 1;
    }
    true
}

impl TypeSchema {
    /// The invariant of a schema, over its model.
    pub open spec fn wf(&self) -> bool {
        self@.wf()
    }

    /// Every schema in use is well formed.
    #[verifier::type_invariant]
    spec fn valid(&self) -> bool {
        distinct_names(views(self.fields@))
    }

    /// Validates the labelled fields of a structure: the schema, if no two
    /// fields share a name.
    pub fn from_named(
        name: String,
        generics: Vec<GenericParam>,
        fields: Vec<FieldDescriptor>,
    ) -> (r: Result<TypeSchema, Error>)
        ensures
            match r {
                Ok(schema) => {
                    &&& distinct_names(views(fields@))
                    &&& schema.wf()
                    &&& schema@ == (SchemaView {
                        name: name@,
                        generics: views(generics@),
                        fields: views(fields@),
                    })
                },
                Err(error) => !distinct_names(views(fields@)) && error@ == ErrorView::UnsupportedShape,
            },
    {
        if has_distinct_names(&fields) {
            Ok(TypeSchema { name, generics, fields })
        } else {
            Err(Error::UnsupportedShape)
        }
    }

    /// Turns a definition into a schema. Only a structure with labelled
    /// fields, no two of the same name, has one.
    pub fn extract(def: RecordDefinition) -> (r: Result<TypeSchema, Error>)
        ensures
            crate::text::result_view(r) == extracted(def@),
            r matches Ok(schema) ==> schema.wf(),
    {
        match def.data {
            Data::Struct(Fields::Named(fields)) => TypeSchema::from_named(def.name, def.generics, fields),
            _ => Err(Error::UnsupportedShape),
        }
    }

    /// The name of the record.
    pub fn name(&self) -> (r: &String)
        ensures
            r@ == self@.name,
    {
        &self.name
    }

    /// The generic parameters, in declaration order.
    pub fn generics(&self) -> (r: &Vec<GenericParam>)
        ensures
            views(r@) == self@.generics,
    {
        &self.generics
    }

    /// The fields, in declaration order. No two of them have the same
    /// name.
    pub fn fields(&self) -> (r: &Vec<FieldDescriptor>)
        ensures
            views(r@) == self@.fields,
            self.wf(),
    {
        proof {
            use_type_invariant(self);
        }
        &self.fields
    }
}

} // verus!
