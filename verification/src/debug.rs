//! The representation generator: from a record it derives the routine that
//! shows an instance field by field, and which generic parameters that
//! routine needs to be showable.
use vstd::prelude::*;
use vstd::string::*;
use crate::error::{Error, ErrorView};
use crate::resolver::{format_directive, get_fmt_attr, RepresentationDirective, RepresentationDirectiveView};
use crate::schema::{
    extracted, leaf, Data, DataView, DefinitionView, FieldDescriptor, FieldView, Fields, GenericParam,
    RecordDefinition, SchemaView, TypeExpr, TypeExprView, TypeSchema,
};
use crate::shape::{phantom_wrapper, PHANTOM};
use crate::text::{lemma_views_push, result_view, same_text, views};

verus! {

/// How one field is shown: under its name, by its default rendering or
/// through a format template.
#[derive(Debug, PartialEq, Eq)]
pub struct FieldFormat {
    pub name: String,
    pub format: RepresentationDirective,
}

pub struct FieldFormatView {
    pub name: Seq<char>,
    pub format: RepresentationDirectiveView,
}

impl View for FieldFormat {
    type V = FieldFormatView;

    open spec fn view(&self) -> FieldFormatView {
        FieldFormatView { name: self.name@, format: self.format@ }
    }
}

/// The head of the routine: the record it is for, the record's generic
/// parameters, and those among them that must be showable.
#[derive(Debug, PartialEq, Eq)]
pub struct DebugHeader {
    pub name: String,
    pub generics: Vec<String>,
    pub bounded: Vec<String>,
}

pub struct HeaderView {
    pub name: Seq<char>,
    pub generics: Seq<Seq<char>>,
    pub bounded: Seq<Seq<char>>,
}

impl View for DebugHeader {
    type V = HeaderView;

    open spec fn view(&self) -> HeaderView {
        HeaderView { name: self.name@, generics: views(self.generics@), bounded: views(self.bounded@) }
    }
}

/// The routine that shows a record: its head, and how each field is shown,
/// in declaration order.
#[derive(Debug, PartialEq, Eq)]
pub struct DebugPlan {
    pub header: DebugHeader,
    pub fields: Vec<FieldFormat>,
}

pub struct DebugPlanView {
    pub header: HeaderView,
    pub fields: Seq<FieldFormatView>,
}

impl View for DebugPlan {
    type V = DebugPlanView;

    open spec fn view(&self) -> DebugPlanView {
        DebugPlanView { header: self.header@, fields: views(self.fields@) }
    }
}

/// Whether a field is a phantom marker over `param`: the marker's wrapper
/// applied to exactly that name.
pub open spec fn marks(field: FieldView, param: Seq<char>) -> bool {
    field.declared_type == TypeExprView::Applied(phantom_wrapper(), Box::new(TypeExprView::Named(param)))
}

/// Whether the type of a field mentions `param`.
pub open spec fn mentions(field: FieldView, param: Seq<char>) -> bool {
    leaf(field.declared_type) == param
}

/// Whether `param` appears among the fields, and only as the argument of a
/// phantom marker.
pub open spec fn phantom_only(fields: Seq<FieldView>, param: Seq<char>) -> bool {
    &&& exists|i: int| 0 <= i < fields.len() && marks(#[trigger] fields[i], param)
    &&& forall|i: int| 0 <= i < fields.len() && mentions(#[trigger] fields[i], param) ==> marks(fields[i], param)
}

/// The test for a parameter to be in the phantom set.
pub open spec fn is_phantom(fields: Seq<FieldView>) -> spec_fn(Seq<char>) -> bool {
    |param: Seq<char>| phantom_only(fields, param)
}

/// The test for a parameter to need the bound.
pub open spec fn needs_bound(fields: Seq<FieldView>) -> spec_fn(Seq<char>) -> bool {
    |param: Seq<char>| !phantom_only(fields, param)
}

/// The generic parameters that appear only inside phantom markers, in
/// declaration order.
pub open spec fn phantom_params(generics: Seq<Seq<char>>, fields: Seq<FieldView>) -> Seq<Seq<char>> {
    generics.filter(is_phantom(fields))
}

/// The phantom set of a record.
pub open spec fn phantom_set(schema: SchemaView) -> Set<Seq<char>> {
    phantom_params(schema.generics, schema.fields).to_set()
}

/// The generic parameters that must be showable: all but the phantom set,
/// in declaration order.
pub open spec fn bounded_params(generics: Seq<Seq<char>>, fields: Seq<FieldView>) -> Seq<Seq<char>> {
    generics.filter(needs_bound(fields))
}

/// The head of the routine for a record.
pub open spec fn header_of(name: Seq<char>, generics: Seq<Seq<char>>, fields: Seq<FieldView>) -> HeaderView {
    HeaderView { name, generics, bounded: bounded_params(generics, fields) }
}

/// How the first `n` fields are shown, or the failure of the first field,
/// in declaration order, whose annotation is malformed.
pub open spec fn formats_of(fields: Seq<FieldView>, n: int) -> Result<Seq<FieldFormatView>, ErrorView>
    decreases n,
{
    if n <= 0 {
        Ok(Seq::empty())
    } else {
        match formats_of(fields, n - 1) {
            Ok(before) => match format_directive(fields[n - 1].annotations) {
                Ok(format) => Ok(before.push(FieldFormatView { name: fields[n - 1].name, format })),
                Err(error) => Err(error),
            },
            Err(error) => Err(error),
        }
    }
}

/// What generation makes of a schema.
pub open spec fn represented_named(schema: SchemaView) -> Result<DebugPlanView, ErrorView> {
    match formats_of(schema.fields, schema.fields.len() as int) {
        Ok(fields) => Ok(
            DebugPlanView { header: header_of(schema.name, schema.generics, schema.fields), fields },
        ),
        Err(error) => Err(error),
    }
}

/// What generation makes of a definition: extraction, then generation from
/// the schema.
pub open spec fn represented(input: DefinitionView) -> Result<DebugPlanView, ErrorView> {
    match extracted(input) {
        Ok(schema) => represented_named(schema),
        Err(error) => Err(error),
    }
}

/// The fields of an instance as they are shown: each as its name, `: ` and
/// the text of its value, with `, ` between two fields.
pub open spec fn shown_fields(fields: Seq<FieldFormatView>, texts: Seq<Seq<char>>, n: int) -> Seq<char>
    decreases n,
{
    if n <= 0 {
        Seq::empty()
    } else if n == 1 {
        fields[0].name + ": "@ + texts[0]
    } else {
        shown_fields(fields, texts, n - 1) + ", "@ + fields[n - 1].name + ": "@ + texts[n - 1]
    }
}

/// An instance as it is shown: the name of the record, and, where it has
/// fields, the fields between ` { ` and ` }`.
pub open spec fn shown(plan: DebugPlanView, texts: Seq<Seq<char>>) -> Seq<char> {
    if plan.fields.len() == 0 {
        plan.header.name
    } else {
        plan.header.name + " { "@ + shown_fields(plan.fields, texts, plan.fields.len() as int) + " }"@
    }
}

/// Once the formats of the first `n` fields fail, those of any longer
/// prefix fail in the same way.
proof fn lemma_formats_fail(fields: Seq<FieldView>, n: int, m: int)
    requires
        n <= m,
        formats_of(fields, n) is Err,
    ensures
        formats_of(fields, m) == formats_of(fields, n),
    decreases m - n,
{
    if n < m {
        lemma_formats_fail(fields, n, m - 1);
    }
}

/// Whether a field is a phantom marker over `param`.
fn is_marker(field: &FieldDescriptor, param: &str) -> (r: bool)
    ensures
        r == marks(field@, param@),
{
    match &field.declared_type {
        TypeExpr::Applied(wrapper, inner) => {
            assert(field.declared_type@ == TypeExprView::Applied(wrapper@, Box::new(inner@)));
            same_text(wrapper.as_str(), PHANTOM) && match &**inner {
                TypeExpr::Named(name) => same_text(name.as_str(), param),
                TypeExpr::Applied(_, _) => false,
            }
        },
        TypeExpr::Named(_) => false,
    }
}

/// Whether `param` appears among the fields only inside phantom markers.
pub fn is_phantom_only(fields: &Vec<FieldDescriptor>, param: &str) -> (r: bool)
    ensures
        r == phantom_only(views(fields@), param@),
{
    let ghost all = views(fields@);
    let mut marked = false;
    let mut i: usize = 0;
    while i < fields.len()
        invariant
            i <= fields.len(),
            all == views(fields@),
            marked == exists|k: int| 0 <= k < i && marks(#[trigger] all[k], param@),
            forall|k: int| 0 <= k < i && mentions(#[trigger] all[k], param@) ==> marks(all[k], param@),
        decreases fields.len() - i,
    {
        let field = &fields[i];
        if is_marker(field, param) {
            assert(marks(all[i as int], param@));
            marked = true;
        } else if same_text(field.declared_type.leaf().as_str(), param) {
            assert(mentions(all[i as int], param@) && !marks(all[i as int], param@));
            return false;
        }
        i += 1;
    }
    marked
}

/// Whether a list of names holds `name`.
fn contains_text(list: &Vec<String>, name: &str) -> (r: bool)
    ensures
        r == views(list@).contains(name@),
{
    let mut i: usize = 0;
    while i < list.len()
        invariant
            i <= list.len(),
            forall|k: int| 0 <= k < i ==> views(list@)[k] != name@,
        decreases list.len() - i,
    {
        if same_text(list[i].as_str(), name) {
            assert(views(list@)[i as int] == name@);
            return true;
        }
        i += 1;
    }
    false
}

/// The names of the generic parameters, in declaration order.
fn names_of(generics: &Vec<GenericParam>) -> (r: Vec<String>)
    ensures
        views(r@) == views(generics@),
{
    let mut out: Vec<String> = Vec::new();
    let mut i: usize = 0;
    while i < generics.len()
        invariant
            i <= generics.len(),
            out.len() == i,
            forall|k: int| 0 <= k < i ==> (#[trigger] out[k])@ == generics[k]@,
        decreases generics.len() - i,
    {
        out.push(generics[i].name.clone());
        i += 1;
    }
    out
}

/// The phantom set of a record: the generic parameters that appear among
/// the fields only as the argument of a phantom marker.
pub fn phantoms(generics: &Vec<GenericParam>, fields: &Vec<FieldDescriptor>) -> (r: Vec<String>)
    ensures
        views(r@) == phantom_params(views(generics@), views(fields@)),
{
    let ghost test = is_phantom(views(fields@));
    let ghost all = views(generics@);
    let mut out: Vec<String> = Vec::new();
    let mut i: usize = 0;
    assert(all.take(0).filter(test) =~= Seq::<Seq<char>>::empty()) by {
        reveal(Seq::filter);
    }
    while i < generics.len()
        invariant
            i <= generics.len(),
            all == views(generics@),
            test == is_phantom(views(fields@)),
            views(out@) == all.take(i as int).filter(test),
        decreases generics.len() - i,
    {
        let param = &generics[i];
        proof {
            all.take(i as int).lemma_filter_push(all[i as int], test);
            assert(all.take(i as int).push(all[i as int]) =~= all.take(i + 1));
        }
        if is_phantom_only(fields, param.name.as_str()) {
            proof {
                lemma_views_push(out@, param.name);
            }
            out.push(param.name.clone());
        }
        i += 1;
    }
    assert(all.take(generics.len() as int) =~= all);
    out
}

/// The head of the routine for a generic record. A parameter of the
/// phantom set gets no bound; every other parameter does.
pub fn impl_debug_header_generic(
    ident: &String,
    generics: &Vec<GenericParam>,
    fields: &Vec<FieldDescriptor>,
) -> (r: DebugHeader)
    ensures
        r@ == header_of(ident@, views(generics@), views(fields@)),
{
    let phantoms = phantoms(generics, fields);
    let ghost test = needs_bound(views(fields@));
    let ghost all = views(generics@);
    let mut where_clauses: Vec<String> = Vec::new();
    let mut i: usize = 0;
    assert(all.take(0).filter(test) =~= Seq::<Seq<char>>::empty()) by {
        reveal(Seq::filter);
    }
    while i < generics.len()
        invariant
            i <= generics.len(),
            all == views(generics@),
            test == needs_bound(views(fields@)),
            views(phantoms@) == phantom_params(all, views(fields@)),
            views(where_clauses@) == all.take(i as int).filter(test),
        decreases generics.len() - i,
    {
        let ty = &generics[i];
        proof {
            all.take(i as int).lemma_filter_push(all[i as int], test);
            assert(all.take(i as int).push(all[i as int]) =~= all.take(i + 1));
            lemma_phantom_membership(all, views(fields@), i as int);
        }
        if !contains_text(&phantoms, ty.name.as_str()) {
            proof {
                lemma_views_push(where_clauses@, ty.name);
            }
            where_clauses.push(ty.name.clone());
        }
        i += 1;
    }
    assert(all.take(generics.len() as int) =~= all);
    DebugHeader { name: ident.clone(), generics: names_of(generics), bounded: where_clauses }
}

/// A generic parameter is among the phantom parameters exactly if it
/// appears only inside phantom markers.
proof fn lemma_phantom_membership(generics: Seq<Seq<char>>, fields: Seq<FieldView>, i: int)
    requires
        0 <= i < generics.len(),
    ensures
        phantom_params(generics, fields).contains(generics[i]) == phantom_only(fields, generics[i]),
{
    let test = is_phantom(fields);
    let kept = generics.filter(test);
    if phantom_only(fields, generics[i]) {
        generics.lemma_filter_contains(test, i);
    }
    if kept.contains(generics[i]) {
        let j = choose|j: int| 0 <= j < kept.len() && kept[j] == generics[i];
        generics.lemma_filter_pred(test, j);
    }
}

/// How each field is shown, in declaration order, or the failure of the
/// first field whose annotation is malformed.
fn field_formats(fields: &Vec<FieldDescriptor>) -> (r: Result<Vec<FieldFormat>, Error>)
    ensures
        match formats_of(views(fields@), fields.len() as int) {
            Ok(formats) => r is Ok && views(r->Ok_0@) == formats,
            Err(error) => r is Err && r->Err_0@ == error,
        },
{
    let mut out: Vec<FieldFormat> = Vec::new();
    let mut i: usize = 0;
    assert(views(out@) =~= Seq::<FieldFormatView>::empty());
    while i < fields.len()
        invariant
            i <= fields.len(),
            formats_of(views(fields@), i as int) == Ok::<_, ErrorView>(views(out@)),
        decreases fields.len() - i,
    {
        let f = &fields[i];
        match get_fmt_attr(&f.annotations) {
            Ok(format) => {
                let entry = FieldFormat { name: f.name.clone(), format };
                proof {
                    lemma_views_push(out@, entry);
                }
                out.push(entry);
            },
            Err(err) => {
                proof {
                    lemma_formats_fail(views(fields@), i + 1, fields.len() as int);
                }
                return Err(err);
            },
        }
        i += 1;
    }
    Ok(out)
}

impl DebugHeader {
    /// Whether the routine asks that the generic parameter `param` be
    /// showable.
    pub fn requires_bound(&self, param: &str) -> (r: bool)
        ensures
            r == self@.bounded.contains(param@),
    {
        contains_text(&self.bounded, param)
    }
}

impl DebugPlan {
    /// Shows an instance, given the text of each field's value: the text
    /// that the value's default rendering or the field's format template
    /// gave, as the plan says for that field. Nothing is shown unless there
    /// is one text for each field.
    pub fn render(&self, texts: &Vec<String>) -> (r: Option<String>)
        ensures
            match r {
                Some(text) => texts.len() == self.fields.len() && text@ == shown(self@, views(texts@)),
                None => texts.len() != self.fields.len(),
            },
    {
        if texts.len() != self.fields.len() {
            return None;
        }
        let mut out = self.header.name.clone();
        if self.fields.len() == 0 {
            return Some(out);
        }
        out.append(" { ");
        let ghost name = self.header.name@;
        let ghost fields = views(self.fields@);
        let ghost values = views(texts@);
        let mut i: usize = 0;
        while i < self.fields.len()
            invariant
                i <= self.fields.len(),
                texts.len() == self.fields.len(),
                name == self.header.name@,
                fields == views(self.fields@),
                values == views(texts@),
                out@ == name + " { "@ + shown_fields(fields, values, i as int),
            decreases self.fields.len() - i,
        {
            if i > 0 {
                out.append(", ");
            }
            out.append(self.fields[i].name.as_str());
            out.append(": ");
            out.append(texts[i].as_str());
            i += 1;
        }
        out.append(" }");
        Some(out)
    }
}

/// Generates the routine of a validated record.
pub fn impl_debug_named(schema: &TypeSchema) -> (r: Result<DebugPlan, Error>)
    ensures
        result_view(r) == represented_named(schema@),
{
    match field_formats(schema.fields()) {
        Ok(fields_dbg) => {
            let impl_debug_header = impl_debug_header_generic(
                schema.name(),
                schema.generics(),
                schema.fields(),
            );
            Ok(DebugPlan { header: impl_debug_header, fields: fields_dbg })
        },
        Err(error) => Err(error),
    }
}

/// Generates the routine of a structure: only labelled fields, no two of
/// the same name, make a record.
pub fn impl_debug(ident: String, generics: Vec<GenericParam>, data: Fields) -> (r: Result<
    DebugPlan,
    Error,
>)
    ensures
        result_view(r) == represented(
            DefinitionView { name: ident@, generics: views(generics@), data: DataView::Struct(data@) },
        ),
{
    match data {
        Fields::Named(fields) => match TypeSchema::from_named(ident, generics, fields) {
            Ok(schema) => impl_debug_named(&schema),
            Err(error) => Err(error),
        },
        _ => Err(Error::UnsupportedShape),
    }
}

/// Generates the representation routine of a type definition. Fails with
/// `UnsupportedShape` for anything but a record with labelled fields, and
/// with the `MalformedDirective` of the first field whose annotation is
/// malformed.
pub fn derive(input: RecordDefinition) -> (r: Result<DebugPlan, Error>)
    ensures
        result_view(r) == represented(input@),
{
    match input.data {
        Data::Struct(data) => impl_debug(input.name, input.generics, data),
        _ => Err(Error::UnsupportedShape),
    }
}

} // verus!
