//! The builder generator: from a record it derives the builder type, its
//! setters, its starting state and the checks of its build operation.
use vstd::prelude::*;
use vstd::string::*;
use crate::error::{Error, ErrorView};
use crate::resolver::{
    builder_decision, decide, consulted_annotation, first_consulted, BuilderDirective,
    BuilderDirectiveView,
};
use crate::schema::{
    extracted, Data, DataView, DefinitionView, FieldDescriptor, FieldView, Fields, GenericParam,
    Location, RecordDefinition, SchemaView, TypeExpr, TypeExprView, TypeSchema,
};
use crate::shape::{
    extract_inner_type, inner_of, optional_wrapper, sequence_wrapper, OPTIONAL, SEQUENCE,
};
use crate::text::{result_view, same_text, views};

verus! {

/// One field of the builder type.
#[derive(Debug, PartialEq, Eq)]
pub struct BuilderField {
    pub name: String,
    pub ty: TypeExpr,
}

pub struct BuilderFieldView {
    pub name: Seq<char>,
    pub ty: TypeExprView,
}

impl View for BuilderField {
    type V = BuilderFieldView;

    open spec fn view(&self) -> BuilderFieldView {
        BuilderFieldView { name: self.name@, ty: self.ty@ }
    }
}

/// What a setter does with its argument: store it as the field's value, or
/// append it to the field's sequence.
#[derive(Debug, Clone, Copy, PartialEq, Eq, Structural)]
pub enum SetterKind {
    Full,
    Append,
}

/// One setter of the builder type: its name, the position of the field it
/// fills, what it does, and the type of its argument.
#[derive(Debug, PartialEq, Eq)]
pub struct Setter {
    pub name: String,
    pub field: usize,
    pub kind: SetterKind,
    pub param: TypeExpr,
}

pub struct SetterView {
    pub name: Seq<char>,
    pub field: int,
    pub kind: SetterKind,
    pub param: TypeExprView,
}

impl View for Setter {
    type V = SetterView;

    open spec fn view(&self) -> SetterView {
        SetterView { name: self.name@, field: self.field as int, kind: self.kind, param: self.param@ }
    }
}

/// One step of the build operation: the field it hands over, and whether
/// the field must have been given a value.
#[derive(Debug, PartialEq, Eq)]
pub struct BuildStep {
    pub name: String,
    pub required: bool,
}

pub struct BuildStepView {
    pub name: Seq<char>,
    pub required: bool,
}

impl View for BuildStep {
    type V = BuildStepView;

    open spec fn view(&self) -> BuildStepView {
        BuildStepView { name: self.name@, required: self.required }
    }
}

/// The state in which a fresh builder holds a field.
#[derive(Debug, Clone, Copy, PartialEq, Eq, Structural)]
pub enum Initial {
    Absent,
    EmptySequence,
}

/// The builder type: its name, its fields, its setters in declaration
/// order, and the steps of its build operation.
#[derive(Debug, PartialEq, Eq)]
pub struct BuilderType {
    pub name: String,
    pub fields: Vec<BuilderField>,
    pub setters: Vec<Setter>,
    pub steps: Vec<BuildStep>,
}

pub struct BuilderTypeView {
    pub name: Seq<char>,
    pub fields: Seq<BuilderFieldView>,
    pub setters: Seq<SetterView>,
    pub steps: Seq<BuildStepView>,
}

impl View for BuilderType {
    type V = BuilderTypeView;

    open spec fn view(&self) -> BuilderTypeView {
        BuilderTypeView {
            name: self.name@,
            fields: views(self.fields@),
            setters: views(self.setters@),
            steps: views(self.steps@),
        }
    }
}

/// All that is generated for one record: the builder type, and the state in
/// which the record's entry point hands out a fresh builder.
#[derive(Debug, PartialEq, Eq)]
pub struct BuilderPlan {
    pub record: String,
    pub builder: BuilderType,
    pub initial: Vec<Initial>,
}

pub struct PlanView {
    pub record: Seq<char>,
    pub builder: BuilderTypeView,
    pub initial: Seq<Initial>,
}

impl View for BuilderPlan {
    type V = PlanView;

    open spec fn view(&self) -> PlanView {
        PlanView { record: self.record@, builder: self.builder@, initial: self.initial@ }
    }
}

impl PlanView {
    /// What holds of every generated plan: the builder's fields, the steps
    /// of its build operation and its starting state go field by field,
    /// under the same names, and every setter fills one of the fields.
    pub open spec fn wf(self) -> bool {
        &&& self.builder.steps.len() == self.builder.fields.len()
        &&& self.initial.len() == self.builder.fields.len()
        &&& forall|i: int|
            0 <= i < self.builder.fields.len() ==> (#[trigger] self.builder.steps[i]).name
                == self.builder.fields[i].name
        &&& forall|k: int|
            0 <= k < self.builder.setters.len() ==> 0 <= (#[trigger] self.builder.setters[k]).field
                < self.builder.fields.len()
    }
}

/// Whether a declared type is optional-shaped.
pub open spec fn is_optional(ty: TypeExprView) -> bool {
    inner_of(ty, optional_wrapper()) is Some
}

/// The type of the values that a field holds once it is set: the declared
/// type without its optional wrapper.
pub open spec fn logical_type(ty: TypeExprView) -> TypeExprView {
    match inner_of(ty, optional_wrapper()) {
        Some(inner) => inner,
        None => ty,
    }
}

/// The type of one element of a field, where its logical type is a sequence.
pub open spec fn element_type(ty: TypeExprView) -> Option<TypeExprView> {
    inner_of(logical_type(ty), sequence_wrapper())
}

/// The failure for an append alias on a field that holds no sequence.
pub open spec fn malformed_element(location: Location) -> ErrorView {
    ErrorView::MalformedDirective { message: "invalid Sequence<> inner type"@, location }
}

/// The builder's directive for a field: what its annotations resolve to,
/// where an append alias is accepted only on a field whose logical type is
/// a sequence.
pub open spec fn field_directive(field: FieldView) -> Result<BuilderDirectiveView, ErrorView> {
    match first_consulted(field.annotations, 0) {
        Some(at) => match builder_decision(field.annotations[at]) {
            Ok(BuilderDirectiveView::AppendAlias(alias)) => if element_type(field.declared_type) is Some {
                Ok(BuilderDirectiveView::AppendAlias(alias))
            } else {
                Err(malformed_element(field.annotations[at].location))
            },
            other => other,
        },
        None => Ok(BuilderDirectiveView::NoDirective),
    }
}

/// The directives of the first `n` fields, or the failure of the first
/// field, in declaration order, that has one.
pub open spec fn directives_of(fields: Seq<FieldView>, n: int) -> Result<
    Seq<BuilderDirectiveView>,
    ErrorView,
>
    decreases n,
{
    if n <= 0 {
        Ok(Seq::empty())
    } else {
        match directives_of(fields, n - 1) {
            Ok(before) => match field_directive(fields[n - 1]) {
                Ok(directive) => Ok(before.push(directive)),
                Err(error) => Err(error),
            },
            Err(error) => Err(error),
        }
    }
}

/// The field of the builder type that mirrors a field of the record: an
/// optional-shaped field keeps its type, any other is wrapped as optional.
pub open spec fn builder_field(field: FieldView) -> BuilderFieldView {
    BuilderFieldView {
        name: field.name,
        ty: if is_optional(field.declared_type) {
            field.declared_type
        } else {
            TypeExprView::Applied(optional_wrapper(), Box::new(field.declared_type))
        },
    }
}

/// The full-value setter of the field at `position`.
pub open spec fn full_setter(position: int, field: FieldView) -> SetterView {
    SetterView {
        name: field.name,
        field: position,
        kind: SetterKind::Full,
        param: logical_type(field.declared_type),
    }
}

/// The append-one setter of the field at `position` under `alias`. Its
/// argument is one element of the field's sequence. (A field that holds no
/// sequence gets no alias: see [`field_directive`].)
pub open spec fn append_setter(position: int, field: FieldView, alias: Seq<char>) -> SetterView {
    SetterView {
        name: alias,
        field: position,
        kind: SetterKind::Append,
        param: match element_type(field.declared_type) {
            Some(element) => element,
            None => logical_type(field.declared_type),
        },
    }
}

/// The setters of one field under its directive: the full-value setter
/// alone; or the append-one setter followed by the full-value setter; or,
/// where the alias is the field's own name, the append-one setter alone.
pub open spec fn setters_for(position: int, field: FieldView, directive: BuilderDirectiveView) -> Seq<
    SetterView,
> {
    match directive {
        BuilderDirectiveView::NoDirective => seq![full_setter(position, field)],
        BuilderDirectiveView::AppendAlias(alias) => if alias == field.name {
            seq![append_setter(position, field, alias)]
        } else {
            seq![append_setter(position, field, alias), full_setter(position, field)]
        },
    }
}

/// The setters of the first `n` fields, in declaration order.
pub open spec fn setters_from(
    fields: Seq<FieldView>,
    directives: Seq<BuilderDirectiveView>,
    n: int,
) -> Seq<SetterView>
    decreases n,
{
    if n <= 0 {
        Seq::empty()
    } else {
        setters_from(fields, directives, n - 1) + setters_for(n - 1, fields[n - 1], directives[n - 1])
    }
}

/// The step of the build operation for a field: every field but an
/// optional-shaped one is required.
pub open spec fn build_step(field: FieldView) -> BuildStepView {
    BuildStepView { name: field.name, required: !is_optional(field.declared_type) }
}

/// The state in which a fresh builder holds a field: an empty sequence for
/// a sequence-shaped field with an append alias, and absent otherwise.
pub open spec fn initial_for(field: FieldView, directive: BuilderDirectiveView) -> Initial {
    if directive is AppendAlias && inner_of(field.declared_type, sequence_wrapper()) is Some {
        Initial::EmptySequence
    } else {
        Initial::Absent
    }
}

/// The name of the builder type of a record.
pub open spec fn builder_name(record: Seq<char>) -> Seq<char> {
    record + "Builder"@
}

/// The builder type of a record whose fields have these directives.
pub open spec fn builder_type_from(schema: SchemaView, directives: Seq<BuilderDirectiveView>) -> BuilderTypeView {
    BuilderTypeView {
        name: builder_name(schema.name),
        fields: Seq::new(schema.fields.len(), |i: int| builder_field(schema.fields[i])),
        setters: setters_from(schema.fields, directives, schema.fields.len() as int),
        steps: Seq::new(schema.fields.len(), |i: int| build_step(schema.fields[i])),
    }
}

/// All that is generated for a record whose fields have these directives.
pub open spec fn plan_from(schema: SchemaView, directives: Seq<BuilderDirectiveView>) -> PlanView {
    PlanView {
        record: schema.name,
        builder: builder_type_from(schema, directives),
        initial: Seq::new(schema.fields.len(), |i: int| initial_for(schema.fields[i], directives[i])),
    }
}

/// What generation makes of a schema: the plan under the directives of its
/// fields, or the failure of the first field that has one.
pub open spec fn derived_named(schema: SchemaView) -> Result<PlanView, ErrorView> {
    match directives_of(schema.fields, schema.fields.len() as int) {
        Ok(directives) => Ok(plan_from(schema, directives)),
        Err(error) => Err(error),
    }
}

/// What generation makes of a definition: extraction, then generation from
/// the schema.
pub open spec fn derived(input: DefinitionView) -> Result<PlanView, ErrorView> {
    match extracted(input) {
        Ok(schema) => derived_named(schema),
        Err(error) => Err(error),
    }
}

/// The type of the values that a field holds once it is set.
fn logical<'t>(ty: &'t TypeExpr) -> (r: &'t TypeExpr)
    ensures
        r@ == logical_type(ty@),
{
    match extract_inner_type(ty, OPTIONAL) {
        Some(inner) => inner,
        None => ty,
    }
}

/// Resolves the annotations of a field for the builder generator and holds
/// an append alias against the field's shape.
pub fn resolve_field(field: &FieldDescriptor) -> (r: Result<BuilderDirective, Error>)
    ensures
        result_view(r) == field_directive(field@),
{
    match consulted_annotation(&field.annotations) {
        Some(at) => {
            let annotation = &field.annotations[at];
            match decide(annotation) {
                Ok(BuilderDirective::AppendAlias(alias)) => {
                    if extract_inner_type(logical(&field.declared_type), SEQUENCE).is_some() {
                        Ok(BuilderDirective::AppendAlias(alias))
                    } else {
                        Err(
                            Error::MalformedDirective {
                                message: String::from_str("invalid Sequence<> inner type"),
                                location: annotation.location,
                            },
                        )
                    }
                },
                other => other,
            }
        },
        None => Ok(BuilderDirective::NoDirective),
    }
}

/// The fields of the builder type, one for each field of the record.
pub fn struct_named_struct_builder_def(fields: &Vec<FieldDescriptor>) -> (r: Vec<BuilderField>)
    ensures
        views(r@) == Seq::new(fields.len() as nat, |i: int| builder_field(views(fields@)[i])),
{
    let mut out: Vec<BuilderField> = Vec::new();
    let mut i: usize = 0;
    while i < fields.len()
        invariant
            i <= fields.len(),
            out.len() == i,
            forall|k: int| 0 <= k < i ==> (#[trigger] out[k])@ == builder_field(views(fields@)[k]),
        decreases fields.len() - i,
    {
        let field = &fields[i];
        let ty = if extract_inner_type(&field.declared_type, OPTIONAL).is_some() {
            field.declared_type.clone()
        } else {
            TypeExpr::Applied(String::from_str(OPTIONAL), Box::new(field.declared_type.clone()))
        };
        out.push(BuilderField { name: field.name.clone(), ty });
        i += 1;
    }
    out
}

/// The setters of one field: its annotations are resolved, and the setters
/// follow from the directive.
pub fn field_setter(position: usize, field: &FieldDescriptor) -> (r: Result<Vec<Setter>, Error>)
    ensures
        match field_directive(field@) {
            Ok(directive) => r is Ok && views(r->Ok_0@) == setters_for(position as int, field@, directive),
            Err(error) => r is Err && r->Err_0@ == error,
        },
{
    let ty = logical(&field.declared_type);
    let set_all = Setter {
        name: field.name.clone(),
        field: position,
        kind: SetterKind::Full,
        param: ty.clone(),
    };
    match resolve_field(field) {
        Ok(BuilderDirective::AppendAlias(once_ident)) => {
            let param = match extract_inner_type(ty, SEQUENCE) {
                Some(inner_ty) => inner_ty.clone(),
                None => vstd::pervasive::unreached(),
            };
            let same = same_text(once_ident.as_str(), field.name.as_str());
            let set_once = Setter { name: once_ident, field: position, kind: SetterKind::Append, param };
            let mut out: Vec<Setter> = Vec::new();
            out.push(set_once);
            if !same {
                out.push(set_all);
            }
            Ok(out)
        },
        Ok(BuilderDirective::NoDirective) => {
            let mut out: Vec<Setter> = Vec::new();
            out.push(set_all);
            Ok(out)
        },
        Err(err) => Err(err),
    }
}

/// The setters of the builder type: those of each field, in declaration
/// order, or the failure of the first field that has one.
pub fn struct_named_struct_builder_impl_setters(fields: &Vec<FieldDescriptor>) -> (r: Result<
    Vec<Setter>,
    Error,
>)
    ensures
        match directives_of(views(fields@), fields.len() as int) {
            Ok(directives) => r is Ok && views(r->Ok_0@) == setters_from(
                views(fields@),
                directives,
                fields.len() as int,
            ),
            Err(error) => r is Err && r->Err_0@ == error,
        },
{
    let mut out: Vec<Setter> = Vec::new();
    let mut i: usize = 0;
    while i < fields.len()
        invariant
            i <= fields.len(),
            directives_of(views(fields@), i as int) is Ok,
            views(out@) == setters_from(
                views(fields@),
                directives_of(views(fields@), i as int)->Ok_0,
                i as int,
            ),
        decreases fields.len() - i,
    {
        match field_setter(i, &fields[i]) {
            Ok(mut own) => {
                out.append(&mut own);
                proof {
                    let before = directives_of(views(fields@), i as int)->Ok_0;
                    let after = directives_of(views(fields@), i + 1)->Ok_0;
                    lemma_directives_ok(views(fields@), i as int);
                    lemma_setters_ignore_later(views(fields@), before, after, i as int);
                }
            },
            Err(error) => {
                proof {
                    lemma_directives_fail(views(fields@), i + 1, fields.len() as int);
                }
                return Err(error);
            },
        }
        i += 1;
    }
    Ok(out)
}

/// The setters of the first `n` fields depend on the first `n` directives
/// only.
proof fn lemma_setters_ignore_later(
    fields: Seq<FieldView>,
    a: Seq<BuilderDirectiveView>,
    b: Seq<BuilderDirectiveView>,
    n: int,
)
    requires
        n <= a.len(),
        n <= b.len(),
        forall|i: int| 0 <= i < n ==> a[i] == b[i],
    ensures
        setters_from(fields, a, n) == setters_from(fields, b, n),
    decreases n,
{
    if n > 0 {
        lemma_setters_ignore_later(fields, a, b, n - 1);
    }
}

/// Once the directives of the first `n` fields fail, those of any longer
/// prefix fail in the same way.
proof fn lemma_directives_fail(fields: Seq<FieldView>, n: int, m: int)
    requires
        n <= m,
        directives_of(fields, n) is Err,
    ensures
        directives_of(fields, m) == directives_of(fields, n),
    decreases m - n,
{
    if n < m {
        lemma_directives_fail(fields, n, m - 1);
    }
}

/// Every setter of the first `n` fields fills one of them.
proof fn lemma_setters_in_range(
    fields: Seq<FieldView>,
    directives: Seq<BuilderDirectiveView>,
    n: int,
    k: int,
)
    requires
        0 <= k < setters_from(fields, directives, n).len(),
    ensures
        0 <= setters_from(fields, directives, n)[k].field < n,
    decreases n,
{
    if n > 0 {
        if k < setters_from(fields, directives, n - 1).len() {
            lemma_setters_in_range(fields, directives, n - 1, k);
        }
    }
}

/// Every plan generated from a schema is well formed.
pub proof fn lemma_plan_wf(schema: SchemaView, directives: Seq<BuilderDirectiveView>)
    ensures
        plan_from(schema, directives).wf(),
{
    let plan = plan_from(schema, directives);
    assert forall|k: int| 0 <= k < plan.builder.setters.len() implies 0 <= (
    #[trigger] plan.builder.setters[k]).field < plan.builder.fields.len() by {
        lemma_setters_in_range(schema.fields, directives, schema.fields.len() as int, k);
    }
}

/// The directives of the first `n` fields, where they resolve, are `n` in
/// number and are those of the fields.
proof fn lemma_directives_ok(fields: Seq<FieldView>, n: int)
    requires
        0 <= n,
        directives_of(fields, n) is Ok,
    ensures
        directives_of(fields, n)->Ok_0.len() == n,
        forall|i: int|
            0 <= i < n ==> field_directive(#[trigger] fields[i]) == Ok::<_, ErrorView>(
                directives_of(fields, n)->Ok_0[i],
            ),
    decreases n,
{
    if n > 0 {
        lemma_directives_ok(fields, n - 1);
    }
}

/// The steps of the build operation, one for each field of the record.
pub fn struct_named_struct_builder_impl_build(fields: &Vec<FieldDescriptor>) -> (r: Vec<BuildStep>)
    ensures
        views(r@) == Seq::new(fields.len() as nat, |i: int| build_step(views(fields@)[i])),
{
    let mut out: Vec<BuildStep> = Vec::new();
    let mut i: usize = 0;
    while i < fields.len()
        invariant
            i <= fields.len(),
            out.len() == i,
            forall|k: int| 0 <= k < i ==> (#[trigger] out[k])@ == build_step(views(fields@)[k]),
        decreases fields.len() - i,
    {
        let field = &fields[i];
        let required = extract_inner_type(&field.declared_type, OPTIONAL).is_none();
        out.push(BuildStep { name: field.name.clone(), required });
        i += 1;
    }
    out
}

/// The builder type of a record: its fields, its setters and the steps of
/// its build operation.
pub fn struct_named_struct_builder(schema: &TypeSchema) -> (r: Result<BuilderType, Error>)
    ensures
        match directives_of(schema@.fields, schema@.fields.len() as int) {
            Ok(directives) => r is Ok && r->Ok_0@ == builder_type_from(schema@, directives),
            Err(error) => r is Err && r->Err_0@ == error,
        },
{
    let fields = schema.fields();
    let struct_def = struct_named_struct_builder_def(fields);
    let struct_impl_build = struct_named_struct_builder_impl_build(fields);
    match struct_named_struct_builder_impl_setters(fields) {
        Ok(struct_impl_setters) => {
            let name = schema.name().clone().concat("Builder");
            Ok(
                BuilderType {
                    name,
                    fields: struct_def,
                    setters: struct_impl_setters,
                    steps: struct_impl_build,
                },
            )
        },
        Err(error) => Err(error),
    }
}

/// The starting state of a fresh builder, one entry for each field of the
/// record.
pub fn struct_name_impl_struct(fields: &Vec<FieldDescriptor>) -> (r: Result<Vec<Initial>, Error>)
    ensures
        match directives_of(views(fields@), fields.len() as int) {
            Ok(directives) => r is Ok && r->Ok_0@ == Seq::new(
                fields.len() as nat,
                |i: int| initial_for(views(fields@)[i], directives[i]),
            ),
            Err(error) => r is Err && r->Err_0@ == error,
        },
{
    let mut out: Vec<Initial> = Vec::new();
    let mut i: usize = 0;
    while i < fields.len()
        invariant
            i <= fields.len(),
            out.len() == i,
            directives_of(views(fields@), i as int) is Ok,
            forall|k: int|
                0 <= k < i ==> #[trigger] out[k] == initial_for(
                    views(fields@)[k],
                    directives_of(views(fields@), i as int)->Ok_0[k],
                ),
        decreases fields.len() - i,
    {
        let field = &fields[i];
        proof {
            lemma_directives_ok(views(fields@), i as int);
        }
        match resolve_field(field) {
            Ok(directive) => {
                let sequence = extract_inner_type(&field.declared_type, SEQUENCE).is_some();
                let state = match directive {
                    BuilderDirective::AppendAlias(_) => if sequence {
                        Initial::EmptySequence
                    } else {
                        Initial::Absent
                    },
                    BuilderDirective::NoDirective => Initial::Absent,
                };
                out.push(state);
            },
            Err(error) => {
                proof {
                    lemma_directives_fail(views(fields@), i + 1, fields.len() as int);
                }
                return Err(error);
            },
        }
        i += 1;
    }
    Ok(out)
}

/// Generates the builder of a validated record.
pub fn derive_struct_named(schema: &TypeSchema) -> (r: Result<BuilderPlan, Error>)
    ensures
        result_view(r) == derived_named(schema@),
        r matches Ok(plan) ==> plan@.wf(),
{
    proof {
        let directives = directives_of(schema@.fields, schema@.fields.len() as int);
        if directives is Ok {
            lemma_plan_wf(schema@, directives->Ok_0);
        }
    }
    match struct_named_struct_builder(schema) {
        Ok(builder) => match struct_name_impl_struct(schema.fields()) {
            Ok(initial) => Ok(BuilderPlan { record: schema.name().clone(), builder, initial }),
            Err(error) => Err(error),
        },
        Err(error) => Err(error),
    }
}

/// Generates the builder of a structure: only labelled fields, no two of
/// the same name, make a record.
pub fn derive_struct(ident: String, generics: Vec<GenericParam>, data: Fields) -> (r: Result<
    BuilderPlan,
    Error,
>)
    ensures
        result_view(r) == derived(
            DefinitionView { name: ident@, generics: views(generics@), data: DataView::Struct(data@) },
        ),
        r matches Ok(plan) ==> plan@.wf(),
{
    match data {
        Fields::Named(fields) => match TypeSchema::from_named(ident, generics, fields) {
            Ok(schema) => derive_struct_named(&schema),
            Err(error) => Err(error),
        },
        _ => Err(Error::UnsupportedShape),
    }
}

/// Generates the builder of a type definition. Fails with
/// `UnsupportedShape` for anything but a record with labelled fields, and
/// with the `MalformedDirective` of the first field whose annotations are
/// malformed.
pub fn derive(input: RecordDefinition) -> (r: Result<BuilderPlan, Error>)
    ensures
        result_view(r) == derived(input@),
        r matches Ok(plan) ==> plan@.wf(),
{
    match input.data {
        Data::Struct(data) => derive_struct(input.name, input.generics, data),
        _ => Err(Error::UnsupportedShape),
    }
}

} // verus!
