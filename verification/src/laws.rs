//! What holds of every record: laws of the generated builder and of the
//! generated representation routine, proved from the definitions of the
//! generators and of the construction protocol.
use vstd::prelude::*;
use crate::builder::{
    append_setter, derived_named, directives_of, full_setter, is_optional, plan_from, setters_for,
    setters_from, BuildStepView, SetterKind, SetterView,
};
use crate::debug::{bounded_params, is_phantom, marks, mentions, needs_bound, phantom_only, phantom_set};
use crate::error::ErrorView;
use crate::protocol::{
    after_call, after_setter, appended, built, find_setter, first_missing, fresh_slots, record_of,
    slot_at, FieldValueView, RecordView, ValueView,
};
use crate::resolver::{
    builder_directive, format_directive, BuilderDirectiveView, RepresentationDirectiveView,
};
use crate::schema::{AnnotationView, FieldView, SchemaView};
use crate::schema::TypeExprView;
use crate::shape::{inner_of, optional_wrapper, sequence_wrapper, shape_of, ShapeView};

verus! {

/// The position, among all setters, of the first setter of the field at
/// `position`.
pub open spec fn offset(fields: Seq<FieldView>, directives: Seq<BuilderDirectiveView>, position: int) -> int {
    setters_from(fields, directives, position).len() as int
}

/// The record that holds the given values under the names of the schema's
/// fields: what is written down directly, without a builder.
pub open spec fn direct_record(schema: SchemaView, values: Seq<Option<ValueView>>) -> RecordView {
    RecordView {
        name: schema.name,
        fields: Seq::new(
            schema.fields.len(),
            |i: int| FieldValueView { name: schema.fields[i].name, value: values[i] },
        ),
    }
}

/// No two setters carry the same name.
pub open spec fn distinct_setters(setters: Seq<SetterView>) -> bool {
    forall|a: int, b: int|
        0 <= a < b < setters.len() ==> (#[trigger] setters[a]).name != (#[trigger] setters[b]).name
}

/// The setters of the first `j` fields come first among those of the first
/// `n` fields.
pub proof fn lemma_setters_prefix(
    fields: Seq<FieldView>,
    directives: Seq<BuilderDirectiveView>,
    j: int,
    n: int,
)
    requires
        0 <= j <= n,
    ensures
        offset(fields, directives, j) <= offset(fields, directives, n),
        setters_from(fields, directives, n).take(offset(fields, directives, j)) == setters_from(
            fields,
            directives,
            j,
        ),
    decreases n - j,
{
    if j < n {
        lemma_setters_prefix(fields, directives, j, n - 1);
    }
}

/// The setters of a field stand together among all setters, from the
/// field's offset on.
pub proof fn lemma_setters_of_field(
    fields: Seq<FieldView>,
    directives: Seq<BuilderDirectiveView>,
    j: int,
    n: int,
    t: int,
)
    requires
        0 <= j < n,
        0 <= t < setters_for(j, fields[j], directives[j]).len(),
    ensures
        0 <= offset(fields, directives, j) + t < offset(fields, directives, n),
        setters_from(fields, directives, n)[offset(fields, directives, j) + t] == setters_for(
            j,
            fields[j],
            directives[j],
        )[t],
{
    lemma_setters_prefix(fields, directives, j + 1, n);
    let upto = setters_from(fields, directives, j + 1);
    assert(setters_from(fields, directives, n).take(offset(fields, directives, j + 1))[offset(
        fields,
        directives,
        j,
    ) + t] == upto[offset(fields, directives, j) + t]);
}

/// Every setter belongs to the field that it fills.
pub proof fn lemma_setter_origin(
    fields: Seq<FieldView>,
    directives: Seq<BuilderDirectiveView>,
    n: int,
    k: int,
)
    requires
        0 <= k < setters_from(fields, directives, n).len(),
    ensures
        0 <= setters_from(fields, directives, n)[k].field < n,
        ({
            let setter = setters_from(fields, directives, n)[k];
            let j = setter.field;
            &&& offset(fields, directives, j) <= k < offset(fields, directives, j + 1)
            &&& setter == setters_for(j, fields[j], directives[j])[k - offset(fields, directives, j)]
        }),
    decreases n,
{
    if n > 0 && k < setters_from(fields, directives, n - 1).len() {
        lemma_setter_origin(fields, directives, n - 1, k);
    }
}

/// The shape of a declared type follows from its outermost wrapper alone:
/// it is optional exactly if that wrapper is the optional one, a sequence
/// exactly if it is the sequence one, and plain otherwise; an optional or a
/// sequence shape holds the inner type, a plain shape the type itself.
pub proof fn law_shape_by_wrapper(ty: TypeExprView)
    ensures
        shape_of(ty) is OptionalOf <==> is_optional(ty),
        shape_of(ty) is SequenceOf <==> inner_of(ty, sequence_wrapper()) is Some,
        shape_of(ty) is Plain <==> !is_optional(ty) && inner_of(ty, sequence_wrapper()) is None,
        shape_of(ty) matches ShapeView::OptionalOf(inner) ==> ty == TypeExprView::Applied(
            optional_wrapper(),
            Box::new(inner),
        ),
        shape_of(ty) matches ShapeView::SequenceOf(inner) ==> ty == TypeExprView::Applied(
            sequence_wrapper(),
            Box::new(inner),
        ),
        shape_of(ty) matches ShapeView::Plain(same) ==> same == ty,
{
    lemma_wrappers_differ();
}

/// The annotations of a field speak to one generator at most: they never
/// give an append alias to the builder and a format template to the
/// representation at once.
pub proof fn law_one_concern(annotations: Seq<AnnotationView>)
    ensures
        !(builder_directive(annotations) matches Ok(BuilderDirectiveView::AppendAlias(_))
            && format_directive(annotations) matches Ok(RepresentationDirectiveView::FormatString(_))),
{
}

/// A field without annotations has no directive.
pub proof fn lemma_unannotated(fields: Seq<FieldView>, n: int)
    requires
        0 <= n <= fields.len(),
        forall|i: int| 0 <= i < fields.len() ==> (#[trigger] fields[i]).annotations.len() == 0,
    ensures
        directives_of(fields, n) == Ok::<Seq<BuilderDirectiveView>, ErrorView>(
            Seq::new(n as nat, |i: int| BuilderDirectiveView::NoDirective),
        ),
    decreases n,
{
    if n > 0 {
        lemma_unannotated(fields, n - 1);
        assert(Seq::new((n - 1) as nat, |i: int| BuilderDirectiveView::NoDirective).push(
            BuilderDirectiveView::NoDirective,
        ) =~= Seq::new(n as nat, |i: int| BuilderDirectiveView::NoDirective));
    } else {
        assert(Seq::<BuilderDirectiveView>::empty() =~= Seq::new(
            n as nat,
            |i: int| BuilderDirectiveView::NoDirective,
        ));
    }
}

/// Under no directive at all, the setters are the full-value setters of the
/// fields, one each.
pub proof fn lemma_plain_setters(fields: Seq<FieldView>, directives: Seq<BuilderDirectiveView>, n: int)
    requires
        0 <= n <= fields.len(),
        forall|i: int| 0 <= i < n ==> directives[i] == BuilderDirectiveView::NoDirective,
    ensures
        setters_from(fields, directives, n) == Seq::new(n as nat, |i: int| full_setter(i, fields[i])),
    decreases n,
{
    if n > 0 {
        lemma_plain_setters(fields, directives, n - 1);
    }
}

/// For every record without annotations, generation succeeds, every field
/// has exactly one setter, its full-value setter under the field's own
/// name, and a fresh builder holds no field.
pub proof fn law_unannotated_record(schema: SchemaView)
    requires
        forall|i: int| 0 <= i < schema.fields.len() ==> (#[trigger] schema.fields[i]).annotations.len() == 0,
    ensures
        derived_named(schema) is Ok,
        derived_named(schema)->Ok_0.builder.setters == Seq::new(
            schema.fields.len(),
            |i: int| full_setter(i, schema.fields[i]),
        ),
        fresh_slots(derived_named(schema)->Ok_0.initial) == Seq::new(
            schema.fields.len(),
            |i: int| None::<ValueView>,
        ),
{
    let n = schema.fields.len() as int;
    lemma_unannotated(schema.fields, n);
    let directives = Seq::new(n as nat, |i: int| BuilderDirectiveView::NoDirective);
    lemma_plain_setters(schema.fields, directives, n);
}

/// In a record without annotations, the setter called by a field's name
/// stores its argument as that field's value and changes no other field.
pub proof fn law_unannotated_call(
    schema: SchemaView,
    slots: Seq<Option<ValueView>>,
    i: int,
    value: ValueView,
)
    requires
        schema.wf(),
        forall|i: int| 0 <= i < schema.fields.len() ==> (#[trigger] schema.fields[i]).annotations.len() == 0,
        slots.len() == schema.fields.len(),
        0 <= i < schema.fields.len(),
    ensures
        after_call(derived_named(schema)->Ok_0.builder.setters, slots, schema.fields[i].name, value) == Some(
            slots.update(i, Some(value)),
        ),
{
    law_unannotated_record(schema);
    law_call_by_name(derived_named(schema)->Ok_0.builder.setters, slots, i, value);
}

/// A build that finds a required field without a value, every required
/// field before it having one, fails with `MissingField` and names that
/// field.
pub proof fn law_missing_field(
    schema: SchemaView,
    directives: Seq<BuilderDirectiveView>,
    slots: Seq<Option<ValueView>>,
    i: int,
)
    requires
        0 <= i < schema.fields.len(),
        !is_optional(schema.fields[i].declared_type),
        slot_at(slots, i) is None,
        forall|j: int|
            0 <= j < i && !is_optional((#[trigger] schema.fields[j]).declared_type) ==> slot_at(slots, j) is Some,
    ensures
        built(plan_from(schema, directives), slots) == Err::<RecordView, ErrorView>(
            ErrorView::MissingField(schema.fields[i].name),
        ),
{
    let steps = plan_from(schema, directives).builder.steps;
    lemma_first_missing(steps, slots, 0, i);
}

/// A build on a builder that holds no value for a required field fails: it
/// names a required field without a value, that field or one declared
/// before it.
pub proof fn law_unset_field_fails(
    schema: SchemaView,
    directives: Seq<BuilderDirectiveView>,
    slots: Seq<Option<ValueView>>,
    i: int,
)
    requires
        0 <= i < schema.fields.len(),
        !is_optional(schema.fields[i].declared_type),
        slot_at(slots, i) is None,
    ensures
        exists|j: int|
            0 <= j <= i && !is_optional(schema.fields[j].declared_type) && slot_at(slots, j) is None
                && #[trigger] built(plan_from(schema, directives), slots) == Err::<RecordView, ErrorView>(
                ErrorView::MissingField(schema.fields[j].name),
            ),
{
    let steps = plan_from(schema, directives).builder.steps;
    lemma_missing_is_first(steps, slots, 0, i);
    lemma_missing_is_required(steps, slots, 0);
}

/// Nothing before the first missing field is missing.
proof fn lemma_missing_is_first(steps: Seq<BuildStepView>, slots: Seq<Option<ValueView>>, from: int, i: int)
    requires
        0 <= from <= i < steps.len(),
        steps[i].required,
        slot_at(slots, i) is None,
    ensures
        first_missing(steps, slots, from) matches Some(at) && at <= i,
    decreases i - from,
{
    if from < i && !(steps[from].required && slot_at(slots, from) is None) {
        lemma_missing_is_first(steps, slots, from + 1, i);
    }
}

/// The first missing field from `from` on is at `i`, where `i` is missing
/// and nothing between the two is.
proof fn lemma_first_missing(
    steps: Seq<BuildStepView>,
    slots: Seq<Option<ValueView>>,
    from: int,
    i: int,
)
    requires
        0 <= from <= i < steps.len(),
        steps[i].required,
        slot_at(slots, i) is None,
        forall|j: int| from <= j < i && (#[trigger] steps[j]).required ==> slot_at(slots, j) is Some,
    ensures
        first_missing(steps, slots, from) == Some(i),
    decreases i - from,
{
    if from < i {
        lemma_first_missing(steps, slots, from + 1, i);
    }
}

/// Nothing is missing from `from` on, where every required field has a
/// value.
proof fn lemma_nothing_missing(
    steps: Seq<BuildStepView>,
    slots: Seq<Option<ValueView>>,
    from: int,
)
    requires
        0 <= from,
        forall|j: int| from <= j < steps.len() && (#[trigger] steps[j]).required ==> slot_at(slots, j) is Some,
    ensures
        first_missing(steps, slots, from) is None,
    decreases steps.len() - from,
{
    if from < steps.len() {
        lemma_nothing_missing(steps, slots, from + 1);
    }
}

/// What is found missing is a required field without a value.
proof fn lemma_missing_is_required(
    steps: Seq<BuildStepView>,
    slots: Seq<Option<ValueView>>,
    from: int,
)
    requires
        0 <= from,
    ensures
        first_missing(steps, slots, from) matches Some(at) ==> from <= at < steps.len() && steps[at].required
            && slot_at(slots, at) is None,
    decreases steps.len() - from,
{
    if from < steps.len() {
        lemma_missing_is_required(steps, slots, from + 1);
    }
}

/// An optional-shaped field may be left out: a build never fails for it,
/// whether a build succeeds does not depend on it, a fresh builder holds
/// nothing for it, and the record built without it holds nothing for it.
pub proof fn law_optional_omitted(
    schema: SchemaView,
    directives: Seq<BuilderDirectiveView>,
    slots: Seq<Option<ValueView>>,
    i: int,
    value: ValueView,
)
    requires
        0 <= i < schema.fields.len(),
        is_optional(schema.fields[i].declared_type),
        slots.len() == schema.fields.len(),
        slots[i] is None,
    ensures
        first_missing(plan_from(schema, directives).builder.steps, slots, 0) != Some(i),
        built(plan_from(schema, directives), slots) is Ok <==> built(
            plan_from(schema, directives),
            slots.update(i, Some(value)),
        ) is Ok,
        built(plan_from(schema, directives), slots) matches Ok(record) ==> record.fields[i].value is None,
        fresh_slots(plan_from(schema, directives).initial)[i] is None,
{
    let plan = plan_from(schema, directives);
    let steps = plan.builder.steps;
    let other = slots.update(i, Some(value));
    lemma_missing_is_required(steps, slots, 0);
    lemma_missing_is_required(steps, other, 0);
    if first_missing(steps, slots, 0) is None {
        assert forall|j: int| 0 <= j < steps.len() && (#[trigger] steps[j]).required implies slot_at(
            other,
            j,
        ) is Some by {
            lemma_required_present(steps, slots, 0, j);
        }
        lemma_nothing_missing(steps, other, 0);
    }
    if first_missing(steps, other, 0) is None {
        assert forall|j: int| 0 <= j < steps.len() && (#[trigger] steps[j]).required implies slot_at(
            slots,
            j,
        ) is Some by {
            lemma_required_present(steps, other, 0, j);
        }
        lemma_nothing_missing(steps, slots, 0);
    }
    lemma_wrappers_differ();
}

/// Where nothing is missing, every required field has a value.
proof fn lemma_required_present(
    steps: Seq<BuildStepView>,
    slots: Seq<Option<ValueView>>,
    from: int,
    j: int,
)
    requires
        0 <= from <= j < steps.len(),
        first_missing(steps, slots, from) is None,
        steps[j].required,
    ensures
        slot_at(slots, j) is Some,
    decreases j - from,
{
    if from < j {
        lemma_required_present(steps, slots, from + 1, j);
    }
}

/// The wrapper of optional fields is not the wrapper of sequences.
pub proof fn lemma_wrappers_differ()
    ensures
        optional_wrapper() != sequence_wrapper(),
{
    reveal_strlit("Optional");
    reveal_strlit("Sequence");
    assert(optional_wrapper()[0] == 'O');
    assert(sequence_wrapper()[0] == 'S');
}

/// A field with an append alias other than its own name has both setters:
/// the append-one setter under the alias, then the full-value setter under
/// the field's name.
pub proof fn law_alias_beside_name(
    schema: SchemaView,
    directives: Seq<BuilderDirectiveView>,
    i: int,
    alias: Seq<char>,
)
    requires
        0 <= i < schema.fields.len(),
        directives[i] == BuilderDirectiveView::AppendAlias(alias),
        alias != schema.fields[i].name,
    ensures
        ({
            let setters = plan_from(schema, directives).builder.setters;
            let at = offset(schema.fields, directives, i);
            &&& 0 <= at && at + 1 < setters.len()
            &&& setters[at] == append_setter(i, schema.fields[i], alias)
            &&& setters[at + 1] == full_setter(i, schema.fields[i])
            &&& forall|k: int|
                0 <= k < setters.len() && (#[trigger] setters[k]).field == i ==> k == at || k == at + 1
        }),
{
    let n = schema.fields.len() as int;
    let setters = setters_from(schema.fields, directives, n);
    lemma_setters_of_field(schema.fields, directives, i, n, 0);
    lemma_setters_of_field(schema.fields, directives, i, n, 1);
    assert forall|k: int| 0 <= k < setters.len() && (#[trigger] setters[k]).field == i implies k == offset(
        schema.fields,
        directives,
        i,
    ) || k == offset(schema.fields, directives, i) + 1 by {
        lemma_setter_origin(schema.fields, directives, n, k);
    }
}

/// A field whose append alias is its own name has the append-one setter and
/// no other: no full-value setter is generated for it.
pub proof fn law_alias_is_name(schema: SchemaView, directives: Seq<BuilderDirectiveView>, i: int)
    requires
        0 <= i < schema.fields.len(),
        directives[i] == BuilderDirectiveView::AppendAlias(schema.fields[i].name),
    ensures
        ({
            let setters = plan_from(schema, directives).builder.setters;
            let at = offset(schema.fields, directives, i);
            &&& 0 <= at < setters.len()
            &&& setters[at] == append_setter(i, schema.fields[i], schema.fields[i].name)
            &&& forall|k: int| 0 <= k < setters.len() && (#[trigger] setters[k]).field == i ==> k == at
        }),
{
    let n = schema.fields.len() as int;
    let setters = setters_from(schema.fields, directives, n);
    lemma_setters_of_field(schema.fields, directives, i, n, 0);
    assert forall|k: int| 0 <= k < setters.len() && (#[trigger] setters[k]).field == i implies k == offset(
        schema.fields,
        directives,
        i,
    ) by {
        lemma_setter_origin(schema.fields, directives, n, k);
    }
}

/// Calling the append-one setter of a field three times, on a builder that
/// holds nothing or the empty sequence for it, leaves the three elements in
/// call order; no other field changes, the build does not miss the field,
/// and the record built holds the three elements.
pub proof fn law_three_appends(
    schema: SchemaView,
    directives: Seq<BuilderDirectiveView>,
    i: int,
    alias: Seq<char>,
    slots: Seq<Option<ValueView>>,
    first: ValueView,
    second: ValueView,
    third: ValueView,
)
    requires
        0 <= i < schema.fields.len(),
        directives[i] == BuilderDirectiveView::AppendAlias(alias),
        slots.len() == schema.fields.len(),
        slots[i] is None || slots[i] == Some(ValueView::List(Seq::empty())),
    ensures
        ({
            let plan = plan_from(schema, directives);
            let setters = plan.builder.setters;
            let at = offset(schema.fields, directives, i);
            let once = after_setter(setters, slots, at, first);
            let twice = after_setter(setters, once.unwrap(), at, second);
            let thrice = after_setter(setters, twice.unwrap(), at, third);
            let all = Some(ValueView::List(seq![first, second, third]));
            &&& once is Some && twice is Some && thrice is Some
            &&& thrice.unwrap() == slots.update(i, all)
            &&& first_missing(plan.builder.steps, thrice.unwrap(), 0) != Some(i)
            &&& built(plan, thrice.unwrap()) matches Ok(record) ==> record.fields[i].value == all
        }),
{
    let plan = plan_from(schema, directives);
    let n = schema.fields.len() as int;
    let setters = plan.builder.setters;
    let at = offset(schema.fields, directives, i);
    lemma_setters_of_field(schema.fields, directives, i, n, 0);
    let once = after_setter(setters, slots, at, first);
    assert(appended(slots[i], first) == Some(ValueView::List(seq![first])));
    let twice = after_setter(setters, once.unwrap(), at, second);
    assert(seq![first].push(second) =~= seq![first, second]);
    let thrice = after_setter(setters, twice.unwrap(), at, third);
    assert(seq![first, second].push(third) =~= seq![first, second, third]);
    lemma_missing_is_required(plan.builder.steps, thrice.unwrap(), 0);
}

/// Where no two setters carry the same name, a call by name reaches the
/// setter of that name.
pub proof fn law_call_by_name(
    setters: Seq<SetterView>,
    slots: Seq<Option<ValueView>>,
    at: int,
    value: ValueView,
)
    requires
        distinct_setters(setters),
        0 <= at < setters.len(),
    ensures
        find_setter(setters, setters[at].name, 0) == Some(at),
        after_call(setters, slots, setters[at].name, value) == after_setter(setters, slots, at, value),
{
    lemma_find_distinct(setters, 0, at);
}

/// The first setter from `from` on under the name of the setter at `at`
/// is that setter, where no setter before it carries its name.
proof fn lemma_find_distinct(setters: Seq<SetterView>, from: int, at: int)
    requires
        distinct_setters(setters),
        0 <= from <= at < setters.len(),
    ensures
        find_setter(setters, setters[at].name, from) == Some(at),
    decreases at - from,
{
    if from < at {
        lemma_find_distinct(setters, from + 1, at);
    }
}

/// The full-value setter of a field stores its argument as the field's
/// value and changes no other field.
pub proof fn law_full_setter_stores(
    schema: SchemaView,
    directives: Seq<BuilderDirectiveView>,
    slots: Seq<Option<ValueView>>,
    at: int,
    value: ValueView,
)
    requires
        slots.len() == schema.fields.len(),
        0 <= at < plan_from(schema, directives).builder.setters.len(),
        plan_from(schema, directives).builder.setters[at].kind == SetterKind::Full,
    ensures
        ({
            let setters = plan_from(schema, directives).builder.setters;
            &&& 0 <= setters[at].field < schema.fields.len()
            &&& setters[at] == full_setter(setters[at].field, schema.fields[setters[at].field])
            &&& after_setter(setters, slots, at, value) == Some(slots.update(setters[at].field, Some(value)))
        }),
{
    lemma_setter_origin(schema.fields, directives, schema.fields.len() as int, at);
}

/// Round trip: a build on a builder that holds a value for every required
/// field gives the record that holds, field by field and under the fields'
/// names, exactly the values that the builder holds: the record that one
/// would write down directly from the same values.
pub proof fn law_round_trip(
    schema: SchemaView,
    directives: Seq<BuilderDirectiveView>,
    values: Seq<Option<ValueView>>,
)
    requires
        values.len() == schema.fields.len(),
        forall|i: int|
            0 <= i < schema.fields.len() && !is_optional((#[trigger] schema.fields[i]).declared_type)
                ==> values[i] is Some,
    ensures
        built(plan_from(schema, directives), values) == Ok::<RecordView, ErrorView>(
            direct_record(schema, values),
        ),
{
    let plan = plan_from(schema, directives);
    lemma_nothing_missing(plan.builder.steps, values, 0);
    assert(record_of(plan, values).fields =~= direct_record(schema, values).fields);
}

/// What the builder holds after the setter called by the name of each of
/// the first `n` fields is called with the field's value, in declaration
/// order; a field without a value is passed over. Nothing, if one of the
/// calls is not accepted.
pub open spec fn set_in_order(
    setters: Seq<SetterView>,
    slots: Seq<Option<ValueView>>,
    fields: Seq<FieldView>,
    values: Seq<Option<ValueView>>,
    n: int,
) -> Option<Seq<Option<ValueView>>>
    decreases n,
{
    if n <= 0 {
        Some(slots)
    } else {
        match set_in_order(setters, slots, fields, values, n - 1) {
            Some(before) => match values[n - 1] {
                Some(value) => after_call(setters, before, fields[n - 1].name, value),
                None => Some(before),
            },
            None => None,
        }
    }
}

/// The setter called by a field's name is the field's full-value setter,
/// where the field has one and no two setters carry the same name.
proof fn lemma_full_setter_by_name(
    schema: SchemaView,
    directives: Seq<BuilderDirectiveView>,
    slots: Seq<Option<ValueView>>,
    i: int,
    value: ValueView,
)
    requires
        distinct_setters(plan_from(schema, directives).builder.setters),
        0 <= i < schema.fields.len(),
        slots.len() == schema.fields.len(),
        directives[i] != BuilderDirectiveView::AppendAlias(schema.fields[i].name),
    ensures
        after_call(plan_from(schema, directives).builder.setters, slots, schema.fields[i].name, value) == Some(
            slots.update(i, Some(value)),
        ),
{
    let n = schema.fields.len() as int;
    let setters = plan_from(schema, directives).builder.setters;
    let at = offset(schema.fields, directives, i);
    lemma_setters_of_field(schema.fields, directives, i, n, 0);
    match directives[i] {
        BuilderDirectiveView::NoDirective => {
            law_call_by_name(setters, slots, at, value);
        },
        BuilderDirectiveView::AppendAlias(_) => {
            lemma_setters_of_field(schema.fields, directives, i, n, 1);
            law_call_by_name(setters, slots, at + 1, value);
        },
    }
}

/// Round trip through the setters: on a fresh builder whose setters all
/// have names of their own, calling each field's full-value setter with the
/// field's value, and leaving out the optional fields that have none, gives
/// a builder that holds exactly those values, and its build gives the
/// record written down directly from them. Every field is taken to have a
/// full-value setter: none has its own name as append alias.
pub proof fn law_round_trip_by_setters(
    schema: SchemaView,
    directives: Seq<BuilderDirectiveView>,
    values: Seq<Option<ValueView>>,
)
    requires
        distinct_setters(plan_from(schema, directives).builder.setters),
        forall|i: int|
            0 <= i < schema.fields.len() ==> #[trigger] directives[i] != BuilderDirectiveView::AppendAlias(
                schema.fields[i].name,
            ),
        values.len() == schema.fields.len(),
        forall|i: int|
            0 <= i < schema.fields.len() && !is_optional((#[trigger] schema.fields[i]).declared_type)
                ==> values[i] is Some,
    ensures
        ({
            let plan = plan_from(schema, directives);
            let filled = set_in_order(
                plan.builder.setters,
                fresh_slots(plan.initial),
                schema.fields,
                values,
                schema.fields.len() as int,
            );
            &&& filled == Some(values)
            &&& built(plan, values) == Ok::<RecordView, ErrorView>(direct_record(schema, values))
        }),
{
    lemma_set_in_order(schema, directives, values, schema.fields.len() as int);
    law_round_trip(schema, directives, values);
}

/// After the first `n` fields are set in order, the builder holds their
/// values, and what a fresh builder holds for the others.
proof fn lemma_set_in_order(
    schema: SchemaView,
    directives: Seq<BuilderDirectiveView>,
    values: Seq<Option<ValueView>>,
    n: int,
)
    requires
        distinct_setters(plan_from(schema, directives).builder.setters),
        forall|i: int|
            0 <= i < schema.fields.len() ==> #[trigger] directives[i] != BuilderDirectiveView::AppendAlias(
                schema.fields[i].name,
            ),
        values.len() == schema.fields.len(),
        forall|i: int|
            0 <= i < schema.fields.len() && !is_optional((#[trigger] schema.fields[i]).declared_type)
                ==> values[i] is Some,
        0 <= n <= schema.fields.len(),
    ensures
        set_in_order(
            plan_from(schema, directives).builder.setters,
            fresh_slots(plan_from(schema, directives).initial),
            schema.fields,
            values,
            n,
        ) == Some(
            Seq::new(
                schema.fields.len(),
                |j: int|
                    if j < n {
                        values[j]
                    } else {
                        fresh_slots(plan_from(schema, directives).initial)[j]
                    },
            ),
        ),
    decreases n,
{
    let plan = plan_from(schema, directives);
    let fresh = fresh_slots(plan.initial);
    let upto = |m: int| Seq::new(schema.fields.len(), |j: int| if j < m { values[j] } else { fresh[j] });
    if n <= 0 {
    } else {
        lemma_set_in_order(schema, directives, values, n - 1);
        let before = upto(n - 1);
        match values[n - 1] {
            Some(value) => {
                lemma_full_setter_by_name(schema, directives, before, n - 1, value);
            },
            None => {
                lemma_wrappers_differ();
            },
        }
    }
}

/// The bound of the representation routine falls on exactly the generic
/// parameters that do not appear only inside phantom markers; the phantom
/// set holds exactly the others.
pub proof fn law_bound_excludes_phantoms(schema: SchemaView, param: Seq<char>)
    ensures
        bounded_params(schema.generics, schema.fields).contains(param) <==> schema.generics.contains(param)
            && !phantom_only(schema.fields, param),
        phantom_set(schema).contains(param) <==> schema.generics.contains(param) && phantom_only(
            schema.fields,
            param,
        ),
{
    lemma_filter_members(schema.generics, needs_bound(schema.fields), param);
    lemma_filter_members(schema.generics, is_phantom(schema.fields), param);
}

/// A filtered sequence holds exactly the items that pass the test.
proof fn lemma_filter_members(items: Seq<Seq<char>>, test: spec_fn(Seq<char>) -> bool, item: Seq<char>)
    ensures
        items.filter(test).contains(item) <==> items.contains(item) && test(item),
{
    let kept = items.filter(test);
    if kept.contains(item) {
        let j = choose|j: int| 0 <= j < kept.len() && kept[j] == item;
        items.lemma_filter_pred(test, j);
        items.lemma_filter_contains_rev(test, item);
    }
    if items.contains(item) && test(item) {
        let j = choose|j: int| 0 <= j < items.len() && items[j] == item;
        items.lemma_filter_contains(test, j);
    }
}

/// A generic parameter that one field marks as phantom and another field
/// uses directly needs the bound, and is not in the phantom set.
pub proof fn law_phantom_and_direct_use(schema: SchemaView, param: Seq<char>, marker: int, user: int)
    requires
        schema.generics.contains(param),
        0 <= marker < schema.fields.len(),
        marks(schema.fields[marker], param),
        0 <= user < schema.fields.len(),
        mentions(schema.fields[user], param),
        !marks(schema.fields[user], param),
    ensures
        bounded_params(schema.generics, schema.fields).contains(param),
        !phantom_set(schema).contains(param),
{
    law_bound_excludes_phantoms(schema, param);
}

/// A generic parameter that appears among the fields only inside phantom
/// markers needs no bound, and is in the phantom set.
pub proof fn law_phantom_only(schema: SchemaView, param: Seq<char>, marker: int)
    requires
        schema.generics.contains(param),
        0 <= marker < schema.fields.len(),
        marks(schema.fields[marker], param),
        forall|i: int|
            0 <= i < schema.fields.len() && mentions(#[trigger] schema.fields[i], param) ==> marks(
                schema.fields[i],
                param,
            ),
    ensures
        !bounded_params(schema.generics, schema.fields).contains(param),
        phantom_set(schema).contains(param),
{
    law_bound_excludes_phantoms(schema, param);
}

} // verus!
