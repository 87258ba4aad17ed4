//! The construction protocol of a generated builder, carried out in
//! memory: values, records, and a builder that follows a plan.
use vstd::prelude::*;
use vstd::string::*;
use crate::builder::{BuildStepView, BuilderPlan, Initial, PlanView, SetterKind, SetterView};
use crate::error::{Error, ErrorView};
use crate::text::{result_view, same_text, views};

verus! {

/// A value that a field can hold.
#[derive(Debug, PartialEq, Eq)]
pub enum Value {
    Int(i64),
    Text(String),
    List(Vec<Value>),
}

/// The mathematical model of a [`Value`].
pub enum ValueView {
    Int(i64),
    Text(Seq<char>),
    List(Seq<ValueView>),
}

/// The model of a value, by recursion over its structure.
pub open spec fn value_view(value: Value) -> ValueView
    decreases value,
{
    match value {
        Value::Int(number) => ValueView::Int(number),
        Value::Text(text) => ValueView::Text(text@),
        Value::List(items) => ValueView::List(
            Seq::new(
                items@.len(),
                |i: int|
                    if 0 <= i < items@.len() {
                        value_view(items@[i])
                    } else {
                        ValueView::Int(0)
                    },
            ),
        ),
    }
}

impl View for Value {
    type V = ValueView;

    open spec fn view(&self) -> ValueView {
        value_view(*self)
    }
}

/// The model of a list is the list of its items' models.
pub proof fn lemma_list_view(items: Seq<Value>)
    ensures
        forall|v: Vec<Value>| v@ == items ==> #[trigger] Value::List(v)@ == ValueView::List(views(items)),
{
    assert forall|v: Vec<Value>| v@ == items implies #[trigger] Value::List(v)@ == ValueView::List(
        views(items),
    ) by {
        assert(Value::List(v)@->List_0 =~= views(items));
    }
}

/// An item of a list is smaller than the list.
proof fn lemma_item_decreases(value: Value, i: int)
    requires
        value is List,
        0 <= i < value->List_0.len(),
    ensures
        decreases_to!(value => value->List_0[i]),
{
}

impl Clone for Value {
    fn clone(&self) -> (r: Self)
        ensures
            r@ == self@,
        decreases self,
    {
        match self {
            Value::Int(number) => Value::Int(*number),
            Value::Text(text) => Value::Text(text.clone()),
            Value::List(items) => {
                let mut out: Vec<Value> = Vec::new();
                let mut i: usize = 0;
                while i < items.len()
                    invariant
                        i <= items.len(),
                        out.len() == i,
                        *self == Value::List(*items),
                        forall|k: int| 0 <= k < i ==> (#[trigger] out[k])@ == items[k]@,
                    decreases items.len() - i,
                {
                    proof {
                        lemma_item_decreases(*self, i as int);
                    }
                    out.push(items[i].clone());
                    i += 1;
                }
                proof {
                    lemma_list_view(items@);
                    lemma_list_view(out@);
                    assert(views(out@) =~= views(items@));
                }
                Value::List(out)
            },
        }
    }
}

/// The value of one field of a record: absent only where the field is
/// optional-shaped.
#[derive(Debug, PartialEq, Eq)]
pub struct FieldValue {
    pub name: String,
    pub value: Option<Value>,
}

pub struct FieldValueView {
    pub name: Seq<char>,
    pub value: Option<ValueView>,
}

impl View for FieldValue {
    type V = FieldValueView;

    open spec fn view(&self) -> FieldValueView {
        FieldValueView { name: self.name@, value: slot_view(self.value) }
    }
}

/// An instance of a record: its name and the values of its fields, in
/// declaration order.
#[derive(Debug, PartialEq, Eq)]
pub struct Record {
    pub name: String,
    pub fields: Vec<FieldValue>,
}

pub struct RecordView {
    pub name: Seq<char>,
    pub fields: Seq<FieldValueView>,
}

impl View for Record {
    type V = RecordView;

    open spec fn view(&self) -> RecordView {
        RecordView { name: self.name@, fields: views(self.fields@) }
    }
}

/// The model of what a builder holds for one field.
pub open spec fn slot_view(slot: Option<Value>) -> Option<ValueView> {
    match slot {
        Some(value) => Some(value@),
        None => None,
    }
}

/// The models of what a builder holds, field by field.
pub open spec fn slot_views(slots: Seq<Option<Value>>) -> Seq<Option<ValueView>> {
    Seq::new(slots.len(), |i: int| slot_view(slots[i]))
}

/// What a fresh builder holds for a field.
pub open spec fn fresh_slot(initial: Initial) -> Option<ValueView> {
    match initial {
        Initial::Absent => None,
        Initial::EmptySequence => Some(ValueView::List(Seq::empty())),
    }
}

/// What a fresh builder holds, field by field.
pub open spec fn fresh_slots(initial: Seq<Initial>) -> Seq<Option<ValueView>> {
    Seq::new(initial.len(), |i: int| fresh_slot(initial[i]))
}

/// The position of the first setter at or after `from` that is called
/// `name`.
pub open spec fn find_setter(setters: Seq<SetterView>, name: Seq<char>, from: int) -> Option<int>
    decreases setters.len() - from,
{
    if from < 0 || from >= setters.len() {
        None
    } else if setters[from].name == name {
        Some(from)
    } else {
        find_setter(setters, name, from + 1)
    }
}

/// What a field holds after one element is appended to it: a sequence one
/// longer, starting from the empty sequence where the field was absent.
/// Nothing can be appended to a value that is no sequence.
pub open spec fn appended(slot: Option<ValueView>, element: ValueView) -> Option<ValueView> {
    match slot {
        None => Some(ValueView::List(seq![element])),
        Some(ValueView::List(items)) => Some(ValueView::List(items.push(element))),
        Some(_) => None,
    }
}

/// What the builder holds after the setter at position `at` is called with
/// `value`, or nothing where the call is not accepted: the setter does not
/// exist, fills no field of the builder, or appends to what is no sequence.
pub open spec fn after_setter(
    setters: Seq<SetterView>,
    slots: Seq<Option<ValueView>>,
    at: int,
    value: ValueView,
) -> Option<Seq<Option<ValueView>>> {
    if 0 <= at < setters.len() && 0 <= setters[at].field < slots.len() {
        let field = setters[at].field;
        match setters[at].kind {
            SetterKind::Full => Some(slots.update(field, Some(value))),
            SetterKind::Append => match appended(slots[field], value) {
                Some(longer) => Some(slots.update(field, Some(longer))),
                None => None,
            },
        }
    } else {
        None
    }
}

/// What the builder holds after the setter called `name` is called with
/// `value`, or nothing where the call is not accepted.
pub open spec fn after_call(
    setters: Seq<SetterView>,
    slots: Seq<Option<ValueView>>,
    name: Seq<char>,
    value: ValueView,
) -> Option<Seq<Option<ValueView>>> {
    match find_setter(setters, name, 0) {
        Some(at) => after_setter(setters, slots, at, value),
        None => None,
    }
}

/// What the builder holds for the field at `position`; nothing beyond its
/// last field.
pub open spec fn slot_at(slots: Seq<Option<ValueView>>, position: int) -> Option<ValueView> {
    if 0 <= position < slots.len() {
        slots[position]
    } else {
        None
    }
}

/// The position of the first step at or after `from` whose field is
/// required and has no value.
pub open spec fn first_missing(
    steps: Seq<BuildStepView>,
    slots: Seq<Option<ValueView>>,
    from: int,
) -> Option<int>
    decreases steps.len() - from,
{
    if from < 0 || from >= steps.len() {
        None
    } else if steps[from].required && slot_at(slots, from) is None {
        Some(from)
    } else {
        first_missing(steps, slots, from + 1)
    }
}

/// The record that a build hands over: each field under its name with what
/// the builder holds for it.
pub open spec fn record_of(plan: PlanView, slots: Seq<Option<ValueView>>) -> RecordView {
    RecordView {
        name: plan.record,
        fields: Seq::new(
            plan.builder.steps.len(),
            |i: int| FieldValueView { name: plan.builder.steps[i].name, value: slot_at(slots, i) },
        ),
    }
}

/// What a build gives: `MissingField` with the name of the first required
/// field, in declaration order, that has no value; the record if there is
/// none.
pub open spec fn built(plan: PlanView, slots: Seq<Option<ValueView>>) -> Result<RecordView, ErrorView> {
    match first_missing(plan.builder.steps, slots, 0) {
        Some(at) => Err(ErrorView::MissingField(plan.builder.steps[at].name)),
        None => Ok(record_of(plan, slots)),
    }
}

/// The mathematical model of a [`Builder`]: the plan it follows and what it
/// holds for each field.
pub struct BuilderView {
    pub plan: PlanView,
    pub slots: Seq<Option<ValueView>>,
}

/// A builder in use: it follows a plan and holds, for each field, the value
/// given so far.
#[derive(Debug, PartialEq, Eq)]
pub struct Builder {
    plan: BuilderPlan,
    slots: Vec<Option<Value>>,
}

impl View for Builder {
    type V = BuilderView;

    closed spec fn view(&self) -> BuilderView {
        BuilderView { plan: self.plan@, slots: slot_views(self.slots@) }
    }
}

/// A copy of what a builder holds for one field.
fn clone_slot(slot: &Option<Value>) -> (r: Option<Value>)
    ensures
        slot_view(r) == slot_view(*slot),
{
    match slot {
        Some(value) => Some(value.clone()),
        None => None,
    }
}

impl Builder {
    /// A fresh builder for a plan: every field absent, but for those that
    /// the plan starts as an empty sequence.
    pub fn new(plan: BuilderPlan) -> (r: Builder)
        ensures
            r@ == (BuilderView { plan: plan@, slots: fresh_slots(plan@.initial) }),
    {
        let mut slots: Vec<Option<Value>> = Vec::new();
        let mut i: usize = 0;
        while i < plan.initial.len()
            invariant
                i <= plan.initial.len(),
                slots.len() == i,
                forall|k: int| 0 <= k < i ==> slot_view(#[trigger] slots[k]) == fresh_slot(plan.initial[k]),
            decreases plan.initial.len() - i,
        {
            let slot = match plan.initial[i] {
                Initial::Absent => None,
                Initial::EmptySequence => {
                    let empty: Vec<Value> = Vec::new();
                    proof {
                        lemma_list_view(empty@);
                        assert(views(empty@) =~= Seq::<ValueView>::empty());
                    }
                    Some(Value::List(empty))
                },
            };
            slots.push(slot);
            i += 1;
        }
        assert(slot_views(slots@) =~= fresh_slots(plan@.initial));
        Builder { plan, slots }
    }

    /// The plan that this builder follows.
    pub fn plan(&self) -> (r: &BuilderPlan)
        ensures
            r@ == self@.plan,
    {
        &self.plan
    }

    /// The position of the first setter called `name`.
    fn setter_named(&self, name: &str) -> (r: Option<usize>)
        ensures
            match r {
                Some(at) => find_setter(self@.plan.builder.setters, name@, 0) == Some(at as int) && at
                    < self.plan.builder.setters.len(),
                None => find_setter(self@.plan.builder.setters, name@, 0).is_none(),
            },
    {
        let setters = &self.plan.builder.setters;
        let mut i: usize = 0;
        while i < setters.len()
            invariant
                i <= setters.len(),
                setters == &self.plan.builder.setters,
                find_setter(views(setters@), name@, 0) == find_setter(views(setters@), name@, i as int),
            decreases setters.len() - i,
        {
            if same_text(setters[i].name.as_str(), name) {
                return Some(i);
            }
            i += 1;
        }
        None
    }

    /// Calls the setter called `setter` with `value`. An accepted call gives
    /// the builder back, so that calls can be chained: a full-value setter
    /// has stored the value as the field's; an append-one setter has added
    /// it to the field's sequence, which starts empty where the field was
    /// absent. A call that is not accepted gives nothing and leaves the
    /// builder as it was: no setter has that name, or the append-one setter
    /// found a value that is no sequence.
    pub fn call(&mut self, setter: &str, value: Value) -> (r: Option<&mut Builder>)
        ensures
            match after_call(old(self)@.plan.builder.setters, old(self)@.slots, setter@, value@) {
                Some(slots) => {
                    &&& r matches Some(next)
                    &&& next@ == (BuilderView { plan: old(self)@.plan, slots })
                    &&& *final(self) == *final(next)
                },
                None => r is None && final(self)@ == old(self)@,
            },
    {
        let at = match self.setter_named(setter) {
            Some(at) => at,
            None => {
                return None;
            },
        };
        let field = self.plan.builder.setters[at].field;
        if field >= self.slots.len() {
            return None;
        }
        let ghost before = self.slots@;
        match self.plan.builder.setters[at].kind {
            SetterKind::Full => {
                self.slots[field] = Some(value);
                assert(slot_views(self.slots@) =~= slot_views(before).update(field as int, Some(value@)));
                Some(self)
            },
            SetterKind::Append => {
                let mut taken: Option<Value> = None;
                core::mem::swap(&mut taken, &mut self.slots[field]);
                match taken {
                    None => {
                        let mut items: Vec<Value> = Vec::new();
                        items.push(value);
                        proof {
                            lemma_list_view(items@);
                            assert(views(items@) =~= seq![value@]);
                        }
                        self.slots[field] = Some(Value::List(items));
                        assert(slot_views(self.slots@) =~= slot_views(before).update(
                            field as int,
                            appended(slot_views(before)[field as int], value@),
                        ));
                        Some(self)
                    },
                    Some(Value::List(mut items)) => {
                        let ghost shorter = items@;
                        items.push(value);
                        proof {
                            lemma_list_view(shorter);
                            lemma_list_view(items@);
                            assert(views(items@) =~= views(shorter).push(value@));
                        }
                        self.slots[field] = Some(Value::List(items));
                        assert(slot_views(self.slots@) =~= slot_views(before).update(
                            field as int,
                            appended(slot_views(before)[field as int], value@),
                        ));
                        Some(self)
                    },
                    Some(other) => {
                        self.slots[field] = Some(other);
                        assert(slot_views(self.slots@) =~= slot_views(before));
                        None
                    },
                }
            },
        }
    }

    /// Builds the record. Fails with `MissingField`, naming the first
    /// required field in declaration order that has no value; otherwise the
    /// record holds, for each field, what the builder holds. The builder
    /// keeps what it holds.
    pub fn build(&self) -> (r: Result<Record, Error>)
        ensures
            result_view(r) == built(self@.plan, self@.slots),
    {
        let steps = &self.plan.builder.steps;
        let mut fields: Vec<FieldValue> = Vec::new();
        let mut i: usize = 0;
        while i < steps.len()
            invariant
                i <= steps.len(),
                steps == &self.plan.builder.steps,
                fields.len() == i,
                first_missing(views(steps@), slot_views(self.slots@), 0) == first_missing(
                    views(steps@),
                    slot_views(self.slots@),
                    i as int,
                ),
                forall|k: int|
                    0 <= k < i ==> (#[trigger] fields[k])@ == (FieldValueView {
                        name: steps[k].name@,
                        value: slot_at(slot_views(self.slots@), k),
                    }),
            decreases steps.len() - i,
        {
            let value = if i < self.slots.len() {
                clone_slot(&self.slots[i])
            } else {
                None
            };
            if steps[i].required && value.is_none() {
                return Err(Error::MissingField(steps[i].name.clone()));
            }
            fields.push(FieldValue { name: steps[i].name.clone(), value });
            i += 1;
        }
        let record = Record { name: self.plan.record.clone(), fields };
        assert(record@.fields =~= record_of(self@.plan, self@.slots).fields);
        Ok(record)
    }
}

} // verus!
