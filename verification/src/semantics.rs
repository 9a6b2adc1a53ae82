//! What a plan means: the states of the builder that it describes, what each
//! setter does to them, and what the build step makes of them.

use crate::error::{BuildErrorModel, CallError};
use crate::plan::{
    setter_named, BuildRule, Initializer, PlanFieldModel, PlanModel, SetterAction,
};
use crate::scan::first_index;
use vstd::prelude::*;

verus! {

/// What the builder holds in one field.
pub enum SlotModel<T> {
    Optional(Option<T>),
    Sequence(Seq<T>),
}

/// What a setter is called with.
pub enum ArgumentModel<T> {
    One(T),
    Many(Seq<T>),
}

/// One field of the record that the build step hands out.
pub enum FieldValueModel<T> {
    Required(T),
    Optional(Option<T>),
    Sequence(Seq<T>),
}

/// A call of the setter at a position of the plan's list.
pub struct CallModel<T> {
    pub setter: int,
    pub argument: ArgumentModel<T>,
}

/// What a fresh builder holds in a field.
pub open spec fn initial_slot<T>(field: PlanFieldModel) -> SlotModel<T> {
    match field.initializer {
        Initializer::Absent => SlotModel::Optional(None),
        Initializer::Empty => SlotModel::Sequence(Seq::empty()),
    }
}

/// The state of a fresh builder: every field at its empty value.
pub open spec fn initial_state<T>(plan: PlanModel) -> Seq<SlotModel<T>> {
    Seq::new(plan.fields.len(), |i: int| initial_slot(plan.fields[i]))
}

/// The state has one slot for each field of the plan, of the field's kind.
pub open spec fn fits<T>(plan: PlanModel, state: Seq<SlotModel<T>>) -> bool {
    &&& state.len() == plan.fields.len()
    &&& forall|i: int|
        0 <= i < state.len() ==> ((#[trigger] state[i]) is Optional
            <==> plan.fields[i].storage is Optional)
}

/// Whether an argument is of the form that a setter takes: one value to
/// store or to append, a sequence to put in place of another.
pub open spec fn accepted<T>(action: SetterAction, argument: ArgumentModel<T>) -> bool {
    match (action, argument) {
        (SetterAction::Store, ArgumentModel::One(_)) => true,
        (SetterAction::Append, ArgumentModel::One(_)) => true,
        (SetterAction::Replace, ArgumentModel::Many(_)) => true,
        _ => false,
    }
}

/// Whether a call is one that writes the field at position `field`: it names
/// a setter of that field and hands it an argument that the setter takes.
pub open spec fn writes<T>(plan: PlanModel, call: CallModel<T>, field: int) -> bool {
    &&& 0 <= call.setter < plan.setters.len()
    &&& plan.setters[call.setter].field == field
    &&& accepted(plan.setters[call.setter].action, call.argument)
}

/// What a slot holds after a setter has acted on it, where the argument is
/// of the form that the setter takes.
pub open spec fn written<T>(
    action: SetterAction,
    slot: SlotModel<T>,
    argument: ArgumentModel<T>,
) -> Option<SlotModel<T>> {
    match (action, argument) {
        (SetterAction::Store, ArgumentModel::One(value)) => Some(SlotModel::Optional(Some(value))),
        (SetterAction::Append, ArgumentModel::One(value)) => Some(
            SlotModel::Sequence(slot->Sequence_0.push(value)),
        ),
        (SetterAction::Replace, ArgumentModel::Many(values)) => Some(SlotModel::Sequence(values)),
        _ => None,
    }
}

/// The state after a call of the setter at position `setter`.
pub open spec fn apply_setter<T>(
    plan: PlanModel,
    state: Seq<SlotModel<T>>,
    setter: int,
    argument: ArgumentModel<T>,
) -> Result<Seq<SlotModel<T>>, CallError> {
    if 0 <= setter < plan.setters.len() {
        let field = plan.setters[setter].field;
        match written(plan.setters[setter].action, state[field], argument) {
            Some(slot) => Ok(state.update(field, slot)),
            None => Err(CallError::ArgumentMismatch),
        }
    } else {
        Err(CallError::UnknownSetter)
    }
}

/// The state after a call of the setter that goes by `name`.
pub open spec fn call_setter<T>(
    plan: PlanModel,
    state: Seq<SlotModel<T>>,
    name: Seq<char>,
    argument: ArgumentModel<T>,
) -> Result<Seq<SlotModel<T>>, CallError> {
    match setter_named(plan, name) {
        Some(setter) => apply_setter(plan, state, setter, argument),
        None => Err(CallError::UnknownSetter),
    }
}

/// The state after a series of calls, a refused call leaving it as it was.
pub open spec fn run<T>(plan: PlanModel, state: Seq<SlotModel<T>>, calls: Seq<CallModel<T>>) -> Seq<
    SlotModel<T>,
>
    decreases calls.len(),
{
    if calls.len() == 0 {
        state
    } else {
        let before = run(plan, state, calls.drop_last());
        match apply_setter(plan, before, calls.last().setter, calls.last().argument) {
            Ok(after) => after,
            Err(_) => before,
        }
    }
}

/// Each field of the plan beside the slot that holds its value.
pub open spec fn paired<T>(plan: PlanModel, state: Seq<SlotModel<T>>) -> Seq<
    (PlanFieldModel, SlotModel<T>),
> {
    Seq::new(plan.fields.len(), |i: int| (plan.fields[i], state[i]))
}

/// Whether a field's value is required and has not been set.
pub open spec fn missing<T>() -> spec_fn((PlanFieldModel, SlotModel<T>)) -> bool {
    |p: (PlanFieldModel, SlotModel<T>)| p.0.build is Require && p.1 == SlotModel::<T>::Optional(None)
}

/// What the build step makes of one slot.
pub open spec fn field_value<T>(field: PlanFieldModel, slot: SlotModel<T>) -> FieldValueModel<T> {
    match slot {
        SlotModel::Optional(stored) => match field.build {
            BuildRule::Require => FieldValueModel::Required(stored->Some_0),
            BuildRule::PassThrough => FieldValueModel::Optional(stored),
        },
        SlotModel::Sequence(values) => FieldValueModel::Sequence(values),
    }
}

/// What the build step hands out: the record, field by field in the plan's
/// order, or the name of the first required field that has not been set.
pub open spec fn build_of<T>(plan: PlanModel, state: Seq<SlotModel<T>>) -> Result<
    Seq<FieldValueModel<T>>,
    BuildErrorModel,
> {
    match first_index(paired(plan, state), missing()) {
        Some(i) => Err(BuildErrorModel::MissingRequiredField { field: plan.fields[i].name }),
        None => Ok(Seq::new(plan.fields.len(), |i: int| field_value(plan.fields[i], state[i]))),
    }
}

/// A fresh builder fits its plan.
pub proof fn lemma_initial_fits<T>(plan: PlanModel)
    requires
        plan.well_formed(),
    ensures
        fits(plan, initial_state::<T>(plan)),
{
}

/// After any series of calls the state still fits the plan.
pub proof fn lemma_run_fits<T>(plan: PlanModel, state: Seq<SlotModel<T>>, calls: Seq<CallModel<T>>)
    requires
        plan.well_formed(),
        fits(plan, state),
    ensures
        fits(plan, run(plan, state, calls)),
    decreases calls.len(),
{
    if calls.len() > 0 {
        lemma_run_fits(plan, state, calls.drop_last());
    }
}

/// Two series of calls, one after the other, do what their concatenation does.
pub proof fn lemma_run_in_two<T>(
    plan: PlanModel,
    state: Seq<SlotModel<T>>,
    first: Seq<CallModel<T>>,
    second: Seq<CallModel<T>>,
)
    ensures
        run(plan, state, first + second) == run(plan, run(plan, state, first), second),
    decreases second.len(),
{
    if second.len() > 0 {
        lemma_run_in_two(plan, state, first, second.drop_last());
        assert((first + second).drop_last() =~= first + second.drop_last());
    }
}

/// A field that no call of a series writes is left as it was.
pub proof fn lemma_untouched<T>(
    plan: PlanModel,
    state: Seq<SlotModel<T>>,
    calls: Seq<CallModel<T>>,
    field: int,
)
    requires
        plan.well_formed(),
        fits(plan, state),
        0 <= field < plan.fields.len(),
        forall|k: int| 0 <= k < calls.len() ==> !writes(plan, #[trigger] calls[k], field),
    ensures
        run(plan, state, calls)[field] == state[field],
    decreases calls.len(),
{
    if calls.len() > 0 {
        let earlier = calls.drop_last();
        lemma_untouched(plan, state, earlier, field);
        lemma_run_fits(plan, state, earlier);
    }
}

/// A field that holds one value holds none after a series of calls exactly
/// where it held none before and no call of the series has written it.
pub proof fn lemma_still_absent<T>(
    plan: PlanModel,
    state: Seq<SlotModel<T>>,
    calls: Seq<CallModel<T>>,
    field: int,
)
    requires
        plan.well_formed(),
        fits(plan, state),
        0 <= field < plan.fields.len(),
        plan.fields[field].storage is Optional,
    ensures
        run(plan, state, calls)[field] == SlotModel::<T>::Optional(None) <==> (state[field]
            == SlotModel::<T>::Optional(None) && forall|k: int|
            0 <= k < calls.len() ==> !writes(plan, #[trigger] calls[k], field)),
    decreases calls.len(),
{
    if calls.len() > 0 {
        let earlier = calls.drop_last();
        lemma_still_absent(plan, state, earlier, field);
        lemma_run_fits(plan, state, earlier);
        if exists|k: int| 0 <= k < calls.len() && writes(plan, #[trigger] calls[k], field) {
            let k = choose|k: int| 0 <= k < calls.len() && writes(plan, #[trigger] calls[k], field);
            if k < earlier.len() {
                assert(earlier[k] == calls[k]);
            }
        }
    }
}

} // verus!
