//! A builder that follows a plan: it holds a value for each field, lets the
//! plan's setters write them, and builds the record.

use crate::plan::{BuildRule, Initializer, PlanModel, SetterAction, TransformationPlan};
use crate::scan::lemma_first_index_is;
use crate::error::{BuildError, BuildErrorModel, CallError};
use crate::semantics::{
    apply_setter, build_of, call_setter, field_value, fits, initial_slot, initial_state, missing,
    paired, ArgumentModel, FieldValueModel, SlotModel,
};
use vstd::pervasive::unreached;
use vstd::prelude::*;

verus! {

/// What the builder holds in one field.
#[derive(Debug, Clone, PartialEq, Eq)]
pub enum Slot<T> {
    Optional(Option<T>),
    Sequence(Vec<T>),
}

impl<T> View for Slot<T> {
    type V = SlotModel<T>;

    open spec fn view(&self) -> SlotModel<T> {
        match self {
            Slot::Optional(stored) => SlotModel::Optional(*stored),
            Slot::Sequence(values) => SlotModel::Sequence(values@),
        }
    }
}

/// What a setter is called with: one value, or a whole sequence.
#[derive(Debug, Clone, PartialEq, Eq)]
pub enum Argument<T> {
    One(T),
    Many(Vec<T>),
}

impl<T> View for Argument<T> {
    type V = ArgumentModel<T>;

    open spec fn view(&self) -> ArgumentModel<T> {
        match self {
            Argument::One(value) => ArgumentModel::One(*value),
            Argument::Many(values) => ArgumentModel::Many(values@),
        }
    }
}

/// One field of a built record.
#[derive(Debug, Clone, PartialEq, Eq)]
pub enum FieldValue<T> {
    /// The value of a required field.
    Required(T),
    /// The value of an optional field, if it was set.
    Optional(Option<T>),
    /// The elements of a collection.
    Sequence(Vec<T>),
}

impl<T> View for FieldValue<T> {
    type V = FieldValueModel<T>;

    open spec fn view(&self) -> FieldValueModel<T> {
        match self {
            FieldValue::Required(value) => FieldValueModel::Required(*value),
            FieldValue::Optional(stored) => FieldValueModel::Optional(*stored),
            FieldValue::Sequence(values) => FieldValueModel::Sequence(values@),
        }
    }
}

/// What a sequence of slots denotes.
pub open spec fn slots_view<T>(slots: Seq<Slot<T>>) -> Seq<SlotModel<T>> {
    slots.map_values(|s: Slot<T>| s@)
}

/// What a result of [`Builder::build`] denotes.
pub open spec fn record_view<T>(built: Result<Vec<FieldValue<T>>, BuildError>) -> Result<
    Seq<FieldValueModel<T>>,
    BuildErrorModel,
> {
    match built {
        Ok(record) => Ok(record@.map_values(|v: FieldValue<T>| v@)),
        Err(e) => Err(e@),
    }
}

/// A copy of a sequence of values.
fn copy_all<T: Copy>(values: &Vec<T>) -> (copy: Vec<T>)
    ensures
        copy@ == values@,
{
    let mut copy: Vec<T> = Vec::new();
    let mut i: usize = 0;
    while i < values.len()
        invariant
            i <= values.len(),
            copy@ == values@.subrange(0, i as int),
        decreases values.len() - i,
    {
        copy.push(values[i]);
        i += 1;
    }
    copy
}

/// The builder of one record, following a plan.
#[derive(Debug, Clone)]
pub struct Builder<'a, T> {
    plan: &'a TransformationPlan,
    slots: Vec<Slot<T>>,
}

impl<'a, T> View for Builder<'a, T> {
    type V = Seq<SlotModel<T>>;

    closed spec fn view(&self) -> Seq<SlotModel<T>> {
        slots_view(self.slots@)
    }
}

impl<'a, T> Builder<'a, T> {
    /// The builder has one slot for each field of its plan, of the field's
    /// kind. Every builder that [`Builder::new`] hands out is well formed, and
    /// the setters keep it so.
    pub closed spec fn well_formed(&self) -> bool {
        &&& self.plan@.well_formed()
        &&& self.slots@.len() == self.plan@.fields.len()
        &&& forall|i: int|
            0 <= i < self.slots@.len() ==> ((#[trigger] self.slots@[i]) is Optional
                <==> self.plan@.fields[i].storage is Optional)
    }

    /// The plan that the builder follows.
    pub closed spec fn plan(&self) -> PlanModel {
        self.plan@
    }

    /// The state of a well-formed builder fits its plan, which is well formed.
    pub proof fn lemma_well_formed(&self)
        requires
            self.well_formed(),
        ensures
            self.plan().well_formed(),
            fits(self.plan(), self@),
    {
    }
}

impl<'a, T: Copy> Builder<'a, T> {
    /// A fresh builder: every field at its empty value.
    pub fn new(plan: &'a TransformationPlan) -> (builder: Self)
        ensures
            builder.well_formed(),
            builder.plan() == plan@,
            builder@ == initial_state::<T>(plan@),
    {
        let fields = plan.fields();
        let mut slots: Vec<Slot<T>> = Vec::new();
        let mut i: usize = 0;
        while i < fields.len()
            invariant
                i <= fields.len(),
                slots.len() == i,
                crate::plan::fields_view(fields@) == plan@.fields,
                forall|j: int| 0 <= j < i ==> (#[trigger] slots[j])@ == initial_slot::<T>(plan@.fields[j]),
            decreases fields.len() - i,
        {
            match fields[i].initializer {
                Initializer::Absent => slots.push(Slot::Optional(None)),
                Initializer::Empty => slots.push(Slot::Sequence(Vec::new())),
            }
            i += 1;
        }
        Builder { plan, slots }
    }

    /// Calls the setter at position `setter` of the plan's list.
    ///
    /// A refused call leaves the builder as it was.
    pub fn apply(&mut self, setter: usize, argument: Argument<T>) -> (outcome: Result<
        (),
        CallError,
    >)
        requires
            old(self).well_formed(),
        ensures
            final(self).well_formed(),
            final(self).plan() == old(self).plan(),
            match apply_setter(old(self).plan(), old(self)@, setter as int, argument@) {
                Ok(state) => outcome is Ok && final(self)@ == state,
                Err(e) => outcome == Err::<(), CallError>(e) && final(self)@ == old(self)@,
            },
    {
        let setters = self.plan.setters();
        if setter >= setters.len() {
            return Err(CallError::UnknownSetter);
        }
        let field = setters[setter].field;
        match (setters[setter].action, argument) {
            (SetterAction::Store, Argument::One(value)) => {
                self.slots[field] = Slot::Optional(Some(value));
                Ok(())
            },
            (SetterAction::Append, Argument::One(value)) => {
                let mut taken: Slot<T> = Slot::Sequence(Vec::new());
                std::mem::swap(&mut self.slots[field], &mut taken);
                let mut values = match taken {
                    Slot::Sequence(values) => values,
                    Slot::Optional(_) => unreached(),
                };
                values.push(value);
                self.slots[field] = Slot::Sequence(values);
                Ok(())
            },
            (SetterAction::Replace, Argument::Many(values)) => {
                self.slots[field] = Slot::Sequence(values);
                Ok(())
            },
            _ => Err(CallError::ArgumentMismatch),
        }
    }

    /// Calls the setter that goes by `name`.
    ///
    /// A refused call leaves the builder as it was.
    pub fn call(&mut self, name: &str, argument: Argument<T>) -> (outcome: Result<(), CallError>)
        requires
            old(self).well_formed(),
        ensures
            final(self).well_formed(),
            final(self).plan() == old(self).plan(),
            match call_setter(old(self).plan(), old(self)@, name@, argument@) {
                Ok(state) => outcome is Ok && final(self)@ == state,
                Err(e) => outcome == Err::<(), CallError>(e) && final(self)@ == old(self)@,
            },
    {
        match self.plan.setter_named(name) {
            Some(setter) => self.apply(setter, argument),
            None => Err(CallError::UnknownSetter),
        }
    }

    /// Builds the record from what has been set.
    ///
    /// The builder is left as it is: after a failure the missing field can be
    /// set and the record built again.
    pub fn build(&self) -> (built: Result<Vec<FieldValue<T>>, BuildError>)
        requires
            self.well_formed(),
        ensures
            record_view(built) == build_of(self.plan(), self@),
    {
        let fields = self.plan.fields();
        let ghost pairs = paired(self.plan@, slots_view(self.slots@));
        let mut record: Vec<FieldValue<T>> = Vec::new();
        let mut i: usize = 0;
        while i < fields.len()
            invariant
                i <= fields.len(),
                record.len() == i,
                fields.len() == self.slots.len(),
                crate::plan::fields_view(fields@) == self.plan@.fields,
                self.plan@.well_formed(),
                fits(self.plan@, slots_view(self.slots@)),
                pairs == paired(self.plan@, slots_view(self.slots@)),
                forall|j: int| 0 <= j < i ==> !missing::<T>()(#[trigger] pairs[j]),
                forall|j: int|
                    0 <= j < i ==> (#[trigger] record[j])@ == field_value(
                        self.plan@.fields[j],
                        slots_view(self.slots@)[j],
                    ),
            decreases fields.len() - i,
        {
            match &self.slots[i] {
                Slot::Optional(stored) => match fields[i].build {
                    BuildRule::Require => match stored {
                        Some(value) => record.push(FieldValue::Required(*value)),
                        None => {
                            proof {
                                lemma_first_index_is(pairs, missing::<T>(), i as int);
                            }
                            return Err(
                                BuildError::MissingRequiredField { field: fields[i].name.clone() },
                            );
                        },
                    },
                    BuildRule::PassThrough => record.push(FieldValue::Optional(*stored)),
                },
                Slot::Sequence(values) => record.push(FieldValue::Sequence(copy_all(values))),
            }
            i += 1;
        }
        assert(record@.map_values(|v: FieldValue<T>| v@) =~= build_of(self.plan(), self@)->Ok_0);
        Ok(record)
    }
}

} // verus!
