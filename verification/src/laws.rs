//! What holds of every plan, and of every builder that follows one.

use crate::combinations::{combinations, lemma_combinations_count, positions};
use crate::classify::{recognized_key, shape_of, unsupported_key, ShapeModel};
use crate::error::{BuildErrorModel, CallError, GenerationErrorModel};
use crate::plan::{
    lemma_plan_well_formed, lemma_setter_origin, lemma_setters_placed, named, plan_of, refused,
    setter_named, setter_offset, BuildRule, PlanModel, SetterAction, SetterModel,
};
use crate::record::{RecordKind, RecordModel};
use crate::scan::{first_index, is_first_index, lemma_first_index, lemma_first_index_is};
use crate::semantics::{
    apply_setter, build_of, call_setter, fits, initial_state, lemma_initial_fits, lemma_run_fits,
    lemma_run_in_two, lemma_still_absent, lemma_untouched, missing, paired, run, writes,
    ArgumentModel,
    CallModel, FieldValueModel, SlotModel,
};
use vstd::arithmetic::power2::pow2;
use vstd::prelude::*;

verus! {

/// The state that a fresh builder is in after a series of calls.
pub open spec fn reached<T>(plan: PlanModel, calls: Seq<CallModel<T>>) -> Seq<SlotModel<T>> {
    run(plan, initial_state(plan), calls)
}

/// Whether some call of a series has written the field at position `field`.
pub open spec fn was_set<T>(plan: PlanModel, calls: Seq<CallModel<T>>, field: int) -> bool {
    exists|k: int| 0 <= k < calls.len() && writes(plan, #[trigger] calls[k], field)
}

/// Every field of a record that is accepted is classified.
pub proof fn lemma_all_classified(record: RecordModel)
    requires
        plan_of(record) is Ok,
    ensures
        record.kind == RecordKind::NamedFields,
        forall|i: int| 0 <= i < record.fields.len() ==> shape_of(#[trigger] record.fields[i]) is Ok,
{
    lemma_first_index(record.fields, refused());
}

/// The plan keeps the fields of the record, in the record's order, and is
/// well formed: each field has an empty value to start from, and each setter
/// writes one of the fields.
pub proof fn law_plan_follows_record(record: RecordModel)
    requires
        plan_of(record) is Ok,
    ensures
        plan_of(record)->Ok_0.well_formed(),
        plan_of(record)->Ok_0.fields.len() == record.fields.len(),
        forall|i: int|
            0 <= i < record.fields.len() ==> (#[trigger] plan_of(record)->Ok_0.fields[i]).name
                == record.fields[i].name,
{
    lemma_plan_well_formed(record);
}

/// A fresh builder holds the empty value in every field: no value where the
/// field holds one, the empty sequence where it collects.
pub proof fn law_fresh_builder_is_empty<T>(plan: PlanModel, field: int)
    requires
        plan.well_formed(),
        0 <= field < plan.fields.len(),
    ensures
        fits(plan, initial_state::<T>(plan)),
        plan.fields[field].storage is Optional ==> initial_state::<T>(plan)[field]
            == SlotModel::<T>::Optional(None),
        plan.fields[field].storage is Sequence ==> initial_state::<T>(plan)[field]
            == SlotModel::<T>::Sequence(Seq::empty()),
{
}

/// The record can be built exactly when every required field has been set.
/// Otherwise the build names the first required field, in the plan's order,
/// that has not been set.
pub proof fn law_build_needs_required_fields<T>(plan: PlanModel, calls: Seq<CallModel<T>>)
    requires
        plan.well_formed(),
    ensures
        match build_of(plan, reached(plan, calls)) {
            Ok(record) => forall|i: int|
                0 <= i < plan.fields.len() && plan.fields[i].build is Require ==> was_set(
                    plan,
                    calls,
                    i,
                ),
            Err(e) => exists|i: int|
                {
                    &&& 0 <= i < plan.fields.len()
                    &&& e == BuildErrorModel::MissingRequiredField { field: plan.fields[i].name }
                    &&& plan.fields[i].build is Require
                    &&& !was_set(plan, calls, i)
                    &&& forall|j: int|
                        0 <= j < i && plan.fields[j].build is Require ==> was_set(plan, calls, j)
                },
        },
{
    let state = reached(plan, calls);
    let pairs = paired(plan, state);
    lemma_initial_fits::<T>(plan);
    lemma_run_fits(plan, initial_state(plan), calls);
    assert forall|i: int| 0 <= i < plan.fields.len() && plan.fields[i].build is Require implies (
    missing::<T>()(#[trigger] pairs[i]) <==> !was_set(plan, calls, i)) by {
        lemma_still_absent(plan, initial_state(plan), calls, i);
    }
    lemma_first_index(pairs, missing::<T>());
    match build_of(plan, state) {
        Ok(record) => {
            assert forall|i: int|
                0 <= i < plan.fields.len() && plan.fields[i].build is Require implies was_set(
                plan,
                calls,
                i,
            ) by {
                assert(!missing::<T>()(pairs[i]));
            }
        },
        Err(e) => {
            let i = first_index(pairs, missing::<T>())->Some_0;
            assert forall|j: int| 0 <= j < i && plan.fields[j].build is Require implies was_set(
                plan,
                calls,
                j,
            ) by {
                assert(!missing::<T>()(pairs[j]));
            }
        },
    }
}

/// A record whose fields are all required has one setter for each field, at
/// the field's own position, and can be built after a series of calls if and
/// only if every one of these setters has been called.
pub proof fn law_required_fields_must_all_be_set<T>(
    record: RecordModel,
    calls: Seq<CallModel<T>>,
)
    requires
        plan_of(record) is Ok,
        forall|i: int|
            0 <= i < record.fields.len() ==> shape_of(#[trigger] record.fields[i])->Ok_0 is Required,
    ensures
        plan_of(record)->Ok_0.setters.len() == record.fields.len(),
        forall|i: int|
            0 <= i < record.fields.len() ==> #[trigger] plan_of(record)->Ok_0.setters[i]
                == (SetterModel {
                name: record.fields[i].name,
                field: i,
                parameter: record.fields[i].declared_type,
                action: SetterAction::Store,
            }),
        build_of(plan_of(record)->Ok_0, reached(plan_of(record)->Ok_0, calls)) is Ok <==> forall|
            i: int,
        |
            0 <= i < record.fields.len() ==> was_set(plan_of(record)->Ok_0, calls, i),
{
    let plan = plan_of(record)->Ok_0;
    let n = record.fields.len() as int;
    lemma_plan_well_formed(record);
    lemma_all_classified(record);
    lemma_one_setter_each(record, n);
    assert forall|i: int| 0 <= i < n implies #[trigger] plan.setters[i] == (SetterModel {
        name: record.fields[i].name,
        field: i,
        parameter: record.fields[i].declared_type,
        action: SetterAction::Store,
    }) by {
        lemma_one_setter_each(record, i);
        lemma_setters_placed(record.fields, n, i, 0);
    }
    law_build_needs_required_fields(plan, calls);
}

/// With required fields only, the setters of the first `n` fields are `n`.
proof fn lemma_one_setter_each(record: RecordModel, n: int)
    requires
        0 <= n <= record.fields.len(),
        forall|i: int|
            0 <= i < record.fields.len() ==> shape_of(#[trigger] record.fields[i])->Ok_0 is Required,
    ensures
        setter_offset(record.fields, n) == n,
    decreases n,
{
    if n > 0 {
        lemma_one_setter_each(record, n - 1);
    }
}

/// The fields that a series of calls has set.
pub open spec fn fields_set<T>(plan: PlanModel, calls: Seq<CallModel<T>>) -> Set<int> {
    Set::new(|i: int| 0 <= i < plan.fields.len() && was_set(plan, calls, i))
}

/// One call, with the given value, of the setter at each of the chosen
/// positions below `n`, in rising order.
pub open spec fn calls_at<T>(chosen: Set<int>, n: int, value: T) -> Seq<CallModel<T>>
    decreases n,
{
    if n <= 0 {
        Seq::empty()
    } else if chosen.contains(n - 1) {
        calls_at(chosen, n - 1, value).push(
            CallModel { setter: n - 1, argument: ArgumentModel::One(value) },
        )
    } else {
        calls_at(chosen, n - 1, value)
    }
}

/// The calls at the chosen positions below `n` are calls of setters at these
/// positions, and there is one for each of them.
proof fn lemma_calls_at<T>(chosen: Set<int>, n: int, value: T)
    ensures
        forall|k: int|
            0 <= k < calls_at(chosen, n, value).len() ==> {
                let call = #[trigger] calls_at(chosen, n, value)[k];
                &&& 0 <= call.setter < n
                &&& chosen.contains(call.setter)
                &&& call.argument is One
            },
        forall|i: int|
            0 <= i < n && chosen.contains(i) ==> exists|k: int|
                0 <= k < calls_at(chosen, n, value).len() && (#[trigger] calls_at(
                    chosen,
                    n,
                    value,
                )[k]).setter == i,
    decreases n,
{
    if n > 0 {
        lemma_calls_at(chosen, n - 1, value);
        let earlier = calls_at(chosen, n - 1, value);
        let calls = calls_at(chosen, n, value);
        assert forall|i: int| 0 <= i < n && chosen.contains(i) implies exists|k: int|
            0 <= k < calls.len() && (#[trigger] calls[k]).setter == i by {
            if i < n - 1 {
                let k = choose|k: int| 0 <= k < earlier.len() && (#[trigger] earlier[k]).setter == i;
                assert(calls[k] == earlier[k]);
            } else {
                assert(calls[calls.len() - 1].setter == i);
            }
        }
    }
}

/// With `n` required fields, which of their setters a series of calls has
/// called is one of two to the power of `n` combinations. Each of them can be
/// reached, and the record can be built from one alone: the one in which
/// every setter has been called.
pub proof fn law_one_combination_builds<T>(
    record: RecordModel,
    calls: Seq<CallModel<T>>,
    chosen: Set<int>,
    value: T,
)
    requires
        plan_of(record) is Ok,
        forall|i: int|
            0 <= i < record.fields.len() ==> shape_of(#[trigger] record.fields[i])->Ok_0 is Required,
        chosen.subset_of(positions(record.fields.len())),
    ensures
        combinations(record.fields.len()).finite(),
        combinations(record.fields.len()).len() == pow2(record.fields.len()),
        combinations(record.fields.len()).contains(fields_set(plan_of(record)->Ok_0, calls)),
        build_of(plan_of(record)->Ok_0, reached(plan_of(record)->Ok_0, calls)) is Ok
            <==> fields_set(plan_of(record)->Ok_0, calls) == positions(record.fields.len()),
        fields_set(
            plan_of(record)->Ok_0,
            calls_at(chosen, record.fields.len() as int, value),
        ) == chosen,
{
    let plan = plan_of(record)->Ok_0;
    let n = record.fields.len();
    lemma_combinations_count(n);
    law_required_fields_must_all_be_set(record, calls);
    if build_of(plan, reached(plan, calls)) is Ok {
        assert(fields_set(plan, calls) =~= positions(n));
    } else {
        let i = choose|i: int| 0 <= i < n && !was_set(plan, calls, i);
        assert(!fields_set(plan, calls).contains(i));
    }
    lemma_calls_at(chosen, n as int, value);
}

/// A field that was declared optional never stands in the way of the build:
/// a build that fails has a required field to name, another one. And where
/// its setter was never called, the record that is built holds no value in
/// it.
pub proof fn law_optional_field_may_be_omitted<T>(
    record: RecordModel,
    calls: Seq<CallModel<T>>,
    field: int,
)
    requires
        plan_of(record) is Ok,
        0 <= field < record.fields.len(),
        shape_of(record.fields[field])->Ok_0 is Optional,
    ensures
        match build_of(plan_of(record)->Ok_0, reached(plan_of(record)->Ok_0, calls)) {
            Ok(built) => !was_set(plan_of(record)->Ok_0, calls, field) ==> built[field]
                == FieldValueModel::<T>::Optional(None),
            Err(_) => exists|i: int|
                {
                    &&& 0 <= i < record.fields.len()
                    &&& i != field
                    &&& shape_of(#[trigger] record.fields[i])->Ok_0 is Required
                    &&& !was_set(plan_of(record)->Ok_0, calls, i)
                },
        },
{
    let plan = plan_of(record)->Ok_0;
    lemma_plan_well_formed(record);
    lemma_all_classified(record);
    law_build_needs_required_fields(plan, calls);
    lemma_initial_fits::<T>(plan);
    match build_of(plan, reached(plan, calls)) {
        Ok(built) => {
            if !was_set(plan, calls, field) {
                lemma_untouched(plan, initial_state(plan), calls, field);
            }
        },
        Err(e) => {
            let i = choose|i: int|
                {
                    &&& 0 <= i < plan.fields.len()
                    &&& e == BuildErrorModel::MissingRequiredField { field: plan.fields[i].name }
                    &&& plan.fields[i].build is Require
                    &&& !was_set(plan, calls, i)
                    &&& forall|j: int|
                        0 <= j < i && plan.fields[j].build is Require ==> was_set(plan, calls, j)
                };
        },
    }
}

/// The record that is built hands back what was supplied: a field holds the
/// value of the last call that stored one in it, whatever was called before
/// and whatever was called after for other fields.
pub proof fn law_record_echoes_stored_value<T>(
    plan: PlanModel,
    before: Seq<CallModel<T>>,
    setter: int,
    value: T,
    after: Seq<CallModel<T>>,
)
    requires
        plan.well_formed(),
        0 <= setter < plan.setters.len(),
        plan.setters[setter].action is Store,
        forall|k: int|
            0 <= k < after.len() ==> !writes(plan, #[trigger] after[k], plan.setters[setter].field),
    ensures
        ({
            let field = plan.setters[setter].field;
            let call = CallModel { setter, argument: ArgumentModel::One(value) };
            let state = reached(plan, before.push(call) + after);
            &&& state[field] == SlotModel::Optional(Some(value))
            &&& build_of(plan, state) matches Ok(record) ==> record[field] == (
            match plan.fields[field].build {
                BuildRule::Require => FieldValueModel::Required(value),
                BuildRule::PassThrough => FieldValueModel::Optional(Some(value)),
            })
        }),
{
    let field = plan.setters[setter].field;
    let call = CallModel { setter, argument: ArgumentModel::One(value) };
    let start = initial_state::<T>(plan);
    lemma_initial_fits::<T>(plan);
    lemma_run_fits(plan, start, before);
    assert(before.push(call).drop_last() =~= before);
    lemma_run_fits(plan, start, before.push(call));
    lemma_run_in_two(plan, start, before.push(call), after);
    lemma_untouched(plan, run(plan, start, before.push(call)), after, field);
}

/// One call of a setter for each value of a sequence, in the sequence's order.
pub open spec fn one_by_one<T>(setter: int, values: Seq<T>) -> Seq<CallModel<T>> {
    Seq::new(
        values.len(),
        |k: int| CallModel { setter, argument: ArgumentModel::One(values[k]) },
    )
}

/// A call that is not refused writes the field of its setter and leaves
/// every other field as it was, and the state still fits the plan. A call
/// that is refused writes no field.
pub proof fn law_setter_writes_its_field_only<T>(
    plan: PlanModel,
    state: Seq<SlotModel<T>>,
    setter: int,
    argument: ArgumentModel<T>,
)
    requires
        plan.well_formed(),
        fits(plan, state),
    ensures
        match apply_setter(plan, state, setter, argument) {
            Ok(after) => {
                &&& fits(plan, after)
                &&& writes(plan, CallModel { setter, argument }, plan.setters[setter].field)
                &&& forall|i: int|
                    0 <= i < state.len() && i != plan.setters[setter].field ==> after[i]
                        == state[i]
            },
            Err(_) => forall|i: int| !writes(plan, CallModel { setter, argument }, i),
        },
{
    if 0 <= setter < plan.setters.len() {
        assert(plan.writes_a_field(plan.setters[setter]));
    }
}

/// A setter that stores overwrites: called twice, it leaves the builder as
/// the second call alone would, with the second value in the field.
pub proof fn law_store_keeps_last_value<T>(
    plan: PlanModel,
    state: Seq<SlotModel<T>>,
    setter: int,
    first: T,
    second: T,
)
    requires
        plan.well_formed(),
        fits(plan, state),
        0 <= setter < plan.setters.len(),
        plan.setters[setter].action is Store,
    ensures
        run(plan, state, one_by_one(setter, seq![first, second])) == run(
            plan,
            state,
            one_by_one(setter, seq![second]),
        ),
        run(plan, state, one_by_one(setter, seq![first, second]))[plan.setters[setter].field]
            == SlotModel::Optional(Some(second)),
{
    reveal_with_fuel(run, 3);
}

/// A setter that appends accumulates: called once for each value of a
/// sequence, it leaves the field holding what it held before, followed by
/// these values in the order of the calls, and leaves every other field as it
/// was.
pub proof fn law_append_accumulates<T>(
    plan: PlanModel,
    state: Seq<SlotModel<T>>,
    setter: int,
    values: Seq<T>,
)
    requires
        plan.well_formed(),
        fits(plan, state),
        0 <= setter < plan.setters.len(),
        plan.setters[setter].action is Append,
    ensures
        run(plan, state, one_by_one(setter, values)) == state.update(
            plan.setters[setter].field,
            SlotModel::Sequence(state[plan.setters[setter].field]->Sequence_0 + values),
        ),
    decreases values.len(),
{
    let field = plan.setters[setter].field;
    if values.len() == 0 {
    } else {
        let earlier = values.drop_last();
        law_append_accumulates(plan, state, setter, earlier);
        assert(one_by_one(setter, values).drop_last() =~= one_by_one(setter, earlier));
        assert((state[field]->Sequence_0 + earlier).push(values.last()) =~= state[field]->Sequence_0
            + values);
    }
}

/// A setter that replaces puts the given sequence in the field, whatever the
/// field held, and leaves every other field as it was.
pub proof fn law_replace_sets_the_sequence<T>(
    plan: PlanModel,
    state: Seq<SlotModel<T>>,
    setter: int,
    values: Seq<T>,
)
    requires
        plan.well_formed(),
        fits(plan, state),
        0 <= setter < plan.setters.len(),
        plan.setters[setter].action is Replace,
    ensures
        apply_setter(plan, state, setter, ArgumentModel::Many(values)) == Ok::<
            Seq<SlotModel<T>>,
            CallError,
        >(state.update(plan.setters[setter].field, SlotModel::Sequence(values))),
{
}

/// A collection whose per-element setter has a name of its own has two
/// setters, side by side in the plan: the one that appends, under that name,
/// and the one that replaces, under the field's name. Either of them alone
/// fills the field of a fresh builder with any given sequence: one call of
/// the second, or one call of the first for each element, in order.
pub proof fn law_collection_has_two_setters<T>(record: RecordModel, field: int, values: Seq<T>)
    requires
        plan_of(record) is Ok,
        0 <= field < record.fields.len(),
        shape_of(record.fields[field])->Ok_0 is Collection,
        shape_of(record.fields[field])->Ok_0->each != record.fields[field].name,
    ensures
        ({
            let plan = plan_of(record)->Ok_0;
            let append = setter_offset(record.fields, field);
            let replace = append + 1;
            &&& 0 <= append && replace < plan.setters.len()
            &&& plan.setters[append] == (SetterModel {
                name: shape_of(record.fields[field])->Ok_0->each,
                field,
                parameter: shape_of(record.fields[field])->Ok_0->element,
                action: SetterAction::Append,
            })
            &&& plan.setters[replace] == (SetterModel {
                name: record.fields[field].name,
                field,
                parameter: record.fields[field].declared_type,
                action: SetterAction::Replace,
            })
            &&& reached(plan, one_by_one(append, values))[field] == SlotModel::Sequence(values)
            &&& reached(
                plan,
                seq![CallModel { setter: replace, argument: ArgumentModel::Many(values) }],
            )[field] == SlotModel::Sequence(values)
        }),
{
    let plan = plan_of(record)->Ok_0;
    let n = record.fields.len() as int;
    let append = setter_offset(record.fields, field);
    let replace = append + 1;
    lemma_plan_well_formed(record);
    lemma_all_classified(record);
    lemma_initial_fits::<T>(plan);
    lemma_setters_placed(record.fields, n, field, 0);
    lemma_setters_placed(record.fields, n, field, 1);
    law_append_accumulates(plan, initial_state(plan), append, values);
    let once = seq![CallModel { setter: replace, argument: ArgumentModel::Many(values) }];
    reveal_with_fuel(run, 2);
}

/// A collection whose per-element setter goes by the field's own name has
/// that setter and no other: nothing in the plan replaces the field's whole
/// sequence.
pub proof fn law_name_clash_leaves_one_setter(record: RecordModel, field: int)
    requires
        plan_of(record) is Ok,
        0 <= field < record.fields.len(),
        shape_of(record.fields[field])->Ok_0 is Collection,
        shape_of(record.fields[field])->Ok_0->each == record.fields[field].name,
    ensures
        ({
            let plan = plan_of(record)->Ok_0;
            let append = setter_offset(record.fields, field);
            &&& 0 <= append < plan.setters.len()
            &&& plan.setters[append] == (SetterModel {
                name: record.fields[field].name,
                field,
                parameter: shape_of(record.fields[field])->Ok_0->element,
                action: SetterAction::Append,
            })
            &&& forall|k: int|
                0 <= k < plan.setters.len() && (#[trigger] plan.setters[k]).field == field ==> k
                    == append
        }),
{
    let plan = plan_of(record)->Ok_0;
    let n = record.fields.len() as int;
    let append = setter_offset(record.fields, field);
    lemma_all_classified(record);
    lemma_setters_placed(record.fields, n, field, 0);
    assert forall|k: int|
        0 <= k < plan.setters.len() && (#[trigger] plan.setters[k]).field == field implies k
        == append by {
        lemma_setter_origin(record.fields, n, k);
    }
}

/// An annotation that holds an unknown key refuses its field, and with it the
/// record: the classifier answers with the first unknown key of the
/// annotation, and so does the generator where no earlier field is refused.
pub proof fn law_unknown_key_refuses(record: RecordModel, field: int, entry: int)
    requires
        0 <= field < record.fields.len(),
        record.fields[field].annotation is Some,
        0 <= entry < record.fields[field].annotation->Some_0.len(),
        record.fields[field].annotation->Some_0[entry].key != recognized_key(),
    ensures
        exists|first: int|
            {
                &&& 0 <= first <= entry
                &&& #[trigger] is_first_index(
                    record.fields[field].annotation->Some_0,
                    unsupported_key(),
                    first,
                )
                &&& shape_of(record.fields[field]) == Err::<ShapeModel, GenerationErrorModel>(
                    GenerationErrorModel::UnsupportedAnnotationKey {
                        key: record.fields[field].annotation->Some_0[first].key,
                        location: record.fields[field].annotation->Some_0[first].location,
                    },
                )
            },
        plan_of(record) is Err,
        record.kind == RecordKind::NamedFields && (forall|j: int|
            0 <= j < field ==> shape_of(#[trigger] record.fields[j]) is Ok) ==> plan_of(record)
            == Err::<PlanModel, GenerationErrorModel>(shape_of(record.fields[field])->Err_0),
{
    let entries = record.fields[field].annotation->Some_0;
    lemma_first_index(entries, unsupported_key());
    let first = first_index(entries, unsupported_key())->Some_0;
    assert(first <= entry) by {
        assert(unsupported_key()(entries[entry]));
    }
    lemma_first_index(record.fields, refused());
    if record.kind == RecordKind::NamedFields && (forall|j: int|
        0 <= j < field ==> shape_of(#[trigger] record.fields[j]) is Ok) {
        lemma_first_index_is(record.fields, refused(), field);
    }
}

/// A name stands for the first setter that goes by it: a call by the name
/// of a setter that no earlier setter shares is a call of that setter.
pub proof fn law_name_finds_setter<T>(
    plan: PlanModel,
    state: Seq<SlotModel<T>>,
    setter: int,
    argument: ArgumentModel<T>,
)
    requires
        0 <= setter < plan.setters.len(),
        forall|j: int|
            0 <= j < setter ==> (#[trigger] plan.setters[j]).name != plan.setters[setter].name,
    ensures
        setter_named(plan, plan.setters[setter].name) == Some(setter),
        call_setter(plan, state, plan.setters[setter].name, argument) == apply_setter(
            plan,
            state,
            setter,
            argument,
        ),
{
    let name = plan.setters[setter].name;
    lemma_first_index_is(plan.setters, named(name), setter);
}

/// In a record of required fields, no two of one name, the setter of each
/// field is the one that the field's name stands for.
pub proof fn law_required_setter_goes_by_field_name(record: RecordModel, field: int)
    requires
        plan_of(record) is Ok,
        record.names_distinct(),
        forall|i: int|
            0 <= i < record.fields.len() ==> shape_of(#[trigger] record.fields[i])->Ok_0 is Required,
        0 <= field < record.fields.len(),
    ensures
        setter_named(plan_of(record)->Ok_0, record.fields[field].name) == Some(field),
{
    let plan = plan_of(record)->Ok_0;
    law_required_fields_must_all_be_set::<int>(record, Seq::empty());
    law_name_finds_setter::<int>(plan, Seq::empty(), field, ArgumentModel::One(0));
}

} // verus!
