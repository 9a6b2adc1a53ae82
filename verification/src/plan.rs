//! The plan builder: from the classified fields of a record to the layout,
//! the initializer, the setters and the build step of its companion builder.

use crate::classify::{classify, shape_of, Shape, ShapeModel};
use crate::error::{GenerationError, GenerationErrorModel};
use crate::record::{
    FieldDescription, FieldModel, RecordDescription, RecordKind, RecordModel, TypeExpression,
    TypeModel,
};
use crate::scan::{first_index, lemma_first_index_is};
use vstd::prelude::*;
use vstd::string::StringExecFns;

verus! {

/// The type of the builder's own field for a record field.
#[derive(Debug, Clone, PartialEq, Eq)]
pub enum StorageType {
    /// A value of the given type that may be absent.
    Optional(TypeExpression),
    /// A sequence of values of the given type.
    Sequence(TypeExpression),
}

/// What a [`StorageType`] denotes.
pub enum StorageModel {
    Optional(TypeModel),
    Sequence(TypeModel),
}

impl View for StorageType {
    type V = StorageModel;

    open spec fn view(&self) -> StorageModel {
        match self {
            StorageType::Optional(ty) => StorageModel::Optional(ty@),
            StorageType::Sequence(ty) => StorageModel::Sequence(ty@),
        }
    }
}

/// What a fresh builder holds in a field.
#[derive(Debug, Clone, Copy, PartialEq, Eq)]
pub enum Initializer {
    /// No value.
    Absent,
    /// The empty sequence.
    Empty,
}

/// How the build step turns what the builder holds into the record's field.
#[derive(Debug, Clone, Copy, PartialEq, Eq)]
pub enum BuildRule {
    /// Take the value out; the build fails where there is none.
    Require,
    /// Hand on what is stored, be it absent or empty.
    PassThrough,
}

/// What a setter does to the field it belongs to.
#[derive(Debug, Clone, Copy, PartialEq, Eq)]
pub enum SetterAction {
    /// Store the value, over whatever was stored before.
    Store,
    /// Append the value to the stored sequence.
    Append,
    /// Put the given sequence in place of the stored one.
    Replace,
}

/// One field of the builder.
#[derive(Debug, Clone, PartialEq, Eq)]
pub struct PlanField {
    pub name: String,
    pub storage: StorageType,
    pub initializer: Initializer,
    pub build: BuildRule,
}

/// What a [`PlanField`] denotes.
pub struct PlanFieldModel {
    pub name: Seq<char>,
    pub storage: StorageModel,
    pub initializer: Initializer,
    pub build: BuildRule,
}

impl View for PlanField {
    type V = PlanFieldModel;

    open spec fn view(&self) -> PlanFieldModel {
        PlanFieldModel {
            name: self.name@,
            storage: self.storage@,
            initializer: self.initializer,
            build: self.build,
        }
    }
}

impl PlanFieldModel {
    /// The initializer is the empty value of the storage, and only a value
    /// that may be absent is ever required.
    pub open spec fn well_formed(self) -> bool {
        &&& self.storage is Optional <==> self.initializer is Absent
        &&& self.build is Require ==> self.storage is Optional
    }
}

/// One setter of the builder.
#[derive(Debug, Clone, PartialEq, Eq)]
pub struct Setter {
    pub name: String,
    /// The position of the field that the setter writes.
    pub field: usize,
    /// The type of the setter's one parameter.
    pub parameter: TypeExpression,
    pub action: SetterAction,
}

/// What a [`Setter`] denotes.
pub struct SetterModel {
    pub name: Seq<char>,
    pub field: int,
    pub parameter: TypeModel,
    pub action: SetterAction,
}

impl View for Setter {
    type V = SetterModel;

    open spec fn view(&self) -> SetterModel {
        SetterModel {
            name: self.name@,
            field: self.field as int,
            parameter: self.parameter@,
            action: self.action,
        }
    }
}

/// What a [`TransformationPlan`] denotes.
pub struct PlanModel {
    pub record_name: Seq<char>,
    pub builder_name: Seq<char>,
    pub fields: Seq<PlanFieldModel>,
    pub setters: Seq<SetterModel>,
}

impl PlanModel {
    /// Every field is well formed, and every setter writes a field of the
    /// plan in a way that its storage allows.
    pub open spec fn well_formed(self) -> bool {
        &&& forall|i: int| 0 <= i < self.fields.len() ==> (#[trigger] self.fields[i]).well_formed()
        &&& forall|k: int|
            0 <= k < self.setters.len() ==> self.writes_a_field(#[trigger] self.setters[k])
    }

    /// The setter writes a field of the plan: it stores where the field holds
    /// one value, and appends or replaces where the field holds a sequence.
    pub open spec fn writes_a_field(self, setter: SetterModel) -> bool {
        &&& 0 <= setter.field < self.fields.len()
        &&& setter.action is Store <==> self.fields[setter.field].storage is Optional
    }
}

/// The storage that a shape asks for.
pub open spec fn storage_of(shape: ShapeModel) -> StorageModel {
    match shape {
        ShapeModel::Required(ty) => StorageModel::Optional(ty),
        ShapeModel::Optional(inner) => StorageModel::Optional(inner),
        ShapeModel::Collection { element, .. } => StorageModel::Sequence(element),
    }
}

/// The builder's field for a record field of the given name and shape.
pub open spec fn plan_field(name: Seq<char>, shape: ShapeModel) -> PlanFieldModel {
    PlanFieldModel {
        name,
        storage: storage_of(shape),
        initializer: if shape is Collection {
            Initializer::Empty
        } else {
            Initializer::Absent
        },
        build: if shape is Required {
            BuildRule::Require
        } else {
            BuildRule::PassThrough
        },
    }
}

/// The setters of the field at position `index`.
///
/// A required or optional field has one setter, named as the field, that
/// stores a value. A collection has the setter that appends one element,
/// named as its annotation says, and after it the setter that replaces the
/// whole sequence, named as the field: but not where the two names are the
/// same, for then only the first is left.
pub open spec fn field_setters(index: int, field: FieldModel, shape: ShapeModel) -> Seq<
    SetterModel,
> {
    match shape {
        ShapeModel::Required(ty) => seq![
            SetterModel { name: field.name, field: index, parameter: ty, action: SetterAction::Store },
        ],
        ShapeModel::Optional(inner) => seq![
            SetterModel {
                name: field.name,
                field: index,
                parameter: inner,
                action: SetterAction::Store,
            },
        ],
        ShapeModel::Collection { element, each } => {
            let append = SetterModel {
                name: each,
                field: index,
                parameter: element,
                action: SetterAction::Append,
            };
            let replace = SetterModel {
                name: field.name,
                field: index,
                parameter: field.declared_type,
                action: SetterAction::Replace,
            };
            if each == field.name {
                seq![append]
            } else {
                seq![append, replace]
            }
        },
    }
}

/// The setters of the first `n` fields, field after field.
pub open spec fn setters_through(fields: Seq<FieldModel>, n: int) -> Seq<SetterModel>
    decreases n,
{
    if n <= 0 {
        Seq::empty()
    } else {
        setters_through(fields, n - 1) + field_setters(
            n - 1,
            fields[n - 1],
            shape_of(fields[n - 1])->Ok_0,
        )
    }
}

/// Whether the classifier refuses a field.
pub open spec fn refused() -> spec_fn(FieldModel) -> bool {
    |f: FieldModel| shape_of(f) is Err
}

/// The name of the builder of a record.
pub open spec fn builder_name_of(record_name: Seq<char>) -> Seq<char> {
    record_name + "Builder"@
}

/// The plan of a record.
///
/// Only a structure with named fields has one. The first field that the
/// classifier refuses refuses the record, with the classifier's reason.
/// Otherwise the plan has one field for each field of the record, in the
/// record's order, and the setters of all fields in that same order.
pub open spec fn plan_of(record: RecordModel) -> Result<PlanModel, GenerationErrorModel> {
    if record.kind != RecordKind::NamedFields {
        Err(GenerationErrorModel::UnsupportedRecordShape)
    } else {
        match first_index(record.fields, refused()) {
            Some(i) => Err(shape_of(record.fields[i])->Err_0),
            None => Ok(
                PlanModel {
                    record_name: record.name,
                    builder_name: builder_name_of(record.name),
                    fields: Seq::new(
                        record.fields.len(),
                        |i: int| plan_field(record.fields[i].name, shape_of(record.fields[i])->Ok_0),
                    ),
                    setters: setters_through(record.fields, record.fields.len() as int),
                },
            ),
        }
    }
}

/// Whether a setter goes by the given name.
pub open spec fn named(name: Seq<char>) -> spec_fn(SetterModel) -> bool {
    |s: SetterModel| s.name == name
}

/// The position of the setter that a name stands for: the first of that name.
pub open spec fn setter_named(plan: PlanModel, name: Seq<char>) -> Option<int> {
    first_index(plan.setters, named(name))
}

/// What a result of [`TransformationPlan::setter_named`] denotes.
pub open spec fn position_view(found: Option<usize>) -> Option<int> {
    match found {
        Some(k) => Some(k as int),
        None => None,
    }
}

/// Where the setters of the field at position `i` begin in the plan's list.
pub open spec fn setter_offset(fields: Seq<FieldModel>, i: int) -> int {
    setters_through(fields, i).len() as int
}

/// What a sequence of plan fields denotes.
pub open spec fn fields_view(fields: Seq<PlanField>) -> Seq<PlanFieldModel> {
    fields.map_values(|f: PlanField| f@)
}

/// What a sequence of setters denotes.
pub open spec fn setters_view(setters: Seq<Setter>) -> Seq<SetterModel> {
    setters.map_values(|s: Setter| s@)
}

/// What a result of [`derive`] denotes.
pub open spec fn plan_view(derived: Result<TransformationPlan, GenerationError>) -> Result<
    PlanModel,
    GenerationErrorModel,
> {
    match derived {
        Ok(plan) => Ok(plan@),
        Err(e) => Err(e@),
    }
}

/// The plan of the companion builder of one record.
#[derive(Debug, PartialEq, Eq)]
pub struct TransformationPlan {
    record_name: String,
    builder_name: String,
    fields: Vec<PlanField>,
    setters: Vec<Setter>,
}

impl View for TransformationPlan {
    type V = PlanModel;

    closed spec fn view(&self) -> PlanModel {
        PlanModel {
            record_name: self.record_name@,
            builder_name: self.builder_name@,
            fields: fields_view(self.fields@),
            setters: setters_view(self.setters@),
        }
    }
}

impl TransformationPlan {
    /// Every plan is well formed.
    #[verifier::type_invariant]
    pub open spec fn sound(self) -> bool {
        self@.well_formed()
    }

    /// The name of the record that the plan is for.
    pub fn record_name(&self) -> (name: &String)
        ensures
            name@ == self@.record_name,
    {
        &self.record_name
    }

    /// The name of the builder type.
    pub fn builder_name(&self) -> (name: &String)
        ensures
            name@ == self@.builder_name,
    {
        &self.builder_name
    }

    /// The builder's fields, in the order of the record's fields.
    pub fn fields(&self) -> (fields: &Vec<PlanField>)
        ensures
            fields_view(fields@) == self@.fields,
            self@.well_formed(),
    {
        proof {
            use_type_invariant(self);
        }
        &self.fields
    }

    /// Looks a setter up by its name.
    pub fn setter_named(&self, name: &str) -> (found: Option<usize>)
        ensures
            position_view(found) == setter_named(self@, name@),
    {
        let wanted = name.to_owned();
        let mut k: usize = 0;
        while k < self.setters.len()
            invariant
                k <= self.setters.len(),
                wanted@ == name@,
                forall|j: int| 0 <= j < k ==> !named(name@)(#[trigger] self@.setters[j]),
            decreases self.setters.len() - k,
        {
            if self.setters[k].name == wanted {
                proof {
                    lemma_first_index_is(self@.setters, named(name@), k as int);
                }
                return Some(k);
            }
            k += 1;
        }
        None
    }

    /// The builder's setters, in the order of the fields they write.
    pub fn setters(&self) -> (setters: &Vec<Setter>)
        ensures
            setters_view(setters@) == self@.setters,
            self@.well_formed(),
    {
        proof {
            use_type_invariant(self);
        }
        &self.setters
    }
}

/// The builder's field for a field of the given shape.
pub fn field_plan(field: &FieldDescription, shape: &Shape) -> (planned: PlanField)
    ensures
        planned@ == plan_field(field@.name, shape@),
{
    match shape {
        Shape::Required(ty) => PlanField {
            name: field.name.clone(),
            storage: StorageType::Optional(ty.clone()),
            initializer: Initializer::Absent,
            build: BuildRule::Require,
        },
        Shape::Optional(inner) => PlanField {
            name: field.name.clone(),
            storage: StorageType::Optional(inner.clone()),
            initializer: Initializer::Absent,
            build: BuildRule::PassThrough,
        },
        Shape::Collection { element, .. } => PlanField {
            name: field.name.clone(),
            storage: StorageType::Sequence(element.clone()),
            initializer: Initializer::Empty,
            build: BuildRule::PassThrough,
        },
    }
}

/// Appends to `setters` the setters of the field at position `index`.
pub fn push_setters(
    setters: &mut Vec<Setter>,
    index: usize,
    field: &FieldDescription,
    shape: &Shape,
)
    ensures
        setters_view(final(setters)@) == setters_view(old(setters)@) + field_setters(
            index as int,
            field@,
            shape@,
        ),
{
    let ghost before = setters_view(setters@);
    match shape {
        Shape::Required(ty) => {
            setters.push(
                Setter {
                    name: field.name.clone(),
                    field: index,
                    parameter: ty.clone(),
                    action: SetterAction::Store,
                },
            );
        },
        Shape::Optional(inner) => {
            setters.push(
                Setter {
                    name: field.name.clone(),
                    field: index,
                    parameter: inner.clone(),
                    action: SetterAction::Store,
                },
            );
        },
        Shape::Collection { element, each } => {
            setters.push(
                Setter {
                    name: each.clone(),
                    field: index,
                    parameter: element.clone(),
                    action: SetterAction::Append,
                },
            );
            if *each != field.name {
                setters.push(
                    Setter {
                        name: field.name.clone(),
                        field: index,
                        parameter: field.declared_type.clone(),
                        action: SetterAction::Replace,
                    },
                );
            }
        },
    }
}

/// Plans the companion builder of a record, or says why the record is
/// refused.
pub fn derive(record: &RecordDescription) -> (derived: Result<TransformationPlan, GenerationError>)
    ensures
        plan_view(derived) == plan_of(record@),
{
    match record.kind {
        RecordKind::NamedFields => {},
        _ => {
            return Err(GenerationError::UnsupportedRecordShape);
        },
    }
    let ghost described = record@.fields;
    let mut fields: Vec<PlanField> = Vec::new();
    let mut setters: Vec<Setter> = Vec::new();
    let mut i: usize = 0;
    while i < record.fields.len()
        invariant
            i <= record.fields.len(),
            described == record@.fields,
            record@.kind == RecordKind::NamedFields,
            forall|j: int| 0 <= j < i ==> !refused()(#[trigger] described[j]),
            fields.len() == i,
            forall|j: int|
                0 <= j < i ==> (#[trigger] fields[j])@ == plan_field(
                    described[j].name,
                    shape_of(described[j])->Ok_0,
                ),
            setters_view(setters@) == setters_through(described, i as int),
        decreases record.fields.len() - i,
    {
        let field = &record.fields[i];
        let shape = match classify(field) {
            Ok(shape) => shape,
            Err(e) => {
                proof {
                    lemma_first_index_is(described, refused(), i as int);
                }
                return Err(e);
            },
        };
        fields.push(field_plan(field, &shape));
        push_setters(&mut setters, i, field, &shape);
        i += 1;
    }
    proof {
        lemma_plan_well_formed(record@);
        assert(fields_view(fields@) =~= plan_of(record@)->Ok_0.fields);
    }
    let builder_name = record.name.clone().concat("Builder");
    Ok(TransformationPlan { record_name: record.name.clone(), builder_name, fields, setters })
}

/// Each setter among those of the first `n` fields writes one of these
/// fields, in the way that the field's storage allows.
pub proof fn lemma_setters_write_fields(fields: Seq<FieldModel>, n: int, k: int)
    requires
        0 <= n <= fields.len(),
        forall|j: int| 0 <= j < n ==> shape_of(#[trigger] fields[j]) is Ok,
        0 <= k < setters_through(fields, n).len(),
    ensures
        0 <= setters_through(fields, n)[k].field < n,
        setters_through(fields, n)[k].action is Store <==> storage_of(
            shape_of(fields[setters_through(fields, n)[k].field])->Ok_0,
        ) is Optional,
    decreases n,
{
    let before = setters_through(fields, n - 1);
    if k < before.len() {
        lemma_setters_write_fields(fields, n - 1, k);
    }
}

/// The setters of the first `m` fields open the list of those of the first
/// `n`, for `m` up to `n`.
pub proof fn lemma_setters_prefix(fields: Seq<FieldModel>, m: int, n: int)
    requires
        0 <= m <= n,
    ensures
        setter_offset(fields, m) <= setter_offset(fields, n),
        setters_through(fields, n).subrange(0, setter_offset(fields, m)) == setters_through(
            fields,
            m,
        ),
    decreases n - m,
{
    if m < n {
        lemma_setters_prefix(fields, m, n - 1);
    }
}

/// The setters of the field at position `i` stand together in the list, in
/// their order, from the field's offset on.
pub proof fn lemma_setters_placed(fields: Seq<FieldModel>, n: int, i: int, j: int)
    requires
        0 <= i < n,
        0 <= j < field_setters(i, fields[i], shape_of(fields[i])->Ok_0).len(),
    ensures
        0 <= setter_offset(fields, i) + j < setter_offset(fields, n),
        setters_through(fields, n)[setter_offset(fields, i) + j] == field_setters(
            i,
            fields[i],
            shape_of(fields[i])->Ok_0,
        )[j],
{
    lemma_setters_prefix(fields, i + 1, n);
    let k = setter_offset(fields, i) + j;
    assert(setters_through(fields, n).subrange(0, setter_offset(fields, i + 1))[k]
        == setters_through(fields, n)[k]);
}

/// Each setter of the list is one of the setters of the field that it writes.
pub proof fn lemma_setter_origin(fields: Seq<FieldModel>, n: int, k: int)
    requires
        0 <= n,
        0 <= k < setter_offset(fields, n),
    ensures
        ({
            let i = setters_through(fields, n)[k].field;
            &&& 0 <= i < n
            &&& setter_offset(fields, i) <= k < setter_offset(fields, i + 1)
            &&& setters_through(fields, n)[k] == field_setters(
                i,
                fields[i],
                shape_of(fields[i])->Ok_0,
            )[k - setter_offset(fields, i)]
        }),
    decreases n,
{
    if k < setter_offset(fields, n - 1) {
        lemma_setter_origin(fields, n - 1, k);
    }
}

/// The plan of a record is well formed.
pub proof fn lemma_plan_well_formed(record: RecordModel)
    requires
        plan_of(record) is Ok,
    ensures
        plan_of(record)->Ok_0.well_formed(),
{
    let plan = plan_of(record)->Ok_0;
    crate::scan::lemma_first_index(record.fields, refused());
    assert forall|k: int| 0 <= k < plan.setters.len() implies plan.writes_a_field(
        #[trigger] plan.setters[k],
    ) by {
        lemma_setters_write_fields(record.fields, record.fields.len() as int, k);
    }
}

} // verus!
