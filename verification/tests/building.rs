use derive_builder::builder::{Argument, Builder, FieldValue};
use derive_builder::error::{BuildError, CallError};
use derive_builder::plan::TransformationPlan;
use derive_builder::record::{
    AnnotationEntry, AnnotationValue, FieldDescription, RecordDescription, RecordKind,
    SourceLocation, TypeExpression,
};

#[derive(Debug, Clone, Copy, PartialEq, Eq)]
enum Val {
    Text(&'static str),
    List(&'static [&'static str]),
}

fn plain(name: &str) -> TypeExpression {
    TypeExpression::Named { constructor: name.to_string(), arguments: vec![] }
}

fn applied(constructor: &str, argument: TypeExpression) -> TypeExpression {
    TypeExpression::Named { constructor: constructor.to_string(), arguments: vec![argument] }
}

fn field(name: &str, declared_type: TypeExpression) -> FieldDescription {
    FieldDescription {
        name: name.to_string(),
        declared_type,
        annotation: None,
        location: SourceLocation { line: 1, column: 1 },
    }
}

fn each(name: &str, declared_type: TypeExpression, singular: &str) -> FieldDescription {
    FieldDescription {
        name: name.to_string(),
        declared_type,
        annotation: Some(vec![AnnotationEntry {
            key: "each".to_string(),
            value: AnnotationValue::Text(singular.to_string()),
            location: SourceLocation { line: 1, column: 1 },
        }]),
        location: SourceLocation { line: 2, column: 1 },
    }
}

fn plan_of(fields: Vec<FieldDescription>) -> TransformationPlan {
    let record =
        RecordDescription { name: "Command".to_string(), kind: RecordKind::NamedFields, fields };
    derive_builder::plan::derive(&record).unwrap()
}

fn command() -> TransformationPlan {
    plan_of(vec![
        field("executable", plain("String")),
        field("args", applied("Vec", plain("String"))),
        field("env", applied("Vec", plain("String"))),
        field("current_dir", plain("String")),
    ])
}

fn missing(name: &str) -> Result<Vec<FieldValue<Val>>, BuildError> {
    Err(BuildError::MissingRequiredField { field: name.to_string() })
}

#[test]
fn three_of_four_setters_leave_the_fourth_missing() {
    let plan = command();
    let mut builder: Builder<Val> = Builder::new(&plan);
    assert_eq!(builder.call("executable", Argument::One(Val::Text("cargo"))), Ok(()));
    assert_eq!(builder.call("args", Argument::One(Val::List(&["build", "--release"]))), Ok(()));
    assert_eq!(builder.call("env", Argument::One(Val::List(&[]))), Ok(()));
    assert_eq!(builder.build(), missing("current_dir"));
}

#[test]
fn all_four_setters_echo_the_values() {
    let plan = command();
    let mut builder: Builder<Val> = Builder::new(&plan);
    assert_eq!(builder.call("executable", Argument::One(Val::Text("cargo"))), Ok(()));
    assert_eq!(builder.call("args", Argument::One(Val::List(&["build", "--release"]))), Ok(()));
    assert_eq!(builder.call("env", Argument::One(Val::List(&[]))), Ok(()));
    assert_eq!(builder.call("current_dir", Argument::One(Val::Text(".."))), Ok(()));
    assert_eq!(
        builder.build(),
        Ok(vec![
            FieldValue::Required(Val::Text("cargo")),
            FieldValue::Required(Val::List(&["build", "--release"])),
            FieldValue::Required(Val::List(&[])),
            FieldValue::Required(Val::Text("..")),
        ])
    );
}

#[test]
fn the_first_missing_field_is_named() {
    let plan = command();
    let mut builder: Builder<Val> = Builder::new(&plan);
    assert_eq!(builder.build(), missing("executable"));
    assert_eq!(builder.call("executable", Argument::One(Val::Text("cargo"))), Ok(()));
    assert_eq!(builder.call("current_dir", Argument::One(Val::Text(".."))), Ok(()));
    assert_eq!(builder.build(), missing("args"));
}

#[test]
fn a_failed_build_can_be_tried_again() {
    let plan = plan_of(vec![field("executable", plain("String"))]);
    let mut builder: Builder<Val> = Builder::new(&plan);
    assert_eq!(builder.build(), missing("executable"));
    assert_eq!(builder.call("executable", Argument::One(Val::Text("cargo"))), Ok(()));
    assert_eq!(builder.build(), Ok(vec![FieldValue::Required(Val::Text("cargo"))]));
    assert_eq!(builder.build(), Ok(vec![FieldValue::Required(Val::Text("cargo"))]));
}

#[test]
fn of_eight_combinations_one_builds() {
    let plan = plan_of(vec![
        field("a", plain("String")),
        field("b", plain("String")),
        field("c", plain("String")),
    ]);
    let mut built = 0;
    for chosen in 0..8usize {
        let mut builder: Builder<Val> = Builder::new(&plan);
        for setter in 0..3usize {
            if chosen & (1 << setter) != 0 {
                assert_eq!(builder.apply(setter, Argument::One(Val::Text("x"))), Ok(()));
            }
        }
        let outcome = builder.build();
        assert_eq!(outcome.is_ok(), chosen == 7);
        if outcome.is_ok() {
            built += 1;
        }
    }
    assert_eq!(built, 1);
}

#[test]
fn an_optional_field_may_stay_unset() {
    let plan = plan_of(vec![
        field("executable", plain("String")),
        field("current_dir", applied("Option", plain("String"))),
    ]);
    let mut builder: Builder<Val> = Builder::new(&plan);
    assert_eq!(builder.call("executable", Argument::One(Val::Text("cargo"))), Ok(()));
    assert_eq!(
        builder.build(),
        Ok(vec![FieldValue::Required(Val::Text("cargo")), FieldValue::Optional(None)])
    );
}

#[test]
fn an_optional_field_alone_builds_at_once() {
    let plan = plan_of(vec![field("current_dir", applied("Option", plain("String")))]);
    let builder: Builder<Val> = Builder::new(&plan);
    assert_eq!(builder.build(), Ok(vec![FieldValue::Optional(None)]));
}

#[test]
fn an_optional_field_takes_the_inner_value() {
    let plan = plan_of(vec![field("current_dir", applied("Option", plain("String")))]);
    let mut builder: Builder<Val> = Builder::new(&plan);
    assert_eq!(builder.call("current_dir", Argument::One(Val::Text(".."))), Ok(()));
    assert_eq!(builder.build(), Ok(vec![FieldValue::Optional(Some(Val::Text("..")))]));
}

#[test]
fn elements_accumulate_in_call_order() {
    let plan = plan_of(vec![each("args", applied("Vec", plain("String")), "arg")]);
    let mut builder: Builder<Val> = Builder::new(&plan);
    assert_eq!(builder.call("arg", Argument::One(Val::Text("a"))), Ok(()));
    assert_eq!(builder.call("arg", Argument::One(Val::Text("b"))), Ok(()));
    assert_eq!(builder.call("arg", Argument::One(Val::Text("c"))), Ok(()));
    assert_eq!(
        builder.build(),
        Ok(vec![FieldValue::Sequence(vec![Val::Text("a"), Val::Text("b"), Val::Text("c")])])
    );
}

#[test]
fn the_bulk_setter_sets_the_whole_sequence() {
    let plan = plan_of(vec![each("args", applied("Vec", plain("String")), "arg")]);
    let mut builder: Builder<Val> = Builder::new(&plan);
    assert_eq!(
        builder.call("args", Argument::Many(vec![Val::Text("x"), Val::Text("y")])),
        Ok(())
    );
    assert_eq!(
        builder.build(),
        Ok(vec![FieldValue::Sequence(vec![Val::Text("x"), Val::Text("y")])])
    );
}

#[test]
fn a_collection_starts_empty() {
    let plan = plan_of(vec![each("args", applied("Vec", plain("String")), "arg")]);
    let builder: Builder<Val> = Builder::new(&plan);
    assert_eq!(builder.build(), Ok(vec![FieldValue::Sequence(vec![])]));
}

#[test]
fn the_bulk_setter_replaces_and_the_other_appends() {
    let plan = plan_of(vec![each("args", applied("Vec", plain("String")), "arg")]);
    let mut builder: Builder<Val> = Builder::new(&plan);
    assert_eq!(builder.call("arg", Argument::One(Val::Text("a"))), Ok(()));
    assert_eq!(
        builder.call("args", Argument::Many(vec![Val::Text("x"), Val::Text("y")])),
        Ok(())
    );
    assert_eq!(builder.call("arg", Argument::One(Val::Text("z"))), Ok(()));
    assert_eq!(
        builder.build(),
        Ok(vec![FieldValue::Sequence(vec![Val::Text("x"), Val::Text("y"), Val::Text("z")])])
    );
}

#[test]
fn a_clashing_name_leaves_only_the_per_element_setter() {
    let plan = plan_of(vec![each("env", applied("Vec", plain("String")), "env")]);
    let mut builder: Builder<Val> = Builder::new(&plan);
    assert_eq!(builder.call("env", Argument::One(Val::Text("A=1"))), Ok(()));
    assert_eq!(
        builder.call("env", Argument::Many(vec![Val::Text("B=2")])),
        Err(CallError::ArgumentMismatch)
    );
    assert_eq!(builder.call("env", Argument::One(Val::Text("C=3"))), Ok(()));
    assert_eq!(
        builder.build(),
        Ok(vec![FieldValue::Sequence(vec![Val::Text("A=1"), Val::Text("C=3")])])
    );
    assert_eq!(builder.apply(1, Argument::Many(vec![])), Err(CallError::UnknownSetter));
}

#[test]
fn a_plain_setter_keeps_the_last_value() {
    let plan = plan_of(vec![field("executable", plain("String"))]);
    let mut builder: Builder<Val> = Builder::new(&plan);
    assert_eq!(builder.call("executable", Argument::One(Val::Text("cargo"))), Ok(()));
    assert_eq!(builder.call("executable", Argument::One(Val::Text("rustc"))), Ok(()));
    assert_eq!(builder.build(), Ok(vec![FieldValue::Required(Val::Text("rustc"))]));
}

#[test]
fn an_unknown_setter_is_refused() {
    let plan = command();
    let mut builder: Builder<Val> = Builder::new(&plan);
    assert_eq!(builder.call("arg", Argument::One(Val::Text("a"))), Err(CallError::UnknownSetter));
    assert_eq!(builder.apply(4, Argument::One(Val::Text("a"))), Err(CallError::UnknownSetter));
    assert_eq!(builder.build(), missing("executable"));
}

#[test]
fn a_sequence_for_a_plain_setter_is_refused() {
    let plan = plan_of(vec![field("executable", plain("String"))]);
    let mut builder: Builder<Val> = Builder::new(&plan);
    assert_eq!(builder.call("executable", Argument::One(Val::Text("cargo"))), Ok(()));
    assert_eq!(
        builder.call("executable", Argument::Many(vec![Val::Text("rustc")])),
        Err(CallError::ArgumentMismatch)
    );
    assert_eq!(builder.build(), Ok(vec![FieldValue::Required(Val::Text("cargo"))]));
}

#[test]
fn one_value_for_the_bulk_setter_is_refused() {
    let plan = plan_of(vec![each("args", applied("Vec", plain("String")), "arg")]);
    let mut builder: Builder<Val> = Builder::new(&plan);
    assert_eq!(builder.call("arg", Argument::One(Val::Text("a"))), Ok(()));
    assert_eq!(
        builder.call("args", Argument::One(Val::Text("b"))),
        Err(CallError::ArgumentMismatch)
    );
    assert_eq!(builder.build(), Ok(vec![FieldValue::Sequence(vec![Val::Text("a")])]));
}

#[test]
fn setters_can_be_called_by_position() {
    let plan = plan_of(vec![
        field("executable", plain("String")),
        each("args", applied("Vec", plain("String")), "arg"),
    ]);
    let mut builder: Builder<Val> = Builder::new(&plan);
    assert_eq!(builder.apply(1, Argument::One(Val::Text("a"))), Ok(()));
    assert_eq!(builder.apply(2, Argument::Many(vec![Val::Text("x")])), Ok(()));
    assert_eq!(builder.apply(1, Argument::One(Val::Text("b"))), Ok(()));
    assert_eq!(builder.apply(0, Argument::One(Val::Text("cargo"))), Ok(()));
    assert_eq!(
        builder.build(),
        Ok(vec![
            FieldValue::Required(Val::Text("cargo")),
            FieldValue::Sequence(vec![Val::Text("x"), Val::Text("b")]),
        ])
    );
}

#[test]
fn two_builders_of_one_plan_do_not_share_values() {
    let plan = plan_of(vec![each("args", applied("Vec", plain("String")), "arg")]);
    let mut first: Builder<Val> = Builder::new(&plan);
    let mut second: Builder<Val> = Builder::new(&plan);
    assert_eq!(first.call("arg", Argument::One(Val::Text("a"))), Ok(()));
    assert_eq!(second.call("arg", Argument::One(Val::Text("b"))), Ok(()));
    assert_eq!(first.build(), Ok(vec![FieldValue::Sequence(vec![Val::Text("a")])]));
    assert_eq!(second.build(), Ok(vec![FieldValue::Sequence(vec![Val::Text("b")])]));
}

#[test]
fn a_record_without_fields_builds_at_once() {
    let plan = plan_of(vec![]);
    let mut builder: Builder<Val> = Builder::new(&plan);
    assert_eq!(builder.build(), Ok(vec![]));
    assert_eq!(builder.apply(0, Argument::One(Val::Text("x"))), Err(CallError::UnknownSetter));
}

#[test]
fn an_optional_field_set_or_not_never_fails_the_build() {
    let plan = plan_of(vec![
        field("current_dir", applied("Option", plain("String"))),
        field("executable", plain("String")),
    ]);
    let mut unset: Builder<Val> = Builder::new(&plan);
    assert_eq!(unset.build(), missing("executable"));
    let mut set: Builder<Val> = Builder::new(&plan);
    assert_eq!(set.call("current_dir", Argument::One(Val::Text(".."))), Ok(()));
    assert_eq!(set.build(), missing("executable"));
    assert_eq!(unset.call("executable", Argument::One(Val::Text("cargo"))), Ok(()));
    assert_eq!(set.call("executable", Argument::One(Val::Text("cargo"))), Ok(()));
    assert_eq!(
        unset.build(),
        Ok(vec![FieldValue::Optional(None), FieldValue::Required(Val::Text("cargo"))])
    );
    assert_eq!(
        set.build(),
        Ok(vec![FieldValue::Optional(Some(Val::Text(".."))), FieldValue::Required(Val::Text("cargo"))])
    );
}
