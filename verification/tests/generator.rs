use derive_builder::error::GenerationError;
use derive_builder::plan::{
    BuildRule, Initializer, PlanField, Setter, SetterAction, StorageType,
};
use derive_builder::record::{
    AnnotationEntry, AnnotationValue, FieldDescription, RecordDescription, RecordKind,
    SourceLocation, TypeExpression,
};

fn plain(name: &str) -> TypeExpression {
    TypeExpression::Named { constructor: name.to_string(), arguments: vec![] }
}

fn applied(constructor: &str, argument: TypeExpression) -> TypeExpression {
    TypeExpression::Named { constructor: constructor.to_string(), arguments: vec![argument] }
}

fn at(line: u32, column: u32) -> SourceLocation {
    SourceLocation { line, column }
}

fn field(line: u32, name: &str, declared_type: TypeExpression) -> FieldDescription {
    FieldDescription { name: name.to_string(), declared_type, annotation: None, location: at(line, 5) }
}

fn annotated(
    line: u32,
    name: &str,
    declared_type: TypeExpression,
    key: &str,
    value: &str,
) -> FieldDescription {
    FieldDescription {
        name: name.to_string(),
        declared_type,
        annotation: Some(vec![AnnotationEntry {
            key: key.to_string(),
            value: AnnotationValue::Text(value.to_string()),
            location: at(line - 1, 15),
        }]),
        location: at(line, 5),
    }
}

fn record(kind: RecordKind, fields: Vec<FieldDescription>) -> RecordDescription {
    RecordDescription { name: "Command".to_string(), kind, fields }
}

fn store(name: &str, field: usize, parameter: TypeExpression) -> Setter {
    Setter { name: name.to_string(), field, parameter, action: SetterAction::Store }
}

#[test]
fn required_fields_are_stored_as_optional_values() {
    let strings = applied("Vec", plain("String"));
    let command = record(
        RecordKind::NamedFields,
        vec![
            field(2, "executable", plain("String")),
            field(3, "args", strings.clone()),
            field(4, "env", strings.clone()),
            field(5, "current_dir", plain("String")),
        ],
    );
    let plan = derive_builder::plan::derive(&command).unwrap();
    assert_eq!(plan.record_name(), "Command");
    assert_eq!(plan.builder_name(), "CommandBuilder");
    let required = |name: &str, ty: TypeExpression| PlanField {
        name: name.to_string(),
        storage: StorageType::Optional(ty),
        initializer: Initializer::Absent,
        build: BuildRule::Require,
    };
    assert_eq!(
        plan.fields(),
        &vec![
            required("executable", plain("String")),
            required("args", strings.clone()),
            required("env", strings.clone()),
            required("current_dir", plain("String")),
        ]
    );
    assert_eq!(
        plan.setters(),
        &vec![
            store("executable", 0, plain("String")),
            store("args", 1, strings.clone()),
            store("env", 2, strings.clone()),
            store("current_dir", 3, plain("String")),
        ]
    );
}

#[test]
fn an_optional_field_is_stored_as_declared_and_passed_through() {
    let command = record(
        RecordKind::NamedFields,
        vec![field(2, "current_dir", applied("Option", plain("String")))],
    );
    let plan = derive_builder::plan::derive(&command).unwrap();
    assert_eq!(
        plan.fields(),
        &vec![PlanField {
            name: "current_dir".to_string(),
            storage: StorageType::Optional(plain("String")),
            initializer: Initializer::Absent,
            build: BuildRule::PassThrough,
        }]
    );
    assert_eq!(plan.setters(), &vec![store("current_dir", 0, plain("String"))]);
}

#[test]
fn a_collection_gets_both_setters() {
    let strings = applied("Vec", plain("String"));
    let command = record(
        RecordKind::NamedFields,
        vec![
            field(2, "executable", plain("String")),
            annotated(4, "args", strings.clone(), "each", "arg"),
        ],
    );
    let plan = derive_builder::plan::derive(&command).unwrap();
    assert_eq!(
        plan.fields()[1],
        PlanField {
            name: "args".to_string(),
            storage: StorageType::Sequence(plain("String")),
            initializer: Initializer::Empty,
            build: BuildRule::PassThrough,
        }
    );
    assert_eq!(
        plan.setters(),
        &vec![
            store("executable", 0, plain("String")),
            Setter {
                name: "arg".to_string(),
                field: 1,
                parameter: plain("String"),
                action: SetterAction::Append,
            },
            Setter {
                name: "args".to_string(),
                field: 1,
                parameter: strings,
                action: SetterAction::Replace,
            },
        ]
    );
}

#[test]
fn a_per_element_setter_named_as_the_field_stands_alone() {
    let command = record(
        RecordKind::NamedFields,
        vec![
            annotated(3, "env", applied("Vec", plain("String")), "each", "env"),
            field(4, "current_dir", plain("String")),
        ],
    );
    let plan = derive_builder::plan::derive(&command).unwrap();
    assert_eq!(
        plan.setters(),
        &vec![
            Setter {
                name: "env".to_string(),
                field: 0,
                parameter: plain("String"),
                action: SetterAction::Append,
            },
            store("current_dir", 1, plain("String")),
        ]
    );
    assert!(plan.setters().iter().all(|s| s.action != SetterAction::Replace));
}

#[test]
fn the_plan_keeps_the_order_of_the_fields() {
    let command = record(
        RecordKind::NamedFields,
        vec![
            field(2, "zeta", plain("u8")),
            annotated(4, "items", applied("Vec", plain("u8")), "each", "item"),
            field(5, "alpha", applied("Option", plain("u8"))),
            field(6, "mid", plain("u8")),
        ],
    );
    let plan = derive_builder::plan::derive(&command).unwrap();
    let names: Vec<&str> = plan.fields().iter().map(|f| f.name.as_str()).collect();
    assert_eq!(names, vec!["zeta", "items", "alpha", "mid"]);
    let writes: Vec<usize> = plan.setters().iter().map(|s| s.field).collect();
    assert_eq!(writes, vec![0, 1, 1, 2, 3]);
}

#[test]
fn a_record_without_fields_has_an_empty_plan() {
    let plan = derive_builder::plan::derive(&record(RecordKind::NamedFields, vec![])).unwrap();
    assert!(plan.fields().is_empty());
    assert!(plan.setters().is_empty());
    assert_eq!(plan.builder_name(), "CommandBuilder");
}

#[test]
fn the_same_record_gives_the_same_plan() {
    let command = record(
        RecordKind::NamedFields,
        vec![
            field(2, "executable", plain("String")),
            annotated(4, "args", applied("Vec", plain("String")), "each", "arg"),
        ],
    );
    assert_eq!(
        derive_builder::plan::derive(&command),
        derive_builder::plan::derive(&command.clone())
    );
}

#[test]
fn only_named_fields_are_accepted() {
    for kind in [RecordKind::Tuple, RecordKind::Unit, RecordKind::Enumeration, RecordKind::Union] {
        let refused = record(kind, vec![field(2, "executable", plain("String"))]);
        assert_eq!(
            derive_builder::plan::derive(&refused),
            Err(GenerationError::UnsupportedRecordShape)
        );
    }
}

#[test]
fn the_record_shape_is_looked_at_first() {
    let refused = record(
        RecordKind::Enumeration,
        vec![annotated(3, "args", applied("Vec", plain("String")), "each2", "x")],
    );
    assert_eq!(
        derive_builder::plan::derive(&refused),
        Err(GenerationError::UnsupportedRecordShape)
    );
}

#[test]
fn unrecognized_key_fails_generation() {
    let command = record(
        RecordKind::NamedFields,
        vec![
            field(2, "executable", plain("String")),
            annotated(4, "args", applied("Vec", plain("String")), "each2", "x"),
        ],
    );
    assert_eq!(
        derive_builder::plan::derive(&command),
        Err(GenerationError::UnsupportedAnnotationKey {
            key: "each2".to_string(),
            location: at(3, 15),
        })
    );
}

#[test]
fn a_malformed_value_fails_generation() {
    let mut args = annotated(4, "args", applied("Vec", plain("String")), "each", "arg");
    args.annotation = Some(vec![AnnotationEntry {
        key: "each".to_string(),
        value: AnnotationValue::Other,
        location: at(3, 15),
    }]);
    let command = record(RecordKind::NamedFields, vec![args]);
    assert_eq!(
        derive_builder::plan::derive(&command),
        Err(GenerationError::MalformedAnnotationValue { location: at(3, 15) })
    );
}

#[test]
fn an_annotation_on_a_plain_field_fails_generation() {
    let command = record(
        RecordKind::NamedFields,
        vec![annotated(4, "executable", plain("String"), "each", "arg")],
    );
    assert_eq!(
        derive_builder::plan::derive(&command),
        Err(GenerationError::SequenceExpected { field: "executable".to_string(), location: at(4, 5) })
    );
}

#[test]
fn the_first_refused_field_is_reported() {
    let command = record(
        RecordKind::NamedFields,
        vec![
            field(2, "executable", plain("String")),
            annotated(4, "args", plain("String"), "each", "arg"),
            annotated(6, "env", applied("Vec", plain("String")), "each2", "x"),
        ],
    );
    assert_eq!(
        derive_builder::plan::derive(&command),
        Err(GenerationError::SequenceExpected { field: "args".to_string(), location: at(4, 5) })
    );
}

#[test]
fn setters_are_found_by_name() {
    let command = record(
        RecordKind::NamedFields,
        vec![
            field(2, "executable", plain("String")),
            annotated(4, "args", applied("Vec", plain("String")), "each", "arg"),
        ],
    );
    let plan = derive_builder::plan::derive(&command).unwrap();
    assert_eq!(plan.setter_named("executable"), Some(0));
    assert_eq!(plan.setter_named("arg"), Some(1));
    assert_eq!(plan.setter_named("args"), Some(2));
    assert_eq!(plan.setter_named("env"), None);
    assert_eq!(plan.setter_named(""), None);
}

#[test]
fn of_two_setters_of_one_name_the_first_is_found() {
    let command = record(
        RecordKind::NamedFields,
        vec![
            field(2, "arg", plain("String")),
            annotated(4, "args", applied("Vec", plain("String")), "each", "arg"),
        ],
    );
    let plan = derive_builder::plan::derive(&command).unwrap();
    assert_eq!(plan.setter_named("arg"), Some(0));
    assert_eq!(plan.setters()[1].name, "arg");
}
