//! The field classifier: from a field's declared type and annotation to its
//! shape.

use crate::error::{GenerationError, GenerationErrorModel};
use crate::record::{
    AnnotationEntry, AnnotationValue, EntryModel, FieldDescription, FieldModel, TypeExpression,
    TypeModel,
};
use crate::scan::{first_index, lemma_first_index_is};
use vstd::pervasive::unreached;
use vstd::prelude::*;

verus! {

/// The constructor that wraps a value that may be absent.
pub open spec fn optional_wrapper() -> Seq<char> {
    "Option"@
}

/// The constructor that wraps a sequence of values.
pub open spec fn sequence_wrapper() -> Seq<char> {
    "Vec"@
}

/// The one key that an annotation may hold.
pub open spec fn recognized_key() -> Seq<char> {
    "each"@
}

/// The argument of `ty`, where `ty` is the constructor `outer` applied to
/// exactly one argument.
pub open spec fn wrapper_inner(ty: TypeModel, outer: Seq<char>) -> Option<TypeModel> {
    match ty {
        TypeModel::Named { constructor, arguments } => {
            if constructor == outer && arguments.len() == 1 {
                Some(arguments[0])
            } else {
                None
            }
        },
        TypeModel::Opaque { .. } => None,
    }
}

/// Whether an entry's key is one that the generator does not know.
pub open spec fn unsupported_key() -> spec_fn(EntryModel) -> bool {
    |e: EntryModel| e.key != recognized_key()
}

/// Whether an entry's value is anything but a plain string literal.
pub open spec fn malformed_value() -> spec_fn(EntryModel) -> bool {
    |e: EntryModel| !(e.value is Text)
}

/// The per-element setter name that an annotation asks for.
///
/// Every key is looked at before any value: the first unknown key refuses the
/// annotation, then the first value that is no string literal. Of several
/// well-formed entries the first one counts, and an empty list asks for
/// nothing.
pub open spec fn each_annotation(annotation: Option<Seq<EntryModel>>) -> Result<
    Option<Seq<char>>,
    GenerationErrorModel,
> {
    match annotation {
        None => Ok(None),
        Some(entries) => match first_index(entries, unsupported_key()) {
            Some(i) => Err(
                GenerationErrorModel::UnsupportedAnnotationKey {
                    key: entries[i].key,
                    location: entries[i].location,
                },
            ),
            None => match first_index(entries, malformed_value()) {
                Some(i) => Err(
                    GenerationErrorModel::MalformedAnnotationValue {
                        location: entries[i].location,
                    },
                ),
                None => if entries.len() == 0 {
                    Ok(None)
                } else {
                    Ok(Some(entries[0].value->Text_0))
                },
            },
        },
    }
}

/// What drives the setters and the build step of one field.
pub enum ShapeModel {
    Required(TypeModel),
    Optional(TypeModel),
    Collection { element: TypeModel, each: Seq<char> },
}

/// The shape of a field.
///
/// A defective annotation refuses the field whatever its type. Past that, a
/// type of the form `Option<T>` makes the field optional; otherwise an
/// annotation makes it a collection, and its type must then be of the form
/// `Vec<T>`; otherwise it is required.
pub open spec fn shape_of(field: FieldModel) -> Result<ShapeModel, GenerationErrorModel> {
    match each_annotation(field.annotation) {
        Err(e) => Err(e),
        Ok(each) => match wrapper_inner(field.declared_type, optional_wrapper()) {
            Some(inner) => Ok(ShapeModel::Optional(inner)),
            None => match each {
                Some(name) => match wrapper_inner(field.declared_type, sequence_wrapper()) {
                    Some(element) => Ok(ShapeModel::Collection { element, each: name }),
                    None => Err(
                        GenerationErrorModel::SequenceExpected {
                            field: field.name,
                            location: field.location,
                        },
                    ),
                },
                None => Ok(ShapeModel::Required(field.declared_type)),
            },
        },
    }
}

/// A well-formed annotation: the name of the setter that appends one element.
#[derive(Debug, Clone, PartialEq, Eq)]
pub struct EachAnnotation {
    pub singular_name: String,
}

/// The shape of a field, with the types that its setters take.
#[derive(Debug, Clone, PartialEq, Eq)]
pub enum Shape {
    /// The field must be set before the record can be built.
    Required(TypeExpression),
    /// The field was declared optional; the type is the wrapped one.
    Optional(TypeExpression),
    /// The field collects elements, one at a time through the setter `each`.
    Collection { element: TypeExpression, each: String },
}

impl View for Shape {
    type V = ShapeModel;

    open spec fn view(&self) -> ShapeModel {
        match self {
            Shape::Required(ty) => ShapeModel::Required(ty@),
            Shape::Optional(ty) => ShapeModel::Optional(ty@),
            Shape::Collection { element, each } => ShapeModel::Collection {
                element: element@,
                each: each@,
            },
        }
    }
}

/// What a result of [`inner_ty`] denotes.
pub open spec fn inner_view(found: Option<&TypeExpression>) -> Option<TypeModel> {
    match found {
        Some(ty) => Some(ty@),
        None => None,
    }
}

/// What a result of [`inner_for_attr`] denotes.
pub open spec fn annotation_view(parsed: Result<Option<EachAnnotation>, GenerationError>) -> Result<
    Option<Seq<char>>,
    GenerationErrorModel,
> {
    match parsed {
        Ok(Some(each)) => Ok(Some(each.singular_name@)),
        Ok(None) => Ok(None),
        Err(e) => Err(e@),
    }
}

/// What a result of [`classify`] denotes.
pub open spec fn shape_view(classified: Result<Shape, GenerationError>) -> Result<
    ShapeModel,
    GenerationErrorModel,
> {
    match classified {
        Ok(shape) => Ok(shape@),
        Err(e) => Err(e@),
    }
}

/// The single argument of `ty`, where `ty` is `outer_ty` applied to exactly
/// one argument.
pub fn inner_ty<'a>(ty: &'a TypeExpression, outer_ty: &str) -> (found: Option<&'a TypeExpression>)
    ensures
        inner_view(found) == wrapper_inner(ty@, outer_ty@),
{
    match ty {
        TypeExpression::Named { constructor, arguments } => {
            let outer = outer_ty.to_owned();
            if *constructor == outer && arguments.len() == 1 {
                Some(&arguments[0])
            } else {
                None
            }
        },
        TypeExpression::Opaque { .. } => None,
    }
}

/// Reads a field's annotation: the per-element setter that it asks for, if
/// it asks for one, or the reason why it is refused.
pub fn inner_for_attr(field: &FieldDescription) -> (parsed: Result<
    Option<EachAnnotation>,
    GenerationError,
>)
    ensures
        annotation_view(parsed) == each_annotation(field@.annotation),
{
    match &field.annotation {
        None => Ok(None),
        Some(entries) => {
            let ghost models = entries@.map_values(|e: AnnotationEntry| e@);
            let each = "each".to_owned();
            let mut i: usize = 0;
            while i < entries.len()
                invariant
                    i <= entries.len(),
                    each@ == recognized_key(),
                    models == entries@.map_values(|e: AnnotationEntry| e@),
                    field@.annotation == Some(models),
                    forall|j: int| 0 <= j < i ==> !unsupported_key()(#[trigger] models[j]),
                decreases entries.len() - i,
            {
                if entries[i].key != each {
                    proof {
                        lemma_first_index_is(models, unsupported_key(), i as int);
                    }
                    return Err(
                        GenerationError::UnsupportedAnnotationKey {
                            key: entries[i].key.clone(),
                            location: entries[i].location,
                        },
                    );
                }
                i += 1;
            }
            let mut i: usize = 0;
            while i < entries.len()
                invariant
                    i <= entries.len(),
                    models == entries@.map_values(|e: AnnotationEntry| e@),
                    field@.annotation == Some(models),
                    first_index(models, unsupported_key()) is None,
                    forall|j: int| 0 <= j < i ==> !malformed_value()(#[trigger] models[j]),
                decreases entries.len() - i,
            {
                match &entries[i].value {
                    AnnotationValue::Text(_) => {},
                    AnnotationValue::Other => {
                        proof {
                            lemma_first_index_is(models, malformed_value(), i as int);
                        }
                        return Err(
                            GenerationError::MalformedAnnotationValue {
                                location: entries[i].location,
                            },
                        );
                    },
                }
                i += 1;
            }
            if entries.len() == 0 {
                Ok(None)
            } else {
                match &entries[0].value {
                    AnnotationValue::Text(name) => Ok(
                        Some(EachAnnotation { singular_name: name.clone() }),
                    ),
                    AnnotationValue::Other => unreached(),
                }
            }
        },
    }
}

/// Decides the shape of a field, or says why the field is refused.
pub fn classify(field: &FieldDescription) -> (classified: Result<Shape, GenerationError>)
    ensures
        shape_view(classified) == shape_of(field@),
{
    let each = match inner_for_attr(field) {
        Ok(each) => each,
        Err(e) => {
            return Err(e);
        },
    };
    if let Some(inner) = inner_ty(&field.declared_type, "Option") {
        return Ok(Shape::Optional(inner.clone()));
    }
    match each {
        Some(each) => match inner_ty(&field.declared_type, "Vec") {
            Some(element) => Ok(
                Shape::Collection { element: element.clone(), each: each.singular_name },
            ),
            None => Err(
                GenerationError::SequenceExpected {
                    field: field.name.clone(),
                    location: field.location,
                },
            ),
        },
        None => Ok(Shape::Required(field.declared_type.clone())),
    }
}

} // verus!
