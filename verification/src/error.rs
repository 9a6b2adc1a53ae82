//! What can go wrong: a record is refused, a call of a setter is refused, a
//! record cannot be built yet.

use crate::record::SourceLocation;
use vstd::prelude::*;

verus! {

/// A defect of the record description. Any one of them refuses the whole
/// record: no part of a plan is handed out.
#[derive(Debug, Clone, PartialEq, Eq)]
pub enum GenerationError {
    /// An annotation holds a key other than the recognized one.
    UnsupportedAnnotationKey { key: String, location: SourceLocation },
    /// An annotation holds the recognized key, but its value is no plain
    /// string literal.
    MalformedAnnotationValue { location: SourceLocation },
    /// The record is not a structure with named fields.
    UnsupportedRecordShape,
    /// A field asks for a per-element setter, but its declared type is not a
    /// sequence of one element type.
    SequenceExpected { field: String, location: SourceLocation },
}

/// What a [`GenerationError`] denotes.
pub enum GenerationErrorModel {
    UnsupportedAnnotationKey { key: Seq<char>, location: SourceLocation },
    MalformedAnnotationValue { location: SourceLocation },
    UnsupportedRecordShape,
    SequenceExpected { field: Seq<char>, location: SourceLocation },
}

impl View for GenerationError {
    type V = GenerationErrorModel;

    open spec fn view(&self) -> GenerationErrorModel {
        match self {
            GenerationError::UnsupportedAnnotationKey { key, location } => {
                GenerationErrorModel::UnsupportedAnnotationKey { key: key@, location: *location }
            },
            GenerationError::MalformedAnnotationValue { location } => {
                GenerationErrorModel::MalformedAnnotationValue { location: *location }
            },
            GenerationError::UnsupportedRecordShape => GenerationErrorModel::UnsupportedRecordShape,
            GenerationError::SequenceExpected { field, location } => {
                GenerationErrorModel::SequenceExpected { field: field@, location: *location }
            },
        }
    }
}

/// Why a call of a setter is refused. The builder is then left as it was.
#[derive(Debug, Clone, Copy, PartialEq, Eq)]
pub enum CallError {
    /// The plan has no such setter.
    UnknownSetter,
    /// The setter takes one value and was given a sequence, or the reverse.
    ArgumentMismatch,
}

/// Why a record cannot be built yet.
#[derive(Debug, Clone, PartialEq, Eq)]
pub enum BuildError {
    /// A required field has not been set. Set it and build again.
    MissingRequiredField { field: String },
}

/// What a [`BuildError`] denotes.
pub enum BuildErrorModel {
    MissingRequiredField { field: Seq<char> },
}

impl View for BuildError {
    type V = BuildErrorModel;

    open spec fn view(&self) -> BuildErrorModel {
        match self {
            BuildError::MissingRequiredField { field } => BuildErrorModel::MissingRequiredField {
                field: field@,
            },
        }
    }
}

} // verus!
