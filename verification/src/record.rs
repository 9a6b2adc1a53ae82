//! The description of a record type that the generator works from: an ordered
//! list of fields, each with a name, a declared type and the raw payload of
//! its annotation, if it carries one.

use vstd::prelude::*;

verus! {

/// A syntactic type reference. The generator looks no deeper than the outer
/// constructor and the number of its generic arguments.
#[derive(Debug, PartialEq, Eq)]
pub enum TypeExpression {
    /// A named constructor applied to its generic arguments, as in `Vec<String>`.
    /// A plain name such as `String` has no arguments.
    Named { constructor: String, arguments: Vec<TypeExpression> },
    /// Any other type (a reference, a tuple, a qualified path), kept as its source text.
    Opaque { text: String },
}

/// What a [`TypeExpression`] denotes.
pub enum TypeModel {
    Named { constructor: Seq<char>, arguments: Seq<TypeModel> },
    Opaque { text: Seq<char> },
}

impl View for TypeExpression {
    type V = TypeModel;

    open spec fn view(&self) -> TypeModel
        decreases self,
    {
        match self {
            TypeExpression::Named { constructor, arguments } => TypeModel::Named {
                constructor: constructor@,
                arguments: Seq::new(
                    arguments.len() as nat,
                    |i: int|
                        if 0 <= i < arguments.len() {
                            arguments[i].view()
                        } else {
                            TypeModel::Opaque { text: Seq::empty() }
                        },
                ),
            },
            TypeExpression::Opaque { text } => TypeModel::Opaque { text: text@ },
        }
    }
}

impl Clone for TypeExpression {
    /// A deep copy: it denotes the same type.
    fn clone(&self) -> (copy: TypeExpression)
        ensures
            copy@ == self@,
        decreases self,
    {
        match self {
            TypeExpression::Named { constructor, arguments } => {
                let mut copies: Vec<TypeExpression> = Vec::new();
                let mut i: usize = 0;
                while i < arguments.len()
                    invariant
                        self is Named,
                        self->arguments == *arguments,
                        i <= arguments.len(),
                        copies.len() == i,
                        forall|k: int| 0 <= k < i ==> copies[k]@ == arguments[k]@,
                    decreases arguments.len() - i,
                {
                    let copy = arguments[i].clone();
                    copies.push(copy);
                    i += 1;
                }
                let copy = TypeExpression::Named {
                    constructor: constructor.clone(),
                    arguments: copies,
                };
                assert(copy@->arguments =~= self@->arguments);
                copy
            },
            TypeExpression::Opaque { text } => TypeExpression::Opaque { text: text.clone() },
        }
    }
}

/// A position in the source declaration.
#[derive(Debug, Clone, Copy, PartialEq, Eq)]
pub struct SourceLocation {
    pub line: u32,
    pub column: u32,
}

/// The right-hand side of one `key = value` entry of an annotation.
#[derive(Debug, Clone, PartialEq, Eq)]
pub enum AnnotationValue {
    /// A plain string literal, with its contents.
    Text(String),
    /// Anything else: another literal, a nested list, or no value at all.
    Other,
}

/// What an [`AnnotationValue`] denotes.
pub enum AnnotationValueModel {
    Text(Seq<char>),
    Other,
}

impl View for AnnotationValue {
    type V = AnnotationValueModel;

    open spec fn view(&self) -> AnnotationValueModel {
        match self {
            AnnotationValue::Text(text) => AnnotationValueModel::Text(text@),
            AnnotationValue::Other => AnnotationValueModel::Other,
        }
    }
}

/// One entry of the list that a field's annotation holds.
#[derive(Debug, Clone, PartialEq, Eq)]
pub struct AnnotationEntry {
    pub key: String,
    pub value: AnnotationValue,
    pub location: SourceLocation,
}

/// What an [`AnnotationEntry`] denotes.
pub struct EntryModel {
    pub key: Seq<char>,
    pub value: AnnotationValueModel,
    pub location: SourceLocation,
}

impl View for AnnotationEntry {
    type V = EntryModel;

    open spec fn view(&self) -> EntryModel {
        EntryModel { key: self.key@, value: self.value@, location: self.location }
    }
}

/// One field of the record, as the source declares it.
#[derive(Debug, Clone, PartialEq, Eq)]
pub struct FieldDescription {
    pub name: String,
    pub declared_type: TypeExpression,
    /// The entries of the field's annotation, in source order; `None` where
    /// the field carries no annotation.
    pub annotation: Option<Vec<AnnotationEntry>>,
    pub location: SourceLocation,
}

/// What a [`FieldDescription`] denotes.
pub struct FieldModel {
    pub name: Seq<char>,
    pub declared_type: TypeModel,
    pub annotation: Option<Seq<EntryModel>>,
    pub location: SourceLocation,
}

impl View for FieldDescription {
    type V = FieldModel;

    open spec fn view(&self) -> FieldModel {
        FieldModel {
            name: self.name@,
            declared_type: self.declared_type@,
            annotation: match self.annotation {
                Some(entries) => Some(entries@.map_values(|e: AnnotationEntry| e@)),
                None => None,
            },
            location: self.location,
        }
    }
}

/// The kind of declaration that a record description was taken from.
#[derive(Debug, Clone, Copy, PartialEq, Eq)]
pub enum RecordKind {
    /// A structure whose fields are named: the one kind the generator accepts.
    NamedFields,
    /// A structure whose fields are positional.
    Tuple,
    /// A structure without fields.
    Unit,
    Enumeration,
    Union,
}

/// A record type: its name, its kind and its fields in declaration order.
#[derive(Debug, Clone, PartialEq, Eq)]
pub struct RecordDescription {
    pub name: String,
    pub kind: RecordKind,
    pub fields: Vec<FieldDescription>,
}

/// What a [`RecordDescription`] denotes.
pub struct RecordModel {
    pub name: Seq<char>,
    pub kind: RecordKind,
    pub fields: Seq<FieldModel>,
}

impl View for RecordDescription {
    type V = RecordModel;

    open spec fn view(&self) -> RecordModel {
        RecordModel {
            name: self.name@,
            kind: self.kind,
            fields: self.fields@.map_values(|f: FieldDescription| f@),
        }
    }
}

impl RecordModel {
    /// A field is identified by its name: no two fields share one.
    pub open spec fn names_distinct(self) -> bool {
        forall|i: int, j: int|
            0 <= i < j < self.fields.len() ==> self.fields[i].name != self.fields[j].name
    }
}

} // verus!
