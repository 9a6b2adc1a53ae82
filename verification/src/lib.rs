//! Plans the companion builder of a record type.
//!
//! A record is described by its fields: a name, a declared type and the raw
//! payload of an annotation for each. The classifier ([`classify`]) gives
//! every field a shape, the plan builder ([`plan`]) turns the shapes into
//! the layout, the initializer, the setters and the build step of the
//! builder, and [`builder`] is a builder that follows such a plan.
//! [`semantics`] says what a plan means, and [`laws`] what then holds of
//! every plan. [`error`] lists what can go wrong on the way.

pub mod basics;
pub mod builder;
pub mod classify;
pub mod combinations;
pub mod error;
pub mod laws;
pub mod patterns;
pub mod plan;
pub mod record;
pub mod scan;
pub mod semantics;
