//! Schema-driven, zero-copy binary record format.
//!
//! Heterogeneous records ("tables") with optional fields are read directly
//! out of an immutable byte buffer, without a parsing pass, and written
//! incrementally by a bottom-up builder.  A table's field layout lives in a
//! separate, shareable descriptor (a vtable): each table starts with a
//! signed back-reference to its vtable, and each vtable slot holds the
//! offset of one field's inline data from the table start, or zero when the
//! field is absent.  Every byte offset derived from the buffer is
//! bounds-checked before it is dereferenced.

pub mod ast;
pub mod builder;
pub mod error;
pub mod scalar;
pub mod table;
pub mod vtable;
