//! Enumeration of the extended attributes of a filesystem entry.
//!
//! The operating system offers two calls: one lists the names of the
//! attributes attached to a path, the other fetches the value stored under one
//! name. This crate holds everything that is decided between those calls:
//! a failed listing is fatal, a failed fetch drops that one attribute and
//! leaves a warning to be logged, and the surviving attributes come out in
//! listing order, each at most once. The calls themselves are made by the
//! caller, who hands their results in as plain values.

pub mod attr;
pub mod enumerate;
pub mod failure;
pub mod fetch;
pub mod laws;
pub mod trace;

pub use attr::ExtAttr;
pub use enumerate::{ext_attrs, Enumeration, ExtAttrs, Step};
pub use failure::{Failure, FailureKind};
pub use fetch::{ext_attr_value, Fetched, Warning};
