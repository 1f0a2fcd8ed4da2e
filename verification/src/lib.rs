//! A host-side bridge for embedding a managed, garbage-collected script
//! runtime: it loads precompiled bytecode, registers host-implemented
//! native functions under guest-visible names, dispatches guest calls into
//! host handlers with marshalled arguments, and keeps every access to
//! guest-managed memory inside an explicit scope.
//!
//! The engine itself (bytecode interpreter, collector, object model) is an
//! external collaborator; this crate verifies the bridge logic against a
//! model of the engine's observable interface.

pub mod bindings;
pub mod dispatch;
pub mod driver;
pub mod errors;
pub mod registry;
pub mod runtime;
pub mod scope;
pub mod text;
pub mod value;
