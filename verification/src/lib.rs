//! A verified ownership registry.
//!
//! The registry associates an opaque identifier with an owning principal,
//! lets the current owner transfer ownership, and offers a read-only owner
//! lookup.  The `registry` module holds the data types and the operations,
//! each specified against an abstract map from identifier to owner; the
//! `laws` module states and proves the access-control properties of the
//! resulting state machine.

pub mod laws;
pub mod registry;
