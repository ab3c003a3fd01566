//! A small keyed-record registry with two independent instances: a student
//! registry with auto-incrementing integer keys, and a kitty registry with
//! content-derived byte-string keys, a capacity-bounded per-owner secondary
//! index, and an ownership-transfer operation.
//!
//! The host runtime is expected to authenticate callers, read the clock, and
//! persist state; the registries here receive plain actor identifiers and
//! timestamps, mutate their own state, and append typed events to an internal
//! log that the host may drain.

pub mod gender;
pub mod kitties;
pub mod students;
pub mod types;
