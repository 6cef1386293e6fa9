//! Moving objects between prefixes of an object store: key mapping, path
//! validation, the per-object move protocol as a state machine, and the
//! tally of outcomes.
pub mod keys;
pub mod laws;
pub mod task;
pub mod worker;
