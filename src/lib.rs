//! Marshalling plans and entry-point trampolines for a tagged, garbage-collected
//! guest runtime, computed from plain descriptions of host declarations.

pub mod attrs;
pub mod derive;
pub mod entry;
pub mod example;
pub mod guest;
pub mod laws;
pub mod marshal;
