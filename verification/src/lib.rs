//! A generic, type-tagged dynamic array: one storage buffer of machine-word
//! slots behind a uniform container API, with a variant tag that selects how
//! each slot is read — either a raw word (IDs, opaque values) or an owned
//! structured record (a geolocation entry) with typed field accessors.

pub mod array;
pub mod decimal;
pub mod location;
pub mod sorting;
