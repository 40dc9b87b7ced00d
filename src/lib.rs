//! A small document service over one collection of workouts: identifiers,
//! the document model, an in-memory collection with the service's
//! operations, and the laws those operations obey.

pub mod object_id;
pub mod workout;
pub mod model;
pub mod collection;
pub mod laws;
