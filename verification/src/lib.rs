//! An in-process form-suggestion engine: it stores observed form
//! submissions per user and, once trained, ranks the historical values
//! of a field as candidates for what the user will type next.
//!
//! The store lives in [`predictor`], the data model and error taxonomy
//! in [`model`], engine-wide laws in [`laws`], and the character-level
//! groundwork (ordering, decimal rendering) in [`strings`].

pub mod laws;
pub mod model;
pub mod predictor;
pub mod strings;
