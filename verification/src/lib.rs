//! Predicate evaluation and column projection for row-oriented queries.
//!
//! A [`value::DataType`] is one cell of a row: an absent wildcard, a text
//! payload, or a signed integer. A [`query::Query`] holds a column-selection
//! mask and a list of conjoined conditions; it tests rows against the
//! conditions and, on a match, projects the selected columns. Conditions may
//! carry unbound placeholders that are filled later with concrete parameters.

pub mod query;
pub mod value;
