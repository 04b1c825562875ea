//! Vectors that are never empty, and a cursor that removes chosen elements from one
//! while it stays non-empty.

pub mod range;
pub mod non_empty;
pub mod drain_filter;
pub mod convert;
pub mod laws;

pub use crate::drain_filter::DrainFilter;
pub use crate::non_empty::{EmptyError, NonEmpty};
