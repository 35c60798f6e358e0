//! Row filtering for delimited text: a predicate over single fields, its
//! reduction over a selection of columns, and the decisions of one pass over
//! a stream of records.

pub mod driver;
pub mod evaluate;
pub mod filter;
pub mod order;
pub mod pattern;
pub mod record;
pub mod selection;
