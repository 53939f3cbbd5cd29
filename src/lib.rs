//! A sparse grid of typed cells, parsed from delimited text, whose formulas
//! (position references, rectangular spans and sums over spans) are resolved by a
//! bounded number of snapshot-then-update passes.
//!
//! Numbers are held as fixed-point integers; evaluating a cell's arithmetic
//! expression is left to the caller, which hands the outcome to `grid_from_fields`.
use vstd::prelude::*;

pub mod cell;
pub mod driver;
pub mod grid;
pub mod pos;
pub mod resolve;
pub mod split;
pub mod text;

verus! {

} // verus!
