//! Typed, columnar batches from spreadsheet grids.
//!
//! A [`grid::Grid`] of heterogeneous cells is turned into a [`schema::Schema`]
//! (one field per column, its type inferred from a sample row, its name made
//! unique), then into one homogeneously typed [`column::ColumnArray`] per
//! field, assembled into a row-aligned [`batch::Batch`].

pub mod batch;
pub mod cell;
pub mod column;
pub mod error;
pub mod grid;
pub mod naming;
pub mod schema;
pub mod sheet;
pub mod table;
