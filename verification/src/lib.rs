//! Lays out a nested data value on a spreadsheet grid.
//!
//! A value is a scalar, a record or a list, nested to any depth. The layout
//! engine decides the row and the column of every piece of it: a record
//! becomes a table of keys and values, a list of records a table under one
//! header row, and a list of records inside either of them a nested table
//! that moves its neighbours out of the way. The result is a grid, an ordered
//! run of typed cells with their positions, for a spreadsheet writer to put
//! on a sheet.
//!
//! - `value`: the input datum and its mathematical value.
//! - `shape`: the classifier, and what a nested table measures.
//! - `binary64`, `text`, `render`: how a scalar is rendered into a cell.
//! - `grid`: cells, placements and the grid.
//! - `layout`: the layout engine.
//! - `region`, `theorems`: what holds of every layout.
//! - `sheet`: what a sheet asks of its name.
//! - `command`: the export commands, their errors and their signatures.

pub mod binary64;
pub mod command;
pub mod grid;
pub mod layout;
pub mod region;
pub mod render;
pub mod shape;
pub mod sheet;
pub mod text;
pub mod theorems;
pub mod value;
