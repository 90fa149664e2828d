//! Terminal model: cells, colors, the screen grid, the escape-sequence parser and search.
pub mod cell;
pub mod color;
pub mod grid;
pub mod input;
pub mod parser;
pub mod search;
pub mod selection;
