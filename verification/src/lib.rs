//! An interactive shell whose command language is an embedded scripting
//! runtime: every executable on the search path becomes a callable, and
//! built-ins bridge directory listings and process results into one tabular
//! value type.
//!
//! This crate holds the verified engine: the tabular result value and its
//! indexing, the multi-line command buffer with its cursor, the terminal
//! render planner, the listing and working-directory rules, the execution
//! arbiter's mode protocol, and the control-loop transitions. The host
//! binary around it performs the terminal, file-system and process calls
//! and feeds their results through these functions.

pub mod arbiter;
pub mod buffer;
pub mod listing;
pub mod render;
pub mod repl;
pub mod table;
pub mod text;
