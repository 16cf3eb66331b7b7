//! What is asked of the tables of the store, one module for each kind of row.
pub mod asking;
pub mod laws;
pub mod project;
pub mod tables;
