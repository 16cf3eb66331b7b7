//! Project tracking: the rules of the `gest` command line, its store and its
//! web dashboard, apart from the I/O that carries them out.
pub mod cli;
pub mod config;
pub mod model;
pub mod outside;
pub mod seqs;
pub mod store;
pub mod text;
pub mod time;
pub mod web;
