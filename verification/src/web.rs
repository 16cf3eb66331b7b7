//! The web dashboard: the graphs that it shows.
pub mod answers;
pub mod drawing;
pub mod label;
pub mod laws;
pub mod load;
pub mod loading;
pub mod mermaid;
pub mod nodes;
pub mod pages;
pub mod phases;
pub mod showing;
