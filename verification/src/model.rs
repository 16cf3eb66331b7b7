//! The kinds of things that a project holds, and how they relate.
use vstd::prelude::*;

verus! {

/// A kind of entity that a project owns.
#[derive(Clone, Copy, Debug, PartialEq, Eq, Structural)]
pub enum EntityType {
    Artifact,
    Iteration,
    Task,
}

/// How the source of a relationship relates to its target.
#[derive(Clone, Copy, Debug, PartialEq, Eq, Structural)]
pub enum RelationshipType {
    BlockedBy,
    Blocks,
    ChildOf,
    ParentOf,
    RelatesTo,
}

} // verus!
