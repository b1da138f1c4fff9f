//! Typed failures returned by the mutation and query API.
use vstd::prelude::*;

verus! {

/// The kind of entity an id failed to resolve to.
#[derive(Clone, Copy, Debug, PartialEq, Eq, Structural)]
pub enum EntityKind {
    Category,
    Task,
    User,
    ChecklistItem,
}

/// A typed failure of a mutation or query.
#[derive(Clone, Copy, Debug, PartialEq, Eq, Structural)]
pub enum ProjectError {
    /// The id does not resolve to an entity of this kind.
    NotFound(EntityKind, u64),
    /// The operation would leave an id reference dangling.
    InvalidReference,
}

} // verus!
