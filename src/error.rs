use vstd::prelude::*;

verus! {

/// The typed failures of the tag-set core.
#[derive(Debug, Clone, Copy, PartialEq, Eq, Structural)]
pub enum TagError {
    /// A stored or submitted tag-set does not parse.
    MalformedTagSet,
    /// A client-supplied filter holds an identifier that is not well-formed.
    InvalidFilterInput,
    /// The cascade's consistency guarantee could not be established.
    CascadeConflict,
    /// A referenced bookmark or tag is absent.
    NotFound,
    /// The store failed underneath an operation.
    StoreUnavailable,
}

} // verus!
