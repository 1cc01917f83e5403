use vstd::prelude::*;

verus! {

/// Token id under which the catalog itself can be injected as a dependency.
pub const CATALOG_TYPE_ID: usize = 0;

/// Token id under which a weak (non-owning) catalog reference can be injected.
pub const CATALOG_WEAK_TYPE_ID: usize = 1;

/// An opaque, comparable identity for a type.
///
/// Two tokens are equal exactly when they denote the same type.  The printable
/// name attached to a token lives in the registry's name table, keyed by this
/// id.  Ids `0` and `1` are reserved for the built-in catalog and weak catalog
/// reference types.
#[derive(Clone, Copy, PartialEq, Eq, Structural, Debug)]
pub struct TypeToken {
    pub id: usize,
}

impl TypeToken {
    /// The token with the given identity.
    pub fn of(id: usize) -> (t: TypeToken)
        ensures
            t.id == id,
    {
        TypeToken { id }
    }
}

/// Describes one interface that a builder's concrete type satisfies.
#[derive(Clone, Copy, PartialEq, Eq, Structural, Debug)]
pub struct InterfaceDesc {
    pub type_id: TypeToken,
}

} // verus!
