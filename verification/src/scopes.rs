use vstd::prelude::*;

use crate::token::TypeToken;

verus! {

/// The lifetime policy attached to a builder.
///
/// * `Agnostic` components carry no state of their own and are compatible
///   with every other scope.
/// * `Transient` components are created afresh on every request.
/// * `Cached` components are cached per an external cache object of the given
///   type (for example per transaction), so they live as long as that cache.
/// * `Singleton` components are created once and shared for the lifetime of
///   the registry.
#[derive(Clone, Copy, PartialEq, Eq, Structural, Debug)]
pub enum ScopeKind {
    Agnostic,
    Transient,
    Cached(TypeToken),
    Singleton,
}

/// Orders scopes by how long their instances live: agnostic components are
/// compatible with anything, then transient, then cache-bound, then singleton.
pub open spec fn scope_breadth(s: ScopeKind) -> int {
    match s {
        ScopeKind::Agnostic => 0,
        ScopeKind::Transient => 1,
        ScopeKind::Cached(_) => 2,
        ScopeKind::Singleton => 3,
    }
}

/// A dependency must not be shorter-lived than the component that caches it,
/// except that agnostic dependencies are always safe.
pub open spec fn scope_compatible(owner: ScopeKind, dep: ScopeKind) -> bool {
    dep is Agnostic || scope_breadth(dep) >= scope_breadth(owner)
}

/// A lifetime-management strategy for instances produced by a builder.
pub trait Scope {
    /// Which lifetime policy this strategy stands for.
    spec fn spec_kind(&self) -> ScopeKind;

    /// Returns the lifetime policy this strategy stands for.
    fn kind(&self) -> (k: ScopeKind)
        ensures
            k == self.spec_kind(),
    ;
}

/// Never caches: every resolution produces a new instance.
pub struct Transient;

impl Transient {
    pub fn new() -> (s: Transient) {
        Transient {}
    }
}

impl Scope for Transient {
    open spec fn spec_kind(&self) -> ScopeKind {
        ScopeKind::Transient
    }

    fn kind(&self) -> (k: ScopeKind) {
        ScopeKind::Transient
    }
}

/// Caches one instance upon first creation for the registry's whole lifetime.
pub struct Singleton;

impl Singleton {
    pub fn new() -> (s: Singleton) {
        Singleton {}
    }
}

impl Scope for Singleton {
    open spec fn spec_kind(&self) -> ScopeKind {
        ScopeKind::Singleton
    }

    fn kind(&self) -> (k: ScopeKind) {
        ScopeKind::Singleton
    }
}

/// A compatibility marker for scopes whose components carry no state,
/// making them safe to inject anywhere.
pub struct Agnostic;

impl Agnostic {
    pub fn new() -> (s: Agnostic) {
        Agnostic {}
    }
}

impl Scope for Agnostic {
    open spec fn spec_kind(&self) -> ScopeKind {
        ScopeKind::Agnostic
    }

    fn kind(&self) -> (k: ScopeKind) {
        ScopeKind::Agnostic
    }
}

/// An object that holds cached instances for [`Cached`]-scoped builders.
///
/// The cache is itself registered in a catalog (usually a chained, shorter
/// lived layer), and resolved as an ordinary dependency when a cached builder
/// needs its slot: dropping the layer that owns the cache releases every
/// instance cached through it.
pub trait Cache {
    /// The type identity under which this cache is registered.
    spec fn spec_cache_type(&self) -> TypeToken;

    /// Returns the type identity under which this cache is registered.
    fn cache_type(&self) -> (t: TypeToken)
        ensures
            t == self.spec_cache_type(),
    ;
}

/// Caches instances inside a cache object of the given type, which must be
/// registered in the catalog for resolution to succeed.
pub struct Cached {
    pub cache: TypeToken,
}

impl Cached {
    pub fn new(cache: TypeToken) -> (s: Cached)
        ensures
            s.cache == cache,
    {
        Cached { cache }
    }
}

impl Scope for Cached {
    open spec fn spec_kind(&self) -> ScopeKind {
        ScopeKind::Cached(self.cache)
    }

    fn kind(&self) -> (k: ScopeKind) {
        ScopeKind::Cached(self.cache)
    }
}

/// The plain cache object used for transaction-scoped components.
///
/// Register one value of this type in a chained catalog layer to open a
/// transaction; builders under `Cached` scope keyed to the same type share
/// instances for as long as that layer lives.
pub struct TransactionCache {
    pub cache_type: TypeToken,
}

impl TransactionCache {
    pub fn new(cache_type: TypeToken) -> (c: TransactionCache)
        ensures
            c.cache_type == cache_type,
    {
        TransactionCache { cache_type }
    }
}

impl Cache for TransactionCache {
    open spec fn spec_cache_type(&self) -> TypeToken {
        self.cache_type
    }

    fn cache_type(&self) -> (t: TypeToken) {
        self.cache_type
    }
}

/// A general-purpose cache object for [`Cached`]-scoped builders.
pub struct CacheImpl {
    pub cache_type: TypeToken,
}

impl CacheImpl {
    pub fn new(cache_type: TypeToken) -> (c: CacheImpl)
        ensures
            c.cache_type == cache_type,
    {
        CacheImpl { cache_type }
    }
}

impl Cache for CacheImpl {
    open spec fn spec_cache_type(&self) -> TypeToken {
        self.cache_type
    }

    fn cache_type(&self) -> (t: TypeToken) {
        self.cache_type
    }
}

} // verus!
