use vstd::prelude::*;

use crate::token::TypeToken;

verus! {

/// How a single dependency is resolved from the catalog.
///
/// * `One` requires exactly one matching binding (anything else is an error).
/// * `All` resolves every matching binding, in order; zero matches is fine.
/// * `MaybeOf` absorbs an "unregistered" outcome of its inner strategy into
///   an absent value; every other error still propagates.
/// * `LazyOf` captures the catalog and defers its inner strategy until the
///   returned handle is invoked.
#[derive(Debug, PartialEq, Eq)]
pub enum DepKind {
    One,
    All,
    MaybeOf(Box<DepKind>),
    LazyOf(Box<DepKind>),
}

impl Clone for DepKind {
    fn clone(&self) -> (r: Self)
        ensures
            r == *self,
        decreases *self,
    {
        match self {
            DepKind::One => DepKind::One,
            DepKind::All => DepKind::All,
            DepKind::MaybeOf(inner) => DepKind::MaybeOf(Box::new((**inner).clone())),
            DepKind::LazyOf(inner) => DepKind::LazyOf(Box::new((**inner).clone())),
        }
    }
}

/// Structural size of a resolution strategy; bounds the recursion spent on it.
pub open spec fn kind_size(k: DepKind) -> nat
    decreases k,
{
    match k {
        DepKind::One => 1,
        DepKind::All => 1,
        DepKind::MaybeOf(inner) => 1 + kind_size(*inner),
        DepKind::LazyOf(inner) => 1 + kind_size(*inner),
    }
}

/// Whether the strategy fails when the interface has no binding at all.
pub open spec fn kind_requires_presence(k: DepKind) -> bool
    decreases k,
{
    match k {
        DepKind::One => true,
        DepKind::All => false,
        DepKind::MaybeOf(_) => false,
        DepKind::LazyOf(inner) => kind_requires_presence(*inner),
    }
}

/// Whether the strategy ultimately demands a single binding, so that two or
/// more matches are ambiguous.
pub open spec fn kind_single(k: DepKind) -> bool
    decreases k,
{
    match k {
        DepKind::One => true,
        DepKind::All => false,
        DepKind::MaybeOf(inner) => kind_single(*inner),
        DepKind::LazyOf(inner) => kind_single(*inner),
    }
}

/// The outermost constructor of a strategy, recorded in diagnostic frames.
#[derive(Clone, Copy, PartialEq, Eq, Structural, Debug)]
pub enum SpecTag {
    One,
    All,
    Maybe,
    Lazy,
}

/// The diagnostic tag of a strategy.
pub open spec fn kind_tag(k: DepKind) -> SpecTag {
    match k {
        DepKind::One => SpecTag::One,
        DepKind::All => SpecTag::All,
        DepKind::MaybeOf(_) => SpecTag::Maybe,
        DepKind::LazyOf(_) => SpecTag::Lazy,
    }
}

impl DepKind {
    /// The diagnostic tag of this strategy.
    pub fn tag(&self) -> (t: SpecTag)
        ensures
            t == kind_tag(*self),
    {
        match self {
            DepKind::One => SpecTag::One,
            DepKind::All => SpecTag::All,
            DepKind::MaybeOf(_) => SpecTag::Maybe,
            DepKind::LazyOf(_) => SpecTag::Lazy,
        }
    }
}

impl DepKind {
    /// Whether this strategy fails when the interface has no binding.
    pub fn requires_presence(&self) -> (r: bool)
        ensures
            r == kind_requires_presence(*self),
        decreases kind_size(*self),
    {
        match self {
            DepKind::One => true,
            DepKind::All => false,
            DepKind::MaybeOf(_) => false,
            DepKind::LazyOf(inner) => (**inner).requires_presence(),
        }
    }

    /// Whether this strategy ultimately demands a single binding.
    pub fn single(&self) -> (r: bool)
        ensures
            r == kind_single(*self),
        decreases kind_size(*self),
    {
        match self {
            DepKind::One => true,
            DepKind::All => false,
            DepKind::MaybeOf(inner) => (**inner).single(),
            DepKind::LazyOf(inner) => (**inner).single(),
        }
    }
}

/// One declared dependency of a builder: which interface it needs, how it is
/// resolved, and whether its value was already supplied at registration time
/// (a supplied dependency never touches the catalog and always validates).
#[derive(Debug, PartialEq, Eq)]
pub struct Dependency {
    pub iface: TypeToken,
    pub kind: DepKind,
    pub supplied: bool,
}

impl Clone for Dependency {
    fn clone(&self) -> (r: Self)
        ensures
            r == *self,
    {
        Dependency { iface: self.iface, kind: self.kind.clone(), supplied: self.supplied }
    }
}

/// Resolves a single instance of a type satisfying the interface; zero or
/// several candidates are errors.
#[derive(Clone, Copy, PartialEq, Eq, Structural, Debug)]
pub struct OneOf {
    pub iface: TypeToken,
}

impl OneOf {
    pub fn new(iface: TypeToken) -> (s: OneOf)
        ensures
            s.iface == iface,
    {
        OneOf { iface }
    }
}

/// Resolves every registered implementation of the interface, local layer
/// first, then the chained parents, in registration order.
#[derive(Clone, Copy, PartialEq, Eq, Structural, Debug)]
pub struct AllOf {
    pub iface: TypeToken,
}

impl AllOf {
    pub fn new(iface: TypeToken) -> (s: AllOf)
        ensures
            s.iface == iface,
    {
        AllOf { iface }
    }
}

/// Wraps another strategy; an unregistered interface becomes an absent value
/// instead of an error.
#[derive(Debug, PartialEq, Eq)]
pub struct Maybe {
    pub iface: TypeToken,
    pub inner: DepKind,
}

impl Maybe {
    pub fn new(iface: TypeToken, inner: DepKind) -> (s: Maybe)
        ensures
            s.iface == iface,
            s.inner == inner,
    {
        Maybe { iface, inner }
    }
}

} // verus!
