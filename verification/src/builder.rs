use vstd::prelude::*;

use crate::deps::DepKind;
use crate::deps::Dependency;
use crate::scopes::Scope;
use crate::scopes::ScopeKind;
use crate::token::InterfaceDesc;
use crate::token::TypeToken;

verus! {

/// The unit of construction: describes how instances of one concrete type are
/// produced.
///
/// A builder records the type it supplies, the scope governing the lifetime
/// of its instances, the interfaces the type satisfies, the dependencies it
/// needs resolved before construction, and an open bag of metadata tags.
/// Builders for pre-built values additionally carry the value itself.
/// Records are assembled before registration and never change afterwards.
#[derive(Debug, PartialEq, Eq)]
pub struct Builder {
    pub instance_type: TypeToken,
    pub scope: ScopeKind,
    pub interfaces: Vec<TypeToken>,
    pub dependencies: Vec<Dependency>,
    pub metadata: Vec<u64>,
    pub value: u64,
    pub bind_default: bool,
}

impl Builder {
    /// A builder for the given concrete type: transient, with no interfaces,
    /// dependencies or metadata, and with default interface binding on.
    pub fn new(instance_type: TypeToken) -> (b: Builder)
        ensures
            b.instance_type == instance_type,
            b.scope == ScopeKind::Transient,
            b.interfaces@ == Seq::<TypeToken>::empty(),
            b.dependencies@ == Seq::<Dependency>::empty(),
            b.metadata@ == Seq::<u64>::empty(),
            b.value == 0,
            b.bind_default,
    {
        let b = Builder {
            instance_type,
            scope: ScopeKind::Transient,
            interfaces: Vec::new(),
            dependencies: Vec::new(),
            metadata: Vec::new(),
            value: 0,
            bind_default: true,
        };
        proof {
            assert(b.interfaces@ =~= Seq::<TypeToken>::empty());
            assert(b.dependencies@ =~= Seq::<Dependency>::empty());
            assert(b.metadata@ =~= Seq::<u64>::empty());
        }
        b
    }

    /// This builder, governed by the given scope.
    pub fn with_scope<S: Scope>(self, scope: &S) -> (b: Builder)
        ensures
            b == (Builder { scope: scope.spec_kind(), ..self }),
    {
        Builder { scope: scope.kind(), ..self }
    }

    /// This builder, governed by the given scope kind.
    pub fn with_scope_kind(self, scope: ScopeKind) -> (b: Builder)
        ensures
            b == (Builder { scope, ..self }),
    {
        Builder { scope, ..self }
    }

    /// This builder, additionally declaring that its type satisfies the given
    /// interface.
    pub fn with_interface(self, iface: TypeToken) -> (b: Builder)
        ensures
            b.instance_type == self.instance_type,
            b.scope == self.scope,
            b.interfaces@ == self.interfaces@.push(iface),
            b.dependencies@ == self.dependencies@,
            b.metadata@ == self.metadata@,
            b.value == self.value,
            b.bind_default == self.bind_default,
    {
        let mut interfaces = self.interfaces;
        interfaces.push(iface);
        Builder { interfaces, ..self }
    }

    /// This builder, additionally requiring the given dependency, resolved by
    /// the given strategy.
    pub fn with_dependency(self, iface: TypeToken, kind: DepKind) -> (b: Builder)
        ensures
            b.instance_type == self.instance_type,
            b.scope == self.scope,
            b.interfaces@ == self.interfaces@,
            b.dependencies@ == self.dependencies@.push(
                Dependency { iface, kind, supplied: false },
            ),
            b.metadata@ == self.metadata@,
            b.value == self.value,
            b.bind_default == self.bind_default,
    {
        let mut dependencies = self.dependencies;
        dependencies.push(Dependency { iface, kind, supplied: false });
        Builder { dependencies, ..self }
    }

    /// This builder, with the given dependency marked as already supplied at
    /// registration time: it is never resolved from the catalog and always
    /// validates.
    pub fn with_supplied_dependency(self, iface: TypeToken, kind: DepKind) -> (b: Builder)
        ensures
            b.instance_type == self.instance_type,
            b.scope == self.scope,
            b.interfaces@ == self.interfaces@,
            b.dependencies@ == self.dependencies@.push(
                Dependency { iface, kind, supplied: true },
            ),
            b.metadata@ == self.metadata@,
            b.value == self.value,
            b.bind_default == self.bind_default,
    {
        let mut dependencies = self.dependencies;
        dependencies.push(Dependency { iface, kind, supplied: true });
        Builder { dependencies, ..self }
    }

    /// This builder, with one more metadata tag attached.
    pub fn with_metadata(self, meta: u64) -> (b: Builder)
        ensures
            b.instance_type == self.instance_type,
            b.scope == self.scope,
            b.interfaces@ == self.interfaces@,
            b.dependencies@ == self.dependencies@,
            b.metadata@ == self.metadata@.push(meta),
            b.value == self.value,
            b.bind_default == self.bind_default,
    {
        let mut metadata = self.metadata;
        metadata.push(meta);
        Builder { metadata, ..self }
    }

    /// This builder, carrying the given pre-built value.
    pub fn with_value(self, value: u64) -> (b: Builder)
        ensures
            b == (Builder { value, ..self }),
    {
        Builder { value, ..self }
    }

    /// This builder, with automatic binding of its declared interfaces
    /// switched off, so that registration binds only the concrete type.
    pub fn without_default_interfaces(self) -> (b: Builder)
        ensures
            b == (Builder { bind_default: false, ..self }),
    {
        Builder { bind_default: false, ..self }
    }
}

impl Clone for Builder {
    fn clone(&self) -> (r: Self)
        ensures
            r.instance_type == self.instance_type,
            r.scope == self.scope,
            r.interfaces@ == self.interfaces@,
            r.dependencies@ == self.dependencies@,
            r.metadata@ == self.metadata@,
            r.value == self.value,
            r.bind_default == self.bind_default,
    {
        let mut dependencies: Vec<Dependency> = Vec::new();
        let mut i: usize = 0;
        while i < self.dependencies.len()
            invariant
                i <= self.dependencies.len(),
                dependencies@ == self.dependencies@.take(i as int),
            decreases self.dependencies.len() - i,
        {
            dependencies.push(self.dependencies[i].clone());
            proof {
                assert(dependencies@ =~= self.dependencies@.take(i + 1));
            }
            i = i + 1;
        }
        proof {
            assert(dependencies@ =~= self.dependencies@);
        }
        Builder {
            instance_type: self.instance_type,
            scope: self.scope,
            interfaces: clone_tokens(&self.interfaces),
            dependencies,
            metadata: clone_meta(&self.metadata),
            value: self.value,
            bind_default: self.bind_default,
        }
    }
}

fn clone_tokens(v: &Vec<TypeToken>) -> (r: Vec<TypeToken>)
    ensures
        r@ == v@,
{
    let mut r: Vec<TypeToken> = Vec::new();
    let mut i: usize = 0;
    while i < v.len()
        invariant
            i <= v.len(),
            r@ == v@.take(i as int),
        decreases v.len() - i,
    {
        r.push(v[i]);
        proof {
            assert(r@ =~= v@.take(i + 1));
        }
        i = i + 1;
    }
    proof {
        assert(r@ =~= v@);
    }
    r
}

fn clone_meta(v: &Vec<u64>) -> (r: Vec<u64>)
    ensures
        r@ == v@,
{
    let mut r: Vec<u64> = Vec::new();
    let mut i: usize = 0;
    while i < v.len()
        invariant
            i <= v.len(),
            r@ == v@.take(i as int),
        decreases v.len() - i,
    {
        r.push(v[i]);
        proof {
            assert(r@ =~= v@.take(i + 1));
        }
        i = i + 1;
    }
    proof {
        assert(r@ =~= v@);
    }
    r
}

/// Convenience queries over a builder's declared interfaces and metadata.
pub trait BuilderExt {
    /// The interfaces the builder's type satisfies, in declaration order.
    spec fn spec_interfaces(&self) -> Seq<TypeToken>;

    /// The metadata tags attached to the builder, in declaration order.
    spec fn spec_metadata(&self) -> Seq<u64>;

    /// Every declared interface, in declaration order.
    fn interfaces_get_all(&self) -> (r: Vec<InterfaceDesc>)
        ensures
            r@.len() == self.spec_interfaces().len(),
            forall|i: int|
                0 <= i < r@.len() ==> r@[i].type_id == self.spec_interfaces()[i],
    ;

    /// Whether the builder declares the given interface.
    fn interfaces_contain(&self, iface: TypeToken) -> (r: bool)
        ensures
            r == self.spec_interfaces().contains(iface),
    ;

    /// Whether the builder declares an interface with the given identity.
    fn interfaces_contain_type_id(&self, id: usize) -> (r: bool)
        ensures
            r == self.spec_interfaces().contains(TypeToken { id }),
    ;

    /// Every metadata tag, in declaration order.
    fn metadata_get_all(&self) -> (r: Vec<u64>)
        ensures
            r@ == self.spec_metadata(),
    ;

    /// Whether the given metadata tag is attached to the builder.
    fn metadata_contains(&self, meta: u64) -> (r: bool)
        ensures
            r == self.spec_metadata().contains(meta),
    ;
}

impl BuilderExt for Builder {
    open spec fn spec_interfaces(&self) -> Seq<TypeToken> {
        self.interfaces@
    }

    open spec fn spec_metadata(&self) -> Seq<u64> {
        self.metadata@
    }

    fn interfaces_get_all(&self) -> (r: Vec<InterfaceDesc>) {
        let mut r: Vec<InterfaceDesc> = Vec::new();
        let mut i: usize = 0;
        while i < self.interfaces.len()
            invariant
                i <= self.interfaces.len(),
                r@.len() == i,
                forall|k: int| 0 <= k < i ==> r@[k].type_id == self.interfaces@[k],
            decreases self.interfaces.len() - i,
        {
            r.push(InterfaceDesc { type_id: self.interfaces[i] });
            i = i + 1;
        }
        r
    }

    fn interfaces_contain(&self, iface: TypeToken) -> (r: bool) {
        self.interfaces_contain_type_id(iface.id)
    }

    fn interfaces_contain_type_id(&self, id: usize) -> (r: bool) {
        let mut i: usize = 0;
        while i < self.interfaces.len()
            invariant
                i <= self.interfaces.len(),
                forall|k: int| 0 <= k < i ==> self.interfaces@[k] != (TypeToken { id }),
            decreases self.interfaces.len() - i,
        {
            if self.interfaces[i].id == id {
                return true;
            }
            i = i + 1;
        }
        false
    }

    fn metadata_get_all(&self) -> (r: Vec<u64>) {
        clone_meta(&self.metadata)
    }

    fn metadata_contains(&self, meta: u64) -> (r: bool) {
        let mut i: usize = 0;
        while i < self.metadata.len()
            invariant
                i <= self.metadata.len(),
                forall|k: int| 0 <= k < i ==> self.metadata@[k] != meta,
            decreases self.metadata.len() - i,
        {
            if self.metadata[i] == meta {
                return true;
            }
            i = i + 1;
        }
        false
    }
}

/// A builder for a value that is already constructed: it always hands back
/// the same shared value, is singleton-scoped and has no dependencies.
#[derive(Clone, Copy, PartialEq, Eq, Structural, Debug)]
pub struct Prebuilt {
    pub instance_type: TypeToken,
    pub value: u64,
}

impl Prebuilt {
    /// A prebuilt builder owning the given value.
    pub fn from_value(instance_type: TypeToken, value: u64) -> (b: Prebuilt)
        ensures
            b.instance_type == instance_type,
            b.value == value,
    {
        Prebuilt { instance_type, value }
    }

    /// A prebuilt builder for a value that is already shared.
    pub fn from_shared(instance_type: TypeToken, value: u64) -> (b: Prebuilt)
        ensures
            b.instance_type == instance_type,
            b.value == value,
    {
        Prebuilt { instance_type, value }
    }

    /// The builder record this convenience wrapper stands for.
    pub fn into_builder(self) -> (b: Builder)
        ensures
            b.instance_type == self.instance_type,
            b.scope == ScopeKind::Singleton,
            b.interfaces@ == Seq::<TypeToken>::empty(),
            b.dependencies@ == Seq::<Dependency>::empty(),
            b.metadata@ == Seq::<u64>::empty(),
            b.value == self.value,
            b.bind_default,
    {
        Builder::new(self.instance_type).with_scope_kind(ScopeKind::Singleton).with_value(
            self.value,
        )
    }
}

/// A builder for a zero-argument factory: every request constructs a fresh
/// instance, and there are no dependencies.
#[derive(Clone, Copy, PartialEq, Eq, Structural, Debug)]
pub struct Factory {
    pub instance_type: TypeToken,
}

impl Factory {
    pub fn new(instance_type: TypeToken) -> (b: Factory)
        ensures
            b.instance_type == instance_type,
    {
        Factory { instance_type }
    }

    /// The builder record this convenience wrapper stands for.
    pub fn into_builder(self) -> (b: Builder)
        ensures
            b.instance_type == self.instance_type,
            b.scope == ScopeKind::Transient,
            b.interfaces@ == Seq::<TypeToken>::empty(),
            b.dependencies@ == Seq::<Dependency>::empty(),
            b.metadata@ == Seq::<u64>::empty(),
            b.value == 0,
            b.bind_default,
    {
        Builder::new(self.instance_type)
    }
}

/// A builder whose one-time construction is deferred to first access and then
/// cached, like a singleton whose cost is paid lazily.
#[derive(Clone, Copy, PartialEq, Eq, Structural, Debug)]
pub struct LazyBuilder {
    pub instance_type: TypeToken,
    pub value: u64,
}

impl LazyBuilder {
    pub fn new(instance_type: TypeToken, value: u64) -> (b: LazyBuilder)
        ensures
            b.instance_type == instance_type,
            b.value == value,
    {
        LazyBuilder { instance_type, value }
    }

    /// The builder record this convenience wrapper stands for.
    pub fn into_builder(self) -> (b: Builder)
        ensures
            b.instance_type == self.instance_type,
            b.scope == ScopeKind::Singleton,
            b.interfaces@ == Seq::<TypeToken>::empty(),
            b.dependencies@ == Seq::<Dependency>::empty(),
            b.metadata@ == Seq::<u64>::empty(),
            b.value == self.value,
            b.bind_default,
    {
        Builder::new(self.instance_type).with_scope_kind(ScopeKind::Singleton).with_value(
            self.value,
        )
    }
}

/// Wraps a builder so that registration binds only its concrete type, not
/// the interfaces it declares.
#[derive(Debug, PartialEq, Eq)]
pub struct TypedBuilderWithoudDefaultInterfaces {
    pub inner: Builder,
}

impl TypedBuilderWithoudDefaultInterfaces {
    pub fn new(inner: Builder) -> (b: TypedBuilderWithoudDefaultInterfaces)
        ensures
            b.inner == (Builder { bind_default: false, ..inner }),
    {
        TypedBuilderWithoudDefaultInterfaces { inner: inner.without_default_interfaces() }
    }

    /// The wrapped builder record.
    pub fn into_builder(self) -> (b: Builder)
        ensures
            b == self.inner,
    {
        self.inner
    }
}

} // verus!
