use vstd::prelude::*;

use crate::catalog::Catalog;
use crate::catalog::CatalogWeakRef;
use crate::deps::DepKind;
use crate::token::TypeToken;

verus! {

/// A handle to a dependency whose resolution was deferred: it captures the
/// catalog it was created against and re-runs the inner strategy only when
/// invoked.
#[derive(Debug, PartialEq, Eq)]
pub struct Lazy {
    pub catalog: Catalog,
    pub iface: TypeToken,
    pub kind: DepKind,
}

impl Clone for Lazy {
    fn clone(&self) -> (r: Self)
        ensures
            r == *self,
    {
        Lazy { catalog: self.catalog, iface: self.iface, kind: self.kind.clone() }
    }
}

/// The value a resolved dependency contributed to an instance.
#[derive(Debug, PartialEq, Eq)]
pub enum DepValue {
    /// A single instance, by serial.
    One(usize),
    /// Every matching instance, by serial, in binding order.
    Many(Vec<usize>),
    /// An optional dependency whose interface had no binding.
    Absent,
    /// A dependency whose value was supplied at registration time.
    Supplied,
    /// A deferred dependency, to be resolved when the handle is invoked.
    Deferred(Lazy),
    /// The catalog itself, injected as a dependency.
    Cat(Catalog),
    /// A weak reference to the catalog chain.
    CatWeak(CatalogWeakRef),
}

/// The mathematical value of a [`DepValue`].  Serials are unbounded
/// integers in the model.
#[verifier::ext_equal]
pub enum DepValueV {
    One(int),
    Many(Seq<int>),
    Absent,
    Supplied,
    Deferred(Lazy),
    Cat(Catalog),
    CatWeak(Seq<usize>),
}

impl View for DepValue {
    type V = DepValueV;

    open spec fn view(&self) -> DepValueV {
        match self {
            DepValue::One(s) => DepValueV::One(*s as int),
            DepValue::Many(v) => DepValueV::Many(v@.map_values(|x: usize| x as int)),
            DepValue::Absent => DepValueV::Absent,
            DepValue::Supplied => DepValueV::Supplied,
            DepValue::Deferred(l) => DepValueV::Deferred(
                Lazy { catalog: l.catalog, iface: l.iface, kind: l.kind },
            ),
            DepValue::Cat(c) => DepValueV::Cat(*c),
            DepValue::CatWeak(w) => DepValueV::CatWeak(w.layers@),
        }
    }
}

/// One constructed instance: the concrete type it belongs to, the value it
/// carries if it was registered pre-built, and what each of its declared
/// dependencies resolved to, in declaration order.
#[derive(Debug, PartialEq, Eq)]
pub struct Instance {
    pub instance_type: TypeToken,
    pub value: u64,
    pub deps: Vec<DepValue>,
}

/// The mathematical value of an [`Instance`].
#[verifier::ext_equal]
pub struct InstanceV {
    pub instance_type: TypeToken,
    pub value: u64,
    pub deps: Seq<DepValueV>,
}

impl View for Instance {
    type V = InstanceV;

    open spec fn view(&self) -> InstanceV {
        InstanceV {
            instance_type: self.instance_type,
            value: self.value,
            deps: self.deps@.map_values(|d: DepValue| d@),
        }
    }
}

/// The cache slot a singleton-scoped builder's one instance lives in.
#[derive(Clone, Copy, PartialEq, Eq, Structural, Debug)]
pub struct SingletonSlot {
    pub builder: usize,
    pub serial: usize,
}

/// A cache slot held by a cache object: the serial of the cache instance it
/// belongs to, the builder it caches for, and the cached instance's serial.
#[derive(Clone, Copy, PartialEq, Eq, Structural, Debug)]
pub struct TxSlot {
    pub cache: usize,
    pub builder: usize,
    pub serial: usize,
}

/// Owns every constructed instance and every scope cache.
///
/// Instances are numbered by serial in order of construction and are never
/// removed, so a serial is valid forever; the singleton cache and the
/// per-cache-object slots only ever gain entries.
pub struct Store {
    pub instances: Vec<Instance>,
    pub singletons: Vec<SingletonSlot>,
    pub tx: Vec<TxSlot>,
}

/// The mathematical value of a [`SingletonSlot`].
#[verifier::ext_equal]
pub struct CacheSlotV {
    pub builder: usize,
    pub serial: int,
}

impl View for SingletonSlot {
    type V = CacheSlotV;

    open spec fn view(&self) -> CacheSlotV {
        CacheSlotV { builder: self.builder, serial: self.serial as int }
    }
}

/// The mathematical value of a [`TxSlot`].
#[verifier::ext_equal]
pub struct TxSlotV {
    pub cache: int,
    pub builder: usize,
    pub serial: int,
}

impl View for TxSlot {
    type V = TxSlotV;

    open spec fn view(&self) -> TxSlotV {
        TxSlotV { cache: self.cache as int, builder: self.builder, serial: self.serial as int }
    }
}

/// The mathematical value of a [`Store`].
#[verifier::ext_equal]
pub struct StoreV {
    pub instances: Seq<InstanceV>,
    pub singletons: Seq<CacheSlotV>,
    pub tx: Seq<TxSlotV>,
}

impl View for Store {
    type V = StoreV;

    open spec fn view(&self) -> StoreV {
        StoreV {
            instances: self.instances@.map_values(|i: Instance| i@),
            singletons: self.singletons@.map_values(|s: SingletonSlot| s@),
            tx: self.tx@.map_values(|s: TxSlot| s@),
        }
    }
}

impl Store {
    /// An empty store: no instances constructed, every cache empty.
    pub fn new() -> (s: Store)
        ensures
            s@.instances == Seq::<InstanceV>::empty(),
            s@.singletons == Seq::<CacheSlotV>::empty(),
            s@.tx == Seq::<TxSlotV>::empty(),
    {
        let s = Store { instances: Vec::new(), singletons: Vec::new(), tx: Vec::new() };
        proof {
            assert(s@.instances =~= Seq::<InstanceV>::empty());
            assert(s@.singletons =~= Seq::<CacheSlotV>::empty());
            assert(s@.tx =~= Seq::<TxSlotV>::empty());
        }
        s
    }

    /// How many instances have been constructed so far.
    pub fn instance_count(&self) -> (n: usize)
        ensures
            n == self@.instances.len(),
    {
        self.instances.len()
    }

    /// The instance with the given serial, if one was constructed.
    pub fn instance(&self, serial: usize) -> (r: Option<&Instance>)
        ensures
            serial < self@.instances.len() ==> (r matches Some(i) && i@ == self@.instances[
                serial as int
            ]),
            serial >= self@.instances.len() ==> r is None,
    {
        if serial < self.instances.len() {
            Some(&self.instances[serial])
        } else {
            None
        }
    }
}

/// The serial cached for the given builder in the singleton cache, if any;
/// the earliest entry wins (the cache never holds two entries for one
/// builder).
pub open spec fn sp_singleton_find(s: Seq<CacheSlotV>, builder: usize) -> Option<int>
    decreases s.len(),
{
    if s.len() == 0 {
        None
    } else if s[0].builder == builder {
        Some(s[0].serial)
    } else {
        sp_singleton_find(s.skip(1), builder)
    }
}

/// The serial cached for the given builder under the given cache instance.
pub open spec fn sp_tx_find(s: Seq<TxSlotV>, cache: int, builder: usize) -> Option<int>
    decreases s.len(),
{
    if s.len() == 0 {
        None
    } else if s[0].cache == cache && s[0].builder == builder {
        Some(s[0].serial)
    } else {
        sp_tx_find(s.skip(1), cache, builder)
    }
}

proof fn lemma_singleton_find_step(s: Seq<CacheSlotV>, builder: usize, i: int)
    requires
        0 <= i < s.len(),
        s[i].builder != builder,
    ensures
        sp_singleton_find(s.skip(i), builder) == sp_singleton_find(s.skip(i + 1), builder),
{
    assert(s.skip(i)[0] == s[i]);
    assert(s.skip(i).skip(1) =~= s.skip(i + 1));
}

proof fn lemma_tx_find_step(s: Seq<TxSlotV>, cache: int, builder: usize, i: int)
    requires
        0 <= i < s.len(),
        !(s[i].cache == cache && s[i].builder == builder),
    ensures
        sp_tx_find(s.skip(i), cache, builder) == sp_tx_find(s.skip(i + 1), cache, builder),
{
    assert(s.skip(i)[0] == s[i]);
    assert(s.skip(i).skip(1) =~= s.skip(i + 1));
}

/// Appending a slot never disturbs what the cache already answered: an
/// existing entry still wins, and other builders see the new slot.
pub proof fn lemma_singleton_find_push(s: Seq<CacheSlotV>, slot: CacheSlotV, builder: usize)
    ensures
        sp_singleton_find(s, builder) matches Some(x) ==> sp_singleton_find(s.push(slot), builder)
            == Some(x),
        sp_singleton_find(s, builder) is None && slot.builder == builder ==> sp_singleton_find(
            s.push(slot),
            builder,
        ) == Some(slot.serial),
        sp_singleton_find(s, builder) is None && slot.builder != builder ==> sp_singleton_find(
            s.push(slot),
            builder,
        ) is None,
    decreases s.len(),
{
    if s.len() == 0 {
        assert(s.push(slot)[0] == slot);
        assert(s.push(slot).skip(1) =~= Seq::<CacheSlotV>::empty());
        assert(sp_singleton_find(Seq::<CacheSlotV>::empty(), builder) is None);
    } else {
        assert(s.push(slot)[0] == s[0]);
        assert(s.push(slot).skip(1) =~= s.skip(1).push(slot));
        lemma_singleton_find_push(s.skip(1), slot, builder);
    }
}

/// Appending a slot never disturbs what a cache object already answered.
pub proof fn lemma_tx_find_push(s: Seq<TxSlotV>, slot: TxSlotV, cache: int, builder: usize)
    ensures
        sp_tx_find(s, cache, builder) matches Some(x) ==> sp_tx_find(s.push(slot), cache, builder)
            == Some(x),
        sp_tx_find(s, cache, builder) is None && slot.cache == cache && slot.builder == builder
            ==> sp_tx_find(s.push(slot), cache, builder) == Some(slot.serial),
        sp_tx_find(s, cache, builder) is None && !(slot.cache == cache && slot.builder == builder)
            ==> sp_tx_find(s.push(slot), cache, builder) is None,
    decreases s.len(),
{
    if s.len() == 0 {
        assert(s.push(slot)[0] == slot);
        assert(s.push(slot).skip(1) =~= Seq::<TxSlotV>::empty());
        assert(sp_tx_find(Seq::<TxSlotV>::empty(), cache, builder) is None);
    } else {
        assert(s.push(slot)[0] == s[0]);
        assert(s.push(slot).skip(1) =~= s.skip(1).push(slot));
        lemma_tx_find_push(s.skip(1), slot, cache, builder);
    }
}

/// Looks a builder up in the singleton cache.
pub(crate) fn singleton_find(v: &Vec<SingletonSlot>, builder: usize) -> (r: Option<usize>)
    ensures
        (match r {
            Some(s) => sp_singleton_find(v@.map_values(|x: SingletonSlot| x@), builder) == Some(
                s as int,
            ),
            None => sp_singleton_find(v@.map_values(|x: SingletonSlot| x@), builder) is None,
        }),
{
    let ghost vv = v@.map_values(|x: SingletonSlot| x@);
    let mut i: usize = 0;
    proof {
        assert(vv.skip(0) =~= vv);
    }
    while i < v.len()
        invariant
            i <= v.len(),
            vv == v@.map_values(|x: SingletonSlot| x@),
            sp_singleton_find(vv, builder) == sp_singleton_find(vv.skip(i as int), builder),
        decreases v.len() - i,
    {
        proof {
            assert(vv[i as int] == v@[i as int]@);
        }
        if v[i].builder == builder {
            proof {
                assert(vv.skip(i as int)[0] == vv[i as int]);
            }
            return Some(v[i].serial);
        }
        proof {
            lemma_singleton_find_step(vv, builder, i as int);
        }
        i = i + 1;
    }
    proof {
        assert(vv.skip(i as int) =~= Seq::<CacheSlotV>::empty());
    }
    None
}

/// Looks a (cache instance, builder) pair up in the cache slots.
pub(crate) fn tx_find(v: &Vec<TxSlot>, cache: usize, builder: usize) -> (r: Option<usize>)
    ensures
        (match r {
            Some(s) => sp_tx_find(v@.map_values(|x: TxSlot| x@), cache as int, builder) == Some(
                s as int,
            ),
            None => sp_tx_find(v@.map_values(|x: TxSlot| x@), cache as int, builder) is None,
        }),
{
    let ghost vv = v@.map_values(|x: TxSlot| x@);
    let mut i: usize = 0;
    proof {
        assert(vv.skip(0) =~= vv);
    }
    while i < v.len()
        invariant
            i <= v.len(),
            vv == v@.map_values(|x: TxSlot| x@),
            sp_tx_find(vv, cache as int, builder) == sp_tx_find(
                vv.skip(i as int),
                cache as int,
                builder,
            ),
        decreases v.len() - i,
    {
        proof {
            assert(vv[i as int] == v@[i as int]@);
        }
        if v[i].cache == cache && v[i].builder == builder {
            proof {
                assert(vv.skip(i as int)[0] == vv[i as int]);
            }
            return Some(v[i].serial);
        }
        proof {
            lemma_tx_find_step(vv, cache as int, builder, i as int);
        }
        i = i + 1;
    }
    proof {
        assert(vv.skip(i as int) =~= Seq::<TxSlotV>::empty());
    }
    None
}

} // verus!
