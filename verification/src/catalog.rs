use vstd::prelude::*;

use crate::builder::Builder;
use crate::token::TypeToken;

verus! {

/// The registered fact that a builder satisfies an interface.
#[derive(Clone, Copy, PartialEq, Eq, Structural, Debug)]
pub struct Binding {
    pub iface: TypeToken,
    pub builder: usize,
}

/// One immutable catalog layer: the builders registered into it, its
/// interface bindings, an optional chained parent layer, and whether a strong
/// handle to it is still alive.
#[derive(Debug)]
pub struct Layer {
    pub owned: Vec<usize>,
    pub bindings: Vec<Binding>,
    pub parent: Option<usize>,
    pub alive: bool,
}

/// Owns what reference-counted sharing owns in an ordinary process: every
/// builder record, every built catalog layer, and the table of printable
/// type names.  Layers only ever gain entries; a layer's contents never
/// change after `build`, except for the flag recording that its strong
/// handle was dropped.
#[derive(Debug)]
pub struct Registry {
    pub builders: Vec<Builder>,
    pub layers: Vec<Layer>,
    pub type_names: Vec<String>,
}

/// A cheap, copyable handle onto one catalog layer; the object users query.
/// Lookups search the layer itself first, then fall through its chained
/// parents.
#[derive(Clone, Copy, PartialEq, Eq, Structural, Debug)]
pub struct Catalog {
    pub layer: usize,
}

/// A non-owning handle to a catalog chain: one link per layer, innermost
/// first, so that resolution can fall back to the nearest still-alive
/// ancestor once inner layers are dropped.
#[derive(Debug, PartialEq, Eq)]
pub struct CatalogWeakRef {
    pub layers: Vec<usize>,
}

impl Clone for CatalogWeakRef {
    fn clone(&self) -> (r: Self)
        ensures
            r.layers@ == self.layers@,
    {
        let mut layers: Vec<usize> = Vec::new();
        let mut i: usize = 0;
        while i < self.layers.len()
            invariant
                i <= self.layers.len(),
                layers@ == self.layers@.take(i as int),
            decreases self.layers.len() - i,
        {
            layers.push(self.layers[i]);
            proof {
                assert(layers@ =~= self.layers@.take(i + 1));
            }
            i = i + 1;
        }
        proof {
            assert(layers@ =~= self.layers@);
        }
        CatalogWeakRef { layers }
    }
}

impl Registry {
    /// Every id a layer mentions stays inside the registry, and parents come
    /// strictly before the layers chained onto them.
    pub open spec fn layer_wf(self, i: int) -> bool {
        let l = self.layers@[i];
        &&& (l.parent matches Some(p) ==> p < i)
        &&& forall|k: int| 0 <= k < l.owned@.len() ==> (#[trigger] l.owned@[k]) < self.builders@.len()
        &&& forall|k: int|
            0 <= k < l.bindings@.len() ==> (#[trigger] l.bindings@[k]).builder
                < self.builders@.len()
    }

    /// The registry's internal invariant.  The bound on the number of
    /// builders keeps the resolution depth countable in a machine word.
    pub open spec fn wf(self) -> bool {
        &&& forall|i: int| 0 <= i < self.layers@.len() ==> self.layer_wf(i)
        &&& self.builders@.len() < 0x1000_0000
    }

    /// An empty registry.  The names of the two built-in injectable types
    /// occupy the reserved token ids.
    pub fn new() -> (r: Registry)
        ensures
            r.wf(),
            r.builders@ == Seq::<Builder>::empty(),
            r.layers@ == Seq::<Layer>::empty(),
            r.type_names@.len() == 2,
    {
        let mut type_names: Vec<String> = Vec::new();
        type_names.push("Catalog".to_string());
        type_names.push("CatalogWeakRef".to_string());
        let r = Registry { builders: Vec::new(), layers: Vec::new(), type_names };
        proof {
            assert(r.builders@ =~= Seq::<Builder>::empty());
            assert(r.layers@ =~= Seq::<Layer>::empty());
        }
        r
    }

    /// Registers a printable name for a new type and hands back its token.
    /// Each call mints a fresh identity.
    pub fn register_type(&mut self, name: String) -> (t: TypeToken)
        requires
            old(self).type_names@.len() < usize::MAX,
        ensures
            t.id == old(self).type_names@.len(),
            final(self).type_names@ == old(self).type_names@.push(name),
            final(self).builders@ == old(self).builders@,
            final(self).layers@ == old(self).layers@,
            old(self).wf() ==> final(self).wf(),
    {
        let id = self.type_names.len();
        self.type_names.push(name);
        proof {
            if old(self).wf() {
                assert forall|i: int| 0 <= i < self.layers@.len() implies self.layer_wf(i) by {
                    assert(old(self).layer_wf(i));
                }
            }
        }
        TypeToken { id }
    }

    /// The printable name attached to a token, if one was registered.
    pub fn name_of(&self, t: TypeToken) -> (r: Option<&String>)
        ensures
            t.id < self.type_names@.len() ==> (r matches Some(n) && n@ == self.type_names@[
                t.id as int
            ]@),
            t.id >= self.type_names@.len() ==> r is None,
    {
        if t.id < self.type_names.len() {
            Some(&self.type_names[t.id])
        } else {
            None
        }
    }

    /// Drops the strong handle to a catalog layer.  The layer's contents
    /// remain (chained children may still resolve through it), but weak
    /// references no longer upgrade to it.
    pub fn release(&mut self, cat: Catalog)
        requires
            cat.layer < old(self).layers@.len(),
        ensures
            final(self).builders@ == old(self).builders@,
            final(self).type_names@ == old(self).type_names@,
            final(self).layers@.len() == old(self).layers@.len(),
            forall|i: int|
                0 <= i < final(self).layers@.len() && i != cat.layer ==> final(self).layers@[i]
                    == old(self).layers@[i],
            final(self).layers@[cat.layer as int].owned@ == old(self).layers@[
                cat.layer as int
            ].owned@,
            final(self).layers@[cat.layer as int].bindings@ == old(self).layers@[
                cat.layer as int
            ].bindings@,
            final(self).layers@[cat.layer as int].parent == old(self).layers@[
                cat.layer as int
            ].parent,
            !final(self).layers@[cat.layer as int].alive,
            old(self).wf() ==> final(self).wf(),
    {
        let mut l = self.layers.remove(cat.layer);
        l.alive = false;
        self.layers.insert(cat.layer, l);
        proof {
            assert(forall|i: int|
                0 <= i < self.layers@.len() && i != cat.layer ==> self.layers@[i] == old(
                    self,
                ).layers@[i]);
            if old(self).wf() {
                assert forall|i: int| 0 <= i < self.layers@.len() implies self.layer_wf(i) by {
                    assert(old(self).layer_wf(i));
                }
            }
        }
    }
}

/// The builder ids bound to an interface among the given bindings, in
/// registration order.
pub open spec fn sp_local_bindings(bs: Seq<Binding>, iface: TypeToken) -> Seq<usize>
    decreases bs.len(),
{
    if bs.len() == 0 {
        Seq::empty()
    } else {
        let init = sp_local_bindings(bs.drop_last(), iface);
        if bs.last().iface == iface {
            init.push(bs.last().builder)
        } else {
            init
        }
    }
}

/// The builder ids bound to an interface as seen from a catalog layer:
/// local bindings first, then the chained parents', recursively.
pub open spec fn sp_bindings(reg: Registry, layer: int, iface: TypeToken) -> Seq<usize>
    decreases layer,
{
    if 0 <= layer < reg.layers@.len() {
        let l = reg.layers@[layer];
        let local = sp_local_bindings(l.bindings@, iface);
        match l.parent {
            Some(p) => if (p as int) < layer {
                local + sp_bindings(reg, p as int, iface)
            } else {
                local
            },
            None => local,
        }
    } else {
        Seq::empty()
    }
}

/// Every builder registered in the chain starting at a layer: local builders
/// first, then the chained parents', recursively.
pub open spec fn sp_all_builders(reg: Registry, layer: int) -> Seq<usize>
    decreases layer,
{
    if 0 <= layer < reg.layers@.len() {
        let l = reg.layers@[layer];
        match l.parent {
            Some(p) => if (p as int) < layer {
                l.owned@ + sp_all_builders(reg, p as int)
            } else {
                l.owned@
            },
            None => l.owned@,
        }
    } else {
        Seq::empty()
    }
}

/// The layers of a catalog chain, innermost first.
pub open spec fn sp_chain(reg: Registry, layer: int) -> Seq<usize>
    decreases layer,
{
    if 0 <= layer < reg.layers@.len() {
        let l = reg.layers@[layer];
        match l.parent {
            Some(p) => if (p as int) < layer {
                seq![layer as usize] + sp_chain(reg, p as int)
            } else {
                seq![layer as usize]
            },
            None => seq![layer as usize],
        }
    } else {
        Seq::empty()
    }
}

/// Every builder id a chain's bindings can reach stays inside the registry.
pub proof fn lemma_bindings_in_range(reg: Registry, layer: int, iface: TypeToken)
    requires
        reg.wf(),
    ensures
        forall|k: int|
            0 <= k < sp_bindings(reg, layer, iface).len() ==> (#[trigger] sp_bindings(
                reg,
                layer,
                iface,
            )[k]) < reg.builders@.len(),
    decreases layer,
{
    if 0 <= layer < reg.layers@.len() {
        let l = reg.layers@[layer];
        assert(reg.layer_wf(layer));
        lemma_local_bindings_in_range(l.bindings@, iface, reg.builders@.len() as int);
        match l.parent {
            Some(p) => {
                if (p as int) < layer {
                    lemma_bindings_in_range(reg, p as int, iface);
                    assert forall|k: int| 0 <= k < sp_bindings(reg, layer, iface).len() implies (
                    #[trigger] sp_bindings(reg, layer, iface)[k]) < reg.builders@.len() by {
                        let local = sp_local_bindings(l.bindings@, iface);
                        if k < local.len() {
                            assert(sp_bindings(reg, layer, iface)[k] == local[k]);
                        } else {
                            assert(sp_bindings(reg, layer, iface)[k] == sp_bindings(
                                reg,
                                p as int,
                                iface,
                            )[k - local.len()]);
                        }
                    }
                }
            },
            None => {},
        }
    }
}

/// Every builder id a chain's owned lists can reach stays inside the
/// registry.
pub proof fn lemma_all_builders_in_range(reg: Registry, layer: int)
    requires
        reg.wf(),
    ensures
        forall|k: int|
            0 <= k < sp_all_builders(reg, layer).len() ==> (#[trigger] sp_all_builders(
                reg,
                layer,
            )[k]) < reg.builders@.len(),
    decreases layer,
{
    if 0 <= layer < reg.layers@.len() {
        let l = reg.layers@[layer];
        assert(reg.layer_wf(layer));
        match l.parent {
            Some(p) => {
                if (p as int) < layer {
                    lemma_all_builders_in_range(reg, p as int);
                    assert forall|k: int| 0 <= k < sp_all_builders(reg, layer).len() implies (
                    #[trigger] sp_all_builders(reg, layer)[k]) < reg.builders@.len() by {
                        if k < l.owned@.len() {
                            assert(sp_all_builders(reg, layer)[k] == l.owned@[k]);
                        } else {
                            assert(sp_all_builders(reg, layer)[k] == sp_all_builders(
                                reg,
                                p as int,
                            )[k - l.owned@.len()]);
                        }
                    }
                }
            },
            None => {},
        }
    }
}

proof fn lemma_local_bindings_in_range(bs: Seq<Binding>, iface: TypeToken, bound: int)
    requires
        forall|k: int| 0 <= k < bs.len() ==> (#[trigger] bs[k]).builder < bound,
    ensures
        forall|k: int|
            0 <= k < sp_local_bindings(bs, iface).len() ==> (#[trigger] sp_local_bindings(
                bs,
                iface,
            )[k]) < bound,
    decreases bs.len(),
{
    if bs.len() > 0 {
        assert forall|k: int| 0 <= k < bs.drop_last().len() implies (
        #[trigger] bs.drop_last()[k]).builder < bound by {
            assert(bs.drop_last()[k] == bs[k]);
        }
        lemma_local_bindings_in_range(bs.drop_last(), iface, bound);
        let init = sp_local_bindings(bs.drop_last(), iface);
        let r = sp_local_bindings(bs, iface);
        assert forall|k: int| 0 <= k < r.len() implies (#[trigger] r[k]) < bound by {
            if bs.last().iface == iface {
                if k < init.len() {
                    assert(r[k] == init[k]);
                } else {
                    assert(r[k] == bs.last().builder);
                    assert(bs[bs.len() - 1].builder < bound);
                }
            } else {
                assert(r[k] == init[k]);
            }
        }
    }
}

impl Catalog {
    /// A fresh catalog builder with no chained parent.
    pub fn builder() -> (b: CatalogBuilder)
        ensures
            b.builders@ == Seq::<Builder>::empty(),
            b.bindings@ == Seq::<LocalBinding>::empty(),
            b.chained is None,
    {
        CatalogBuilder::new()
    }

    /// A catalog builder whose completed catalog will have this catalog as
    /// its chained parent.
    pub fn builder_chained(&self) -> (b: CatalogBuilder)
        ensures
            b.builders@ == Seq::<Builder>::empty(),
            b.bindings@ == Seq::<LocalBinding>::empty(),
            b.chained == Some(*self),
    {
        CatalogBuilder::new_chained(self)
    }

    /// The builder ids bound to the interface, local layer first, then the
    /// chained parents, in registration order.
    pub fn builders_for(&self, reg: &Registry, iface: TypeToken) -> (r: Vec<usize>)
        requires
            reg.wf(),
            self.layer < reg.layers@.len(),
        ensures
            r@ == sp_bindings(*reg, self.layer as int, iface),
        decreases self.layer,
    {
        let l = &reg.layers[self.layer];
        let mut r: Vec<usize> = Vec::new();
        let mut i: usize = 0;
        proof {
            assert(reg.layer_wf(self.layer as int));
            assert(l.bindings@.take(0) =~= Seq::<Binding>::empty());
            assert(r@ =~= sp_local_bindings(l.bindings@.take(0), iface));
        }
        while i < l.bindings.len()
            invariant
                i <= l.bindings@.len(),
                r@ == sp_local_bindings(l.bindings@.take(i as int), iface),
            decreases l.bindings@.len() - i,
        {
            proof {
                assert(l.bindings@.take(i + 1).drop_last() =~= l.bindings@.take(i as int));
                assert(l.bindings@.take(i + 1).last() == l.bindings@[i as int]);
            }
            if l.bindings[i].iface.id == iface.id {
                proof {
                    assert(l.bindings@[i as int].iface == iface);
                }
                r.push(l.bindings[i].builder);
            } else {
                proof {
                    assert(l.bindings@[i as int].iface != iface);
                }
            }
            i = i + 1;
        }
        proof {
            assert(l.bindings@.take(l.bindings@.len() as int) =~= l.bindings@);
        }
        match l.parent {
            Some(p) => {
                let parent = Catalog { layer: p };
                let mut pr = parent.builders_for(reg, iface);
                r.append(&mut pr);
                r
            },
            None => r,
        }
    }

    /// Every builder registered in this catalog's chain, local layer first.
    pub fn builders(&self, reg: &Registry) -> (r: Vec<usize>)
        requires
            reg.wf(),
            self.layer < reg.layers@.len(),
        ensures
            r@ == sp_all_builders(*reg, self.layer as int),
        decreases self.layer,
    {
        let l = &reg.layers[self.layer];
        let mut r: Vec<usize> = Vec::new();
        let mut i: usize = 0;
        while i < l.owned.len()
            invariant
                i <= l.owned@.len(),
                r@ == l.owned@.take(i as int),
            decreases l.owned@.len() - i,
        {
            r.push(l.owned[i]);
            proof {
                assert(r@ =~= l.owned@.take(i + 1));
            }
            i = i + 1;
        }
        proof {
            assert(r@ =~= l.owned@);
            assert(reg.layer_wf(self.layer as int));
        }
        match l.parent {
            Some(p) => {
                let parent = Catalog { layer: p };
                let mut pr = parent.builders(reg);
                r.append(&mut pr);
                r
            },
            None => r,
        }
    }

    /// The builder ids bound to the interface that also carry the given
    /// metadata tag, in the same order as `builders_for`.
    pub fn builders_for_with_meta(&self, reg: &Registry, iface: TypeToken, meta: u64) -> (r: Vec<
        usize,
    >)
        requires
            reg.wf(),
            self.layer < reg.layers@.len(),
        ensures
            r@ == sp_bindings(*reg, self.layer as int, iface).filter(
                |b: usize| reg.builders@[b as int].metadata@.contains(meta),
            ),
    {
        let all = self.builders_for(reg, iface);
        proof {
            lemma_bindings_in_range(*reg, self.layer as int, iface);
        }
        filter_by_meta(reg, all, meta)
    }

    /// A non-owning reference to this catalog's whole chain.
    pub fn weak_ref(&self, reg: &Registry) -> (r: CatalogWeakRef)
        requires
            reg.wf(),
            self.layer < reg.layers@.len(),
        ensures
            r.layers@ == sp_chain(*reg, self.layer as int),
        decreases self.layer,
    {
        let l = &reg.layers[self.layer];
        let mut r: Vec<usize> = Vec::new();
        r.push(self.layer);
        proof {
            assert(reg.layer_wf(self.layer as int));
            assert(r@ =~= seq![self.layer]);
        }
        match l.parent {
            Some(p) => {
                let parent = Catalog { layer: p };
                let mut pr = parent.weak_ref(reg);
                r.append(&mut pr.layers);
                CatalogWeakRef { layers: r }
            },
            None => CatalogWeakRef { layers: r },
        }
    }
}

/// Which of the layers a weak reference points at still has its strong
/// handle: the innermost alive layer wins.
pub open spec fn sp_upgrade(reg: Registry, layers: Seq<usize>) -> Option<Catalog>
    decreases layers.len(),
{
    if layers.len() == 0 {
        None
    } else if layers[0] < reg.layers@.len() && reg.layers@[layers[0] as int].alive {
        Some(Catalog { layer: layers[0] })
    } else {
        sp_upgrade(reg, layers.skip(1))
    }
}

impl CatalogWeakRef {
    /// Tries to recover a strong catalog handle: the first layer in the
    /// chain that is still alive wins; fails only when every layer was
    /// dropped.
    pub fn upgrade(&self, reg: &Registry) -> (r: Option<Catalog>)
        ensures
            r == sp_upgrade(*reg, self.layers@),
    {
        let mut i: usize = 0;
        proof {
            assert(self.layers@.skip(0) =~= self.layers@);
        }
        while i < self.layers.len()
            invariant
                i <= self.layers@.len(),
                sp_upgrade(*reg, self.layers@) == sp_upgrade(*reg, self.layers@.skip(i as int)),
            decreases self.layers@.len() - i,
        {
            let w = self.layers[i];
            proof {
                assert(self.layers@.skip(i as int)[0] == self.layers@[i as int]);
            }
            if w < reg.layers.len() && reg.layers[w].alive {
                return Some(Catalog { layer: w });
            }
            proof {
                assert(self.layers@.skip(i as int).skip(1) =~= self.layers@.skip(i + 1));
            }
            i = i + 1;
        }
        proof {
            assert(self.layers@.skip(i as int) =~= Seq::<usize>::empty());
        }
        None
    }
}

/// A binding staged inside a catalog builder: the bound interface and the
/// position of the target builder in the staging area.
#[derive(Clone, Copy, PartialEq, Eq, Structural, Debug)]
pub struct LocalBinding {
    pub iface: TypeToken,
    pub builder: usize,
}

/// The index of the first staged builder for the given concrete type.
pub open spec fn sp_find_builder(bs: Seq<Builder>, token: TypeToken) -> Option<int>
    decreases bs.len(),
{
    if bs.len() == 0 {
        None
    } else if bs[0].instance_type == token {
        Some(0)
    } else {
        match sp_find_builder(bs.skip(1), token) {
            Some(i) => Some(i + 1),
            None => None,
        }
    }
}

/// A staged binding, re-based onto the registry's builder arena.
pub open spec fn sp_shift_binding(lb: LocalBinding, base: int) -> Binding {
    Binding { iface: lb.iface, builder: (base + lb.builder) as usize }
}

/// Every staged binding, re-based onto the registry's builder arena.
pub open spec fn sp_shift_bindings(lbs: Seq<LocalBinding>, base: int) -> Seq<Binding> {
    lbs.map_values(|lb: LocalBinding| sp_shift_binding(lb, base))
}

/// The mutable staging area a catalog is assembled in.  Builders and
/// bindings accumulate here; `build` freezes them into a new immutable
/// registry layer and leaves the staging area empty.
#[derive(Debug)]
pub struct CatalogBuilder {
    pub builders: Vec<Builder>,
    pub bindings: Vec<LocalBinding>,
    pub chained: Option<Catalog>,
}

impl CatalogBuilder {
    /// Whether a builder for the given concrete type is already staged.
    pub open spec fn spec_has_builder(&self, token: TypeToken) -> bool {
        exists|i: int|
            0 <= i < self.builders@.len() && (#[trigger] self.builders@[i]).instance_type == token
    }

    /// Every staged binding points at a staged builder.
    pub open spec fn spec_wf(&self) -> bool {
        forall|k: int|
            0 <= k < self.bindings@.len() ==> (#[trigger] self.bindings@[k]).builder
                < self.builders@.len()
    }

    /// An empty staging area with no chained parent.
    pub fn new() -> (b: CatalogBuilder)
        ensures
            b.builders@ == Seq::<Builder>::empty(),
            b.bindings@ == Seq::<LocalBinding>::empty(),
            b.chained is None,
            b.spec_wf(),
    {
        let b = CatalogBuilder { builders: Vec::new(), bindings: Vec::new(), chained: None };
        proof {
            assert(b.builders@ =~= Seq::<Builder>::empty());
            assert(b.bindings@ =~= Seq::<LocalBinding>::empty());
        }
        b
    }

    /// An empty staging area whose completed catalog will chain to the given
    /// parent catalog.
    pub fn new_chained(chained: &Catalog) -> (b: CatalogBuilder)
        ensures
            b.builders@ == Seq::<Builder>::empty(),
            b.bindings@ == Seq::<LocalBinding>::empty(),
            b.chained == Some(*chained),
            b.spec_wf(),
    {
        let b = CatalogBuilder {
            builders: Vec::new(),
            bindings: Vec::new(),
            chained: Some(*chained),
        };
        proof {
            assert(b.builders@ =~= Seq::<Builder>::empty());
            assert(b.bindings@ =~= Seq::<LocalBinding>::empty());
        }
        b
    }

    /// Whether a builder for the given concrete type is already staged.
    pub fn has_builder(&self, token: TypeToken) -> (r: bool)
        ensures
            r == self.spec_has_builder(token),
    {
        let mut i: usize = 0;
        while i < self.builders.len()
            invariant
                i <= self.builders@.len(),
                forall|k: int|
                    0 <= k < i ==> (#[trigger] self.builders@[k]).instance_type != token,
            decreases self.builders@.len() - i,
        {
            if self.builders[i].instance_type.id == token.id {
                return true;
            }
            i = i + 1;
        }
        false
    }

    /// Stages a builder and binds it under its own concrete type.
    /// Registering the same concrete type twice is a programmer error, which
    /// the precondition excludes.
    pub fn add_builder(&mut self, b: Builder)
        requires
            !old(self).spec_has_builder(b.instance_type),
        ensures
            final(self).builders@ == old(self).builders@.push(b),
            final(self).bindings@ == old(self).bindings@.push(
                LocalBinding { iface: b.instance_type, builder: old(self).builders@.len() as usize },
            ),
            final(self).chained == old(self).chained,
            old(self).spec_wf() ==> final(self).spec_wf(),
    {
        let idx = self.builders.len();
        let token = b.instance_type;
        self.builders.push(b);
        self.bindings.push(LocalBinding { iface: token, builder: idx });
    }

    /// Stages a builder and additionally binds it to every interface it
    /// declares, unless it was marked to skip default interface binding.
    pub fn add(&mut self, b: Builder)
        requires
            !old(self).spec_has_builder(b.instance_type),
        ensures
            final(self).builders@ == old(self).builders@.push(b),
            final(self).bindings@ == old(self).bindings@.push(
                LocalBinding { iface: b.instance_type, builder: old(self).builders@.len() as usize },
            ) + (if b.bind_default {
                b.interfaces@.map_values(
                    |t: TypeToken|
                        LocalBinding { iface: t, builder: old(self).builders@.len() as usize },
                )
            } else {
                Seq::<LocalBinding>::empty()
            }),
            final(self).chained == old(self).chained,
            old(self).spec_wf() ==> final(self).spec_wf(),
    {
        let idx = self.builders.len();
        let bind_default = b.bind_default;
        let ghost ifaces = b.interfaces@;
        let ghost mid_bindings = old(self).bindings@.push(
            LocalBinding { iface: b.instance_type, builder: idx },
        );
        let interfaces = if bind_default {
            clone_token_vec(&b.interfaces)
        } else {
            Vec::new()
        };
        self.add_builder(b);
        if bind_default {
            let mut i: usize = 0;
            while i < interfaces.len()
                invariant
                    i <= interfaces@.len(),
                    interfaces@ == ifaces,
                    self.builders@ == old(self).builders@.push(b),
                    self.chained == old(self).chained,
                    old(self).spec_wf() ==> self.spec_wf(),
                    idx == old(self).builders@.len(),
                    self.bindings@ == mid_bindings + ifaces.take(i as int).map_values(
                        |t: TypeToken| LocalBinding { iface: t, builder: idx },
                    ),
                decreases interfaces@.len() - i,
            {
                self.bindings.push(LocalBinding { iface: interfaces[i], builder: idx });
                proof {
                    let f = |t: TypeToken| LocalBinding { iface: t, builder: idx };
                    assert(ifaces.take(i + 1).map_values(f) =~= ifaces.take(i as int).map_values(
                        f,
                    ).push(f(ifaces[i as int])));
                    assert(self.bindings@ =~= mid_bindings + ifaces.take(i + 1).map_values(f));
                }
                i = i + 1;
            }
            proof {
                assert(ifaces.take(ifaces.len() as int) =~= ifaces);
            }
        } else {
            proof {
                assert(self.bindings@ =~= mid_bindings + Seq::<LocalBinding>::empty());
            }
        }
    }

    /// Stages a pre-built singleton value under the given concrete type.
    pub fn add_value(&mut self, instance_type: TypeToken, value: u64)
        requires
            !old(self).spec_has_builder(instance_type),
        ensures
            final(self).builders@.len() == old(self).builders@.len() + 1,
            final(self).builders@ =~= old(self).builders@.push(final(self).builders@.last()),
            final(self).builders@.last().instance_type == instance_type,
            final(self).builders@.last().scope == crate::scopes::ScopeKind::Singleton,
            final(self).builders@.last().value == value,
            final(self).builders@.last().dependencies@.len() == 0,
            final(self).bindings@ == old(self).bindings@.push(
                LocalBinding { iface: instance_type, builder: old(self).builders@.len() as usize },
            ),
            final(self).chained == old(self).chained,
            old(self).spec_wf() ==> final(self).spec_wf(),
    {
        let b = crate::builder::Prebuilt::from_value(instance_type, value).into_builder();
        self.add_builder(b);
    }

    /// Stages a singleton whose one-time construction is deferred to first
    /// access.
    pub fn add_value_lazy(&mut self, instance_type: TypeToken, value: u64)
        requires
            !old(self).spec_has_builder(instance_type),
        ensures
            final(self).builders@.len() == old(self).builders@.len() + 1,
            final(self).builders@ =~= old(self).builders@.push(final(self).builders@.last()),
            final(self).builders@.last().instance_type == instance_type,
            final(self).builders@.last().scope == crate::scopes::ScopeKind::Singleton,
            final(self).builders@.last().value == value,
            final(self).builders@.last().dependencies@.len() == 0,
            final(self).bindings@ == old(self).bindings@.push(
                LocalBinding { iface: instance_type, builder: old(self).builders@.len() as usize },
            ),
            final(self).chained == old(self).chained,
            old(self).spec_wf() ==> final(self).spec_wf(),
    {
        let b = crate::builder::LazyBuilder::new(instance_type, value).into_builder();
        self.add_builder(b);
    }

    /// Stages a zero-argument factory: a transient builder with no
    /// dependencies.
    pub fn add_factory(&mut self, instance_type: TypeToken)
        requires
            !old(self).spec_has_builder(instance_type),
        ensures
            final(self).builders@.len() == old(self).builders@.len() + 1,
            final(self).builders@ =~= old(self).builders@.push(final(self).builders@.last()),
            final(self).builders@.last().instance_type == instance_type,
            final(self).builders@.last().scope == crate::scopes::ScopeKind::Transient,
            final(self).builders@.last().dependencies@.len() == 0,
            final(self).bindings@ == old(self).bindings@.push(
                LocalBinding { iface: instance_type, builder: old(self).builders@.len() as usize },
            ),
            final(self).chained == old(self).chained,
            old(self).spec_wf() ==> final(self).spec_wf(),
    {
        let b = crate::builder::Factory::new(instance_type).into_builder();
        self.add_builder(b);
    }

    /// Adds an interface binding for an already-staged concrete type.
    /// Binding a type that was never staged is a programmer error, which the
    /// precondition excludes.
    pub fn bind(&mut self, iface: TypeToken, impl_type: TypeToken)
        requires
            old(self).spec_has_builder(impl_type),
        ensures
            final(self).builders@ == old(self).builders@,
            final(self).chained == old(self).chained,
            (sp_find_builder(old(self).builders@, impl_type) matches Some(idx)
                && final(self).bindings@ == old(self).bindings@.push(
                LocalBinding { iface, builder: idx as usize },
            )),
            old(self).spec_wf() ==> final(self).spec_wf(),
    {
        let mut i: usize = 0;
        proof {
            lemma_find_builder_exists(self.builders@, impl_type);
            assert(self.builders@.skip(0) =~= self.builders@);
        }
        while i < self.builders.len()
            invariant
                i <= self.builders@.len(),
                forall|k: int|
                    0 <= k < i ==> (#[trigger] self.builders@[k]).instance_type != impl_type,
                self.builders@ == old(self).builders@,
                self.bindings@ == old(self).bindings@,
                self.chained == old(self).chained,
            decreases self.builders@.len() - i,
        {
            if self.builders[i].instance_type.id == impl_type.id {
                self.bindings.push(LocalBinding { iface, builder: i });
                proof {
                    lemma_find_builder_first(self.builders@, impl_type, i as int);
                }
                return ;
            }
            i = i + 1;
        }
        proof {
            assert(!old(self).spec_has_builder(impl_type));
        }
    }

    /// Freezes the staged builders and bindings into a new immutable catalog
    /// layer of the registry, leaving this staging area empty.
    pub fn build(&mut self, reg: &mut Registry) -> (cat: Catalog)
        requires
            old(reg).wf(),
            old(self).spec_wf(),
            (old(self).chained matches Some(c) ==> c.layer < old(reg).layers@.len()),
            old(reg).builders@.len() + old(self).builders@.len() < 0x1000_0000,
            old(reg).layers@.len() < usize::MAX,
        ensures
            final(reg).wf(),
            final(reg).builders@ == old(reg).builders@ + old(self).builders@,
            final(reg).type_names@ == old(reg).type_names@,
            final(reg).layers@.len() == old(reg).layers@.len() + 1,
            forall|i: int|
                0 <= i < old(reg).layers@.len() ==> final(reg).layers@[i] == old(reg).layers@[i],
            cat.layer == old(reg).layers@.len(),
            final(reg).layers@.last().parent == (match old(self).chained {
                Some(c) => Some(c.layer),
                None => None,
            }),
            final(reg).layers@.last().alive,
            final(reg).layers@.last().owned@ == Seq::new(
                old(self).builders@.len(),
                |i: int| (old(reg).builders@.len() + i) as usize,
            ),
            final(reg).layers@.last().bindings@ == sp_shift_bindings(
                old(self).bindings@,
                old(reg).builders@.len() as int,
            ),
            final(self).builders@ == Seq::<Builder>::empty(),
            final(self).bindings@ == Seq::<LocalBinding>::empty(),
            final(self).chained is None,
    {
        let base = reg.builders.len();
        let n = self.builders.len();
        let ghost staged = self.builders@;

        let mut moved: Vec<Builder> = Vec::new();
        core::mem::swap(&mut moved, &mut self.builders);
        proof {
            assert(reg.builders@ =~= old(reg).builders@ + staged.take(0));
        }
        let ghost mut i_done: int = 0;
        while moved.len() > 0
            invariant
                0 <= i_done <= staged.len(),
                moved@ == staged.skip(i_done),
                base == old(reg).builders@.len(),
                reg.builders@ == old(reg).builders@ + staged.take(i_done),
                reg.layers@ == old(reg).layers@,
                reg.type_names@ == old(reg).type_names@,
            decreases moved@.len(),
        {
            let b = moved.remove(0);
            proof {
                assert(moved@ =~= staged.skip(i_done + 1));
                assert(b == staged[i_done]);
            }
            reg.builders.push(b);
            proof {
                assert(staged.take(i_done).push(staged[i_done]) =~= staged.take(i_done + 1));
                assert(reg.builders@ =~= old(reg).builders@ + staged.take(i_done + 1));
                i_done = i_done + 1;
            }
        }
        proof {
            assert(i_done == staged.len());
            assert(staged.take(staged.len() as int) =~= staged);
            assert(reg.builders@ =~= old(reg).builders@ + staged);
        }

        let mut owned: Vec<usize> = Vec::new();
        let mut k: usize = 0;
        proof {
            assert(owned@ =~= Seq::new(0, |i: int| (base + i) as usize));
        }
        while k < n
            invariant
                k <= n,
                n == staged.len(),
                base == old(reg).builders@.len(),
                base + n < 0x1000_0000,
                owned@ == Seq::new(k as nat, |i: int| (base + i) as usize),
            decreases n - k,
        {
            owned.push(base + k);
            proof {
                assert(owned@ =~= Seq::new((k + 1) as nat, |i: int| (base + i) as usize));
            }
            k = k + 1;
        }

        let mut bindings: Vec<Binding> = Vec::new();
        let ghost lbs = self.bindings@;
        let ghost base_i: int = base as int;
        let mut j: usize = 0;
        proof {
            assert(bindings@ =~= sp_shift_bindings(lbs.take(0), base_i));
        }
        while j < self.bindings.len()
            invariant
                j <= lbs.len(),
                self.bindings@ == lbs,
                base == old(reg).builders@.len(),
                base_i == base as int,
                base + n < 0x1000_0000,
                n == staged.len(),
                forall|k: int| 0 <= k < lbs.len() ==> (#[trigger] lbs[k]).builder < n,
                bindings@ == sp_shift_bindings(lbs.take(j as int), base_i),
            decreases lbs.len() - j,
        {
            let lb = self.bindings[j];
            bindings.push(Binding { iface: lb.iface, builder: base + lb.builder });
            proof {
                assert(sp_shift_bindings(lbs.take(j + 1), base_i) =~= sp_shift_bindings(
                    lbs.take(j as int),
                    base_i,
                ).push(sp_shift_binding(lbs[j as int], base_i)));
                assert(bindings@ =~= sp_shift_bindings(lbs.take(j + 1), base_i));
            }
            j = j + 1;
        }
        proof {
            assert(lbs.take(lbs.len() as int) =~= lbs);
        }
        self.bindings.clear();

        let parent = match self.chained {
            Some(c) => Some(c.layer),
            None => None,
        };
        self.chained = None;

        let cat = Catalog { layer: reg.layers.len() };
        let layer = Layer { owned, bindings, parent, alive: true };
        reg.layers.push(layer);

        proof {
            assert(self.builders@ =~= Seq::<Builder>::empty());
            assert(self.bindings@ =~= Seq::<LocalBinding>::empty());
            let new_i = reg.layers@.len() - 1;
            assert forall|i: int| 0 <= i < reg.layers@.len() implies reg.layer_wf(i) by {
                if i < new_i {
                    assert(old(reg).layer_wf(i));
                    assert(reg.layers@[i] == old(reg).layers@[i]);
                } else {
                    let l = reg.layers@[new_i];
                    assert forall|k: int| 0 <= k < l.owned@.len() implies (#[trigger] l.owned@[k])
                        < reg.builders@.len() by {
                        assert(l.owned@[k] == (base + k) as usize);
                    }
                    assert forall|k: int| 0 <= k < l.bindings@.len() implies (
                    #[trigger] l.bindings@[k]).builder < reg.builders@.len() by {
                        assert(l.bindings@[k] == sp_shift_binding(lbs[k], base_i));
                        assert(lbs[k].builder < n);
                    }
                }
            }
        }
        cat
    }
}

proof fn lemma_find_builder_exists(bs: Seq<Builder>, token: TypeToken)
    requires
        exists|i: int| 0 <= i < bs.len() && (#[trigger] bs[i]).instance_type == token,
    ensures
        sp_find_builder(bs, token) is Some,
    decreases bs.len(),
{
    if bs.len() > 0 && bs[0].instance_type != token {
        let i = choose|i: int| 0 <= i < bs.len() && (#[trigger] bs[i]).instance_type == token;
        assert(bs.skip(1)[i - 1] == bs[i]);
        lemma_find_builder_exists(bs.skip(1), token);
    }
}

proof fn lemma_find_builder_first(bs: Seq<Builder>, token: TypeToken, i: int)
    requires
        0 <= i < bs.len(),
        bs[i].instance_type == token,
        forall|k: int| 0 <= k < i ==> (#[trigger] bs[k]).instance_type != token,
    ensures
        sp_find_builder(bs, token) == Some(i),
    decreases bs.len(),
{
    if i > 0 {
        assert forall|k: int| 0 <= k < i - 1 implies (#[trigger] bs.skip(1)[k]).instance_type
            != token by {
            assert(bs.skip(1)[k] == bs[k + 1]);
        }
        assert(bs.skip(1)[i - 1] == bs[i]);
        lemma_find_builder_first(bs.skip(1), token, i - 1);
    }
}

fn filter_by_meta(reg: &Registry, mut v: Vec<usize>, meta: u64) -> (r: Vec<usize>)
    requires
        forall|k: int| 0 <= k < v@.len() ==> (#[trigger] v@[k]) < reg.builders@.len(),
    ensures
        r@ == v@.filter(|b: usize| reg.builders@[b as int].metadata@.contains(meta)),
    decreases v@.len(),
{
    let ghost pred = |b: usize| reg.builders@[b as int].metadata@.contains(meta);
    let ghost pre = v@;
    if v.len() == 0 {
        proof {
            reveal_with_fuel(Seq::<_>::filter, 1);
            assert(pre =~= Seq::<usize>::empty());
            assert(pre.filter(pred) =~= pre);
        }
        v
    } else {
        let last = v.pop().unwrap();
        proof {
            assert(pre.drop_last() =~= v@);
            reveal_with_fuel(Seq::<_>::filter, 2);
        }
        let mut r = filter_by_meta(reg, v, meta);
        if crate::builder::BuilderExt::metadata_contains(&reg.builders[last], meta) {
            r.push(last);
        }
        proof {
            assert(r@ =~= pre.filter(pred));
        }
        r
    }
}

fn clone_token_vec(v: &Vec<TypeToken>) -> (r: Vec<TypeToken>)
    ensures
        r@ == v@,
{
    let mut r: Vec<TypeToken> = Vec::new();
    let mut i: usize = 0;
    while i < v.len()
        invariant
            i <= v.len(),
            r@ == v@.take(i as int),
        decreases v.len() - i,
    {
        r.push(v[i]);
        proof {
            assert(r@ =~= v@.take(i + 1));
        }
        i = i + 1;
    }
    proof {
        assert(r@ =~= v@);
    }
    r
}

} // verus!
