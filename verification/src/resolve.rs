use vstd::prelude::*;

use crate::catalog::sp_bindings;
use crate::catalog::sp_chain;
use crate::catalog::Catalog;
use crate::catalog::CatalogWeakRef;
use crate::catalog::Registry;
use crate::context::InjectionContext;
use crate::context::InjectionStackFrame;
use crate::deps::kind_size;
use crate::deps::kind_tag;
use crate::deps::DepKind;
use crate::errors::InjectionError;
use crate::errors::InjectionErrorV;
use crate::store::sp_singleton_find;
use crate::store::sp_tx_find;
use crate::store::singleton_find;
use crate::store::tx_find;
use crate::store::DepValue;
use crate::store::DepValueV;
use crate::store::Instance;
use crate::store::InstanceV;
use crate::store::Lazy;
use crate::store::CacheSlotV;
use crate::store::SingletonSlot;
use crate::store::Store;
use crate::store::StoreV;
use crate::store::TxSlot;
use crate::store::TxSlotV;
use crate::token::TypeToken;
use crate::token::CATALOG_TYPE_ID;
use crate::token::CATALOG_WEAK_TYPE_ID;

verus! {

/// Enough fuel for any acyclic graph over the registered builders: each
/// builder on a construction path spends at most two units, so running out
/// convicts the graph of a cycle.
pub open spec fn sp_default_fuel(reg: Registry) -> nat {
    (2 * reg.builders@.len() + 2) as nat
}

pub open spec fn sp_err_unregistered(t: TypeToken, ctx: Seq<InjectionStackFrame>) -> InjectionErrorV {
    InjectionErrorV::Unregistered { type_id: t, stack: ctx.reverse() }
}

pub open spec fn sp_err_ambiguous(t: TypeToken, ctx: Seq<InjectionStackFrame>) -> InjectionErrorV {
    InjectionErrorV::Ambiguous { type_id: t, stack: ctx.reverse() }
}

pub open spec fn sp_err_cyclic(ctx: Seq<InjectionStackFrame>) -> InjectionErrorV {
    InjectionErrorV::Cyclic { stack: ctx.reverse() }
}

/// What one resolution step does: the store it leaves behind and the value
/// or error it hands back.  This, together with `sp_build`, `sp_build_list`,
/// `sp_construct` and `sp_resolve_deps`, is the mathematical definition of
/// the whole resolution engine; the executable engine below is proved to
/// compute exactly these functions.
pub open spec fn sp_resolve(
    reg: Registry,
    st: StoreV,
    layer: usize,
    iface: TypeToken,
    kind: DepKind,
    ctx: Seq<InjectionStackFrame>,
    fuel: nat,
) -> (StoreV, Result<DepValueV, InjectionErrorV>)
    decreases fuel, 1int, kind_size(kind),
{
    let ctx1 = ctx.push(InjectionStackFrame::Resolve { iface, tag: kind_tag(kind) });
    match kind {
        DepKind::One => {
            if iface.id == CATALOG_TYPE_ID {
                (st, Ok(DepValueV::Cat(Catalog { layer })))
            } else if iface.id == CATALOG_WEAK_TYPE_ID {
                (st, Ok(DepValueV::CatWeak(sp_chain(reg, layer as int))))
            } else {
                let bs = sp_bindings(reg, layer as int, iface);
                if bs.len() == 0 {
                    (st, Err(sp_err_unregistered(iface, ctx1)))
                } else if bs.len() >= 2 {
                    (st, Err(sp_err_ambiguous(iface, ctx1)))
                } else {
                    let (st1, r) = sp_build(reg, st, layer, bs[0], ctx1, fuel);
                    match r {
                        Ok(s) => (st1, Ok(DepValueV::One(s))),
                        Err(e) => (st1, Err(e)),
                    }
                }
            }
        },
        DepKind::All => {
            let bs = sp_bindings(reg, layer as int, iface);
            let (st1, r) = sp_build_list(reg, st, layer, bs, ctx1, fuel);
            match r {
                Ok(ss) => (st1, Ok(DepValueV::Many(ss))),
                Err(e) => (st1, Err(e)),
            }
        },
        DepKind::MaybeOf(inner) => {
            let (st1, r) = sp_resolve(reg, st, layer, iface, *inner, ctx1, fuel);
            match r {
                Ok(v) => (st1, Ok(v)),
                Err(e) => if e is Unregistered {
                    (st1, Ok(DepValueV::Absent))
                } else {
                    (st1, Err(e))
                },
            }
        },
        DepKind::LazyOf(inner) => (
            st,
            Ok(DepValueV::Deferred(Lazy { catalog: Catalog { layer }, iface, kind: *inner })),
        ),
    }
}

/// Builds one instance through each of the given builders, in order,
/// stopping at the first error.
pub open spec fn sp_build_list(
    reg: Registry,
    st: StoreV,
    layer: usize,
    bs: Seq<usize>,
    ctx: Seq<InjectionStackFrame>,
    fuel: nat,
) -> (StoreV, Result<Seq<int>, InjectionErrorV>)
    decreases fuel, 0int, bs.len() + 1,
{
    if bs.len() == 0 {
        (st, Ok(Seq::empty()))
    } else {
        let (st1, r) = sp_build(reg, st, layer, bs[0], ctx, fuel);
        match r {
            Err(e) => (st1, Err(e)),
            Ok(s) => {
                let (st2, r2) = sp_build_list(reg, st1, layer, bs.skip(1), ctx, fuel);
                match r2 {
                    Ok(rest) => (st2, Ok(seq![s] + rest)),
                    Err(e) => (st2, Err(e)),
                }
            },
        }
    }
}

/// Asks one builder for an instance, honouring its scope: a singleton hands
/// back its cached serial, a cache-scoped builder looks its slot up in the
/// resolved cache object, everything else constructs afresh.
pub open spec fn sp_build(
    reg: Registry,
    st: StoreV,
    layer: usize,
    b: usize,
    ctx: Seq<InjectionStackFrame>,
    fuel: nat,
) -> (StoreV, Result<int, InjectionErrorV>)
    decreases fuel, 0int, 0int,
{
    if fuel == 0 {
        (st, Err(sp_err_cyclic(ctx)))
    } else {
        let bb = reg.builders@[b as int];
        let ctx1 = ctx.push(
            InjectionStackFrame::Build { instance_type: bb.instance_type, scope: bb.scope },
        );
        match bb.scope {
            crate::scopes::ScopeKind::Singleton => match sp_singleton_find(st.singletons, b) {
                Some(s) => (st, Ok(s)),
                None => {
                    let (st1, r) = sp_construct(reg, st, layer, b, ctx1, (fuel - 1) as nat);
                    match r {
                        Ok(s) => (
                            StoreV {
                                singletons: st1.singletons.push(
                                    CacheSlotV { builder: b, serial: s },
                                ),
                                ..st1
                            },
                            Ok(s),
                        ),
                        Err(e) => (st1, Err(e)),
                    }
                },
            },
            crate::scopes::ScopeKind::Cached(cache_tok) => {
                let (st1, rc) = sp_resolve(
                    reg,
                    st,
                    layer,
                    cache_tok,
                    DepKind::One,
                    ctx1,
                    (fuel - 1) as nat,
                );
                match rc {
                    Ok(v) => match v {
                        DepValueV::One(c) => match sp_tx_find(st1.tx, c, b) {
                            Some(s) => (st1, Ok(s)),
                            None => {
                                let (st2, r) = sp_construct(
                                    reg,
                                    st1,
                                    layer,
                                    b,
                                    ctx1,
                                    (fuel - 1) as nat,
                                );
                                match r {
                                    Ok(s) => (
                                        StoreV {
                                            tx: st2.tx.push(
                                                TxSlotV { cache: c, builder: b, serial: s },
                                            ),
                                            ..st2
                                        },
                                        Ok(s),
                                    ),
                                    Err(e) => (st2, Err(e)),
                                }
                            },
                        },
                        _ => (st1, Err(sp_err_unregistered(cache_tok, ctx1))),
                    },
                    Err(e) => (st1, Err(e)),
                }
            },
            _ => sp_construct(reg, st, layer, b, ctx1, (fuel - 1) as nat),
        }
    }
}

/// Constructs a fresh instance: resolves every declared dependency in order,
/// then appends the new instance to the store; its serial is the next one.
pub open spec fn sp_construct(
    reg: Registry,
    st: StoreV,
    layer: usize,
    b: usize,
    ctx: Seq<InjectionStackFrame>,
    fuel: nat,
) -> (StoreV, Result<int, InjectionErrorV>)
    decreases fuel, 3int, 0int,
{
    let bb = reg.builders@[b as int];
    let (st1, r) = sp_resolve_deps(reg, st, layer, b, 0, ctx, fuel);
    match r {
        Err(e) => (st1, Err(e)),
        Ok(vals) => (
            StoreV {
                instances: st1.instances.push(
                    InstanceV { instance_type: bb.instance_type, value: bb.value, deps: vals },
                ),
                ..st1
            },
            Ok(st1.instances.len() as int),
        ),
    }
}

/// Resolves a builder's declared dependencies from position `i` on, in
/// order, stopping at the first error.  A dependency supplied at
/// registration time is skipped.
pub open spec fn sp_resolve_deps(
    reg: Registry,
    st: StoreV,
    layer: usize,
    b: usize,
    i: int,
    ctx: Seq<InjectionStackFrame>,
    fuel: nat,
) -> (StoreV, Result<Seq<DepValueV>, InjectionErrorV>)
    decreases fuel, 2int, reg.builders@[b as int].dependencies@.len() - i,
{
    let deps = reg.builders@[b as int].dependencies@;
    if i < 0 || i >= deps.len() {
        (st, Ok(Seq::empty()))
    } else {
        let d = deps[i];
        if d.supplied {
            let (st1, r) = sp_resolve_deps(reg, st, layer, b, i + 1, ctx, fuel);
            match r {
                Ok(rest) => (st1, Ok(seq![DepValueV::Supplied] + rest)),
                Err(e) => (st1, Err(e)),
            }
        } else {
            let (st1, r) = sp_resolve(reg, st, layer, d.iface, d.kind, ctx, fuel);
            match r {
                Err(e) => (st1, Err(e)),
                Ok(v) => {
                    let (st2, r2) = sp_resolve_deps(reg, st1, layer, b, i + 1, ctx, fuel);
                    match r2 {
                        Ok(rest) => (st2, Ok(seq![v] + rest)),
                        Err(e) => (st2, Err(e)),
                    }
                },
            }
        }
    }
}

/// One top-level resolution: a fresh diagnostic context and the default
/// fuel.
pub open spec fn sp_get(
    reg: Registry,
    st: StoreV,
    layer: usize,
    iface: TypeToken,
    kind: DepKind,
) -> (StoreV, Result<DepValueV, InjectionErrorV>) {
    sp_resolve(reg, st, layer, iface, kind, Seq::empty(), sp_default_fuel(reg))
}

/// Whether an executable outcome denotes the same mathematical outcome.
pub open spec fn res_matches(
    r: Result<DepValue, InjectionError>,
    rr: Result<DepValueV, InjectionErrorV>,
) -> bool {
    match r {
        Ok(v) => rr matches Ok(vv) && v@ == vv,
        Err(e) => rr matches Err(ee) && e@ == ee,
    }
}

/// Whether an executable serial outcome denotes the same mathematical
/// outcome.
pub open spec fn serial_matches(
    r: Result<usize, InjectionError>,
    rr: Result<int, InjectionErrorV>,
) -> bool {
    match r {
        Ok(s) => rr == Ok::<int, InjectionErrorV>(s as int),
        Err(e) => rr matches Err(ee) && e@ == ee,
    }
}

/// Whether an executable serial-list outcome denotes the same mathematical
/// outcome.
pub open spec fn serials_match(
    r: Result<Vec<usize>, InjectionError>,
    rr: Result<Seq<int>, InjectionErrorV>,
) -> bool {
    match r {
        Ok(v) => rr matches Ok(ss) && v@.map_values(|x: usize| x as int) == ss,
        Err(e) => rr matches Err(ee) && e@ == ee,
    }
}

pub(crate) fn resolve_spec(
    reg: &Registry,
    st: &mut Store,
    layer: usize,
    iface: TypeToken,
    kind: &DepKind,
    ctx: &InjectionContext,
    fuel: usize,
) -> (r: Result<DepValue, InjectionError>)
    requires
        reg.wf(),
        layer < reg.layers@.len(),
    ensures
        ({
            let (st2, rr) = sp_resolve(*reg, old(st)@, layer, iface, *kind, ctx@, fuel as nat);
            final(st)@ == st2 && res_matches(r, rr)
        }),
    decreases fuel, 1int, kind_size(*kind),
{
    let ctx1 = ctx.push_resolve(iface, kind.tag());
    match kind {
        DepKind::One => {
            if iface.id == CATALOG_TYPE_ID {
                Ok(DepValue::Cat(Catalog { layer }))
            } else if iface.id == CATALOG_WEAK_TYPE_ID {
                let cat = Catalog { layer };
                let w = cat.weak_ref(reg);
                Ok(DepValue::CatWeak(w))
            } else {
                let cat = Catalog { layer };
                let bs = cat.builders_for(reg, iface);
                if bs.len() == 0 {
                    Err(InjectionError::unregistered(iface, ctx1.to_stack()))
                } else if bs.len() >= 2 {
                    Err(InjectionError::ambiguous(iface, ctx1.to_stack()))
                } else {
                    proof {
                        crate::catalog::lemma_bindings_in_range(*reg, layer as int, iface);
                        assert(bs@[0] == sp_bindings(*reg, layer as int, iface)[0]);
                    }
                    match build_instance(reg, st, layer, bs[0], &ctx1, fuel) {
                        Ok(s) => Ok(DepValue::One(s)),
                        Err(e) => Err(e),
                    }
                }
            }
        },
        DepKind::All => {
            let cat = Catalog { layer };
            let bs = cat.builders_for(reg, iface);
            proof {
                crate::catalog::lemma_bindings_in_range(*reg, layer as int, iface);
                assert(bs@.skip(0) =~= bs@);
                assert(forall|k: int|
                    0 <= k < bs@.len() ==> (#[trigger] bs@[k]) == sp_bindings(
                        *reg,
                        layer as int,
                        iface,
                    )[k]);
            }
            match build_list(reg, st, layer, &bs, 0, &ctx1, fuel) {
                Ok(ss) => Ok(DepValue::Many(ss)),
                Err(e) => Err(e),
            }
        },
        DepKind::MaybeOf(inner) => {
            match resolve_spec(reg, st, layer, iface, &**inner, &ctx1, fuel) {
                Ok(v) => Ok(v),
                Err(e) => match e {
                    InjectionError::Unregistered(_) => Ok(DepValue::Absent),
                    _ => Err(e),
                },
            }
        },
        DepKind::LazyOf(inner) => {
            Ok(
                DepValue::Deferred(
                    Lazy { catalog: Catalog { layer }, iface, kind: (**inner).clone() },
                ),
            )
        },
    }
}

pub(crate) fn build_list(
    reg: &Registry,
    st: &mut Store,
    layer: usize,
    bs: &Vec<usize>,
    i: usize,
    ctx: &InjectionContext,
    fuel: usize,
) -> (r: Result<Vec<usize>, InjectionError>)
    requires
        reg.wf(),
        layer < reg.layers@.len(),
        forall|k: int| 0 <= k < bs@.len() ==> (#[trigger] bs@[k]) < reg.builders@.len(),
        i <= bs@.len(),
    ensures
        ({
            let (st2, rr) = sp_build_list(
                *reg,
                old(st)@,
                layer,
                bs@.skip(i as int),
                ctx@,
                fuel as nat,
            );
            final(st)@ == st2 && serials_match(r, rr)
        }),
    decreases fuel, 0int, bs@.len() - i + 1,
{
    if i == bs.len() {
        proof {
            assert(bs@.skip(i as int) =~= Seq::<usize>::empty());
        }
        let empty: Vec<usize> = Vec::new();
        proof {
            assert(empty@.map_values(|x: usize| x as int) =~= Seq::<int>::empty());
        }
        Ok(empty)
    } else {
        proof {
            assert(bs@.skip(i as int)[0] == bs@[i as int]);
            assert(bs@.skip(i as int).skip(1) =~= bs@.skip(i + 1));
        }
        match build_instance(reg, st, layer, bs[i], ctx, fuel) {
            Err(e) => Err(e),
            Ok(s) => {
                match build_list(reg, st, layer, bs, i + 1, ctx, fuel) {
                    Err(e) => Err(e),
                    Ok(mut rest) => {
                        let ghost prev = rest@.map_values(|x: usize| x as int);
                        rest.insert(0, s);
                        proof {
                            assert(rest@.map_values(|x: usize| x as int) =~= seq![s as int]
                                + prev);
                        }
                        Ok(rest)
                    },
                }
            },
        }
    }
}

pub(crate) fn build_instance(
    reg: &Registry,
    st: &mut Store,
    layer: usize,
    b: usize,
    ctx: &InjectionContext,
    fuel: usize,
) -> (r: Result<usize, InjectionError>)
    requires
        reg.wf(),
        layer < reg.layers@.len(),
        b < reg.builders@.len(),
    ensures
        ({
            let (st2, rr) = sp_build(*reg, old(st)@, layer, b, ctx@, fuel as nat);
            final(st)@ == st2 && serial_matches(r, rr)
        }),
    decreases fuel, 0int, 0int,
{
    if fuel == 0 {
        return Err(InjectionError::cyclic(ctx.to_stack()));
    }
    let bb = &reg.builders[b];
    let ctx1 = ctx.push_build(bb.instance_type, bb.scope);
    match bb.scope {
        crate::scopes::ScopeKind::Singleton => {
            match singleton_find(&st.singletons, b) {
                Some(s) => Ok(s),
                None => {
                    match construct_instance(reg, st, layer, b, &ctx1, fuel - 1) {
                        Ok(s) => {
                            let ghost mid = st@;
                            st.singletons.push(SingletonSlot { builder: b, serial: s });
                            proof {
                                assert(st@.singletons =~= mid.singletons.push(
                                    CacheSlotV { builder: b, serial: s as int },
                                ));
                                assert(st@.instances =~= mid.instances);
                                assert(st@.tx =~= mid.tx);
                            }
                            Ok(s)
                        },
                        Err(e) => Err(e),
                    }
                },
            }
        },
        crate::scopes::ScopeKind::Cached(cache_tok) => {
            match resolve_spec(reg, st, layer, cache_tok, &DepKind::One, &ctx1, fuel - 1) {
                Ok(v) => match v {
                    DepValue::One(c) => {
                        match tx_find(&st.tx, c, b) {
                            Some(s) => Ok(s),
                            None => {
                                match construct_instance(reg, st, layer, b, &ctx1, fuel - 1) {
                                    Ok(s) => {
                                        let ghost mid = st@;
                                        st.tx.push(TxSlot { cache: c, builder: b, serial: s });
                                        proof {
                                            assert(st@.tx =~= mid.tx.push(
                                                TxSlotV {
                                                    cache: c as int,
                                                    builder: b,
                                                    serial: s as int,
                                                },
                                            ));
                                            assert(st@.instances =~= mid.instances);
                                            assert(st@.singletons =~= mid.singletons);
                                        }
                                        Ok(s)
                                    },
                                    Err(e) => Err(e),
                                }
                            },
                        }
                    },
                    _ => Err(InjectionError::unregistered(cache_tok, ctx1.to_stack())),
                },
                Err(e) => Err(e),
            }
        },
        _ => construct_instance(reg, st, layer, b, &ctx1, fuel - 1),
    }
}

pub(crate) fn construct_instance(
    reg: &Registry,
    st: &mut Store,
    layer: usize,
    b: usize,
    ctx: &InjectionContext,
    fuel: usize,
) -> (r: Result<usize, InjectionError>)
    requires
        reg.wf(),
        layer < reg.layers@.len(),
        b < reg.builders@.len(),
    ensures
        ({
            let (st2, rr) = sp_construct(*reg, old(st)@, layer, b, ctx@, fuel as nat);
            final(st)@ == st2 && serial_matches(r, rr)
        }),
    decreases fuel, 3int, 0int,
{
    match resolve_deps(reg, st, layer, b, 0, ctx, fuel) {
        Err(e) => Err(e),
        Ok(vals) => {
            let ghost mid = st@;
            let serial = st.instances.len();
            let bb = &reg.builders[b];
            let inst = Instance { instance_type: bb.instance_type, value: bb.value, deps: vals };
            st.instances.push(inst);
            proof {
                assert(st@.instances =~= mid.instances.push(inst@));
                assert(st@.singletons =~= mid.singletons);
                assert(st@.tx =~= mid.tx);
            }
            Ok(serial)
        },
    }
}

pub(crate) fn resolve_deps(
    reg: &Registry,
    st: &mut Store,
    layer: usize,
    b: usize,
    i: usize,
    ctx: &InjectionContext,
    fuel: usize,
) -> (r: Result<Vec<DepValue>, InjectionError>)
    requires
        reg.wf(),
        layer < reg.layers@.len(),
        b < reg.builders@.len(),
    ensures
        ({
            let (st2, rr) = sp_resolve_deps(*reg, old(st)@, layer, b, i as int, ctx@, fuel as nat);
            final(st)@ == st2 && (match r {
                Ok(v) => rr matches Ok(vals) && v@.map_values(|d: DepValue| d@) == vals,
                Err(e) => rr matches Err(ee) && e@ == ee,
            })
        }),
    decreases fuel, 2int, reg.builders@[b as int].dependencies@.len() - i,
{
    let deps_len = reg.builders[b].dependencies.len();
    if i >= deps_len {
        let empty: Vec<DepValue> = Vec::new();
        proof {
            assert(empty@.map_values(|d: DepValue| d@) =~= Seq::<DepValueV>::empty());
        }
        Ok(empty)
    } else {
        let d = &reg.builders[b].dependencies[i];
        if d.supplied {
            match resolve_deps(reg, st, layer, b, i + 1, ctx, fuel) {
                Err(e) => Err(e),
                Ok(mut rest) => {
                    let ghost prev = rest@;
                    rest.insert(0, DepValue::Supplied);
                    proof {
                        let f = |d: DepValue| d@;
                        assert(rest@ =~= seq![DepValue::Supplied] + prev);
                        assert(rest@.map_values(f) =~= seq![DepValueV::Supplied] + prev.map_values(
                            f,
                        ));
                    }
                    Ok(rest)
                },
            }
        } else {
            match resolve_spec(reg, st, layer, d.iface, &d.kind, ctx, fuel) {
                Err(e) => Err(e),
                Ok(v) => {
                    match resolve_deps(reg, st, layer, b, i + 1, ctx, fuel) {
                        Err(e) => Err(e),
                        Ok(mut rest) => {
                            let ghost vv = v@;
                            let ghost prev = rest@;
                            rest.insert(0, v);
                            proof {
                                let f = |d: DepValue| d@;
                                assert(rest@.map_values(f) =~= seq![vv] + prev.map_values(f));
                            }
                            Ok(rest)
                        },
                    }
                },
            }
        }
    }
}

} // verus!
