use vstd::prelude::*;

use crate::catalog::sp_bindings;
use crate::catalog::CatalogBuilder;
use crate::catalog::LocalBinding;
use crate::catalog::Registry;
use crate::context::InjectionStackFrame;
use crate::deps::kind_size;
use crate::deps::DepKind;
use crate::deps::Dependency;
use crate::errors::InjectionErrorV;
use crate::scopes::scope_compatible;
use crate::scopes::ScopeKind;
use crate::store::sp_singleton_find;
use crate::store::sp_tx_find;
use crate::store::CacheSlotV;
use crate::store::StoreV;
use crate::store::TxSlotV;
use crate::resolve::sp_build;
use crate::resolve::sp_build_list;
use crate::resolve::sp_construct;
use crate::resolve::sp_resolve;
use crate::resolve::sp_resolve_deps;
use crate::store::DepValueV;
use crate::token::TypeToken;
use crate::token::CATALOG_TYPE_ID;
use crate::token::CATALOG_WEAK_TYPE_ID;

verus! {

/// Every cache slot points at a constructed instance of the type its
/// builder supplies.
pub open spec fn store_ok(reg: Registry, st: StoreV) -> bool {
    &&& forall|k: int|
        0 <= k < st.singletons.len() ==> {
            let slot = #[trigger] st.singletons[k];
            &&& slot.builder < reg.builders@.len()
            &&& 0 <= slot.serial < st.instances.len()
            &&& st.instances[slot.serial].instance_type == reg.builders@[
                slot.builder as int
            ].instance_type
        }
    &&& forall|k: int|
        0 <= k < st.tx.len() ==> {
            let slot = #[trigger] st.tx[k];
            &&& slot.builder < reg.builders@.len()
            &&& 0 <= slot.serial < st.instances.len()
            &&& st.instances[slot.serial].instance_type == reg.builders@[
                slot.builder as int
            ].instance_type
        }
}

/// No builder keys its cache scope to the built-in catalog types.
pub open spec fn scopes_wf(reg: Registry) -> bool {
    forall|j: int|
        0 <= j < reg.builders@.len() ==> ((#[trigger] reg.builders@[j]).scope matches
        ScopeKind::Cached(t) ==> t.id != CATALOG_TYPE_ID && t.id != CATALOG_WEAK_TYPE_ID)
}

/// The later store extends the earlier one: instances are append-only and
/// cache slots are never removed or changed.
pub open spec fn store_extends(st2: StoreV, st: StoreV) -> bool {
    &&& st.instances.len() <= st2.instances.len()
    &&& st2.instances.take(st.instances.len() as int) == st.instances
    &&& st.singletons.len() <= st2.singletons.len()
    &&& st2.singletons.take(st.singletons.len() as int) == st.singletons
    &&& st.tx.len() <= st2.tx.len()
    &&& st2.tx.take(st.tx.len() as int) == st.tx
}

pub proof fn lemma_extends_refl(st: StoreV)
    ensures
        store_extends(st, st),
{
    assert(st.instances.take(st.instances.len() as int) =~= st.instances);
    assert(st.singletons.take(st.singletons.len() as int) =~= st.singletons);
    assert(st.tx.take(st.tx.len() as int) =~= st.tx);
}

proof fn lemma_take_trans<T>(a: Seq<T>, b: Seq<T>, c: Seq<T>)
    requires
        a.len() <= b.len() <= c.len(),
        b.take(a.len() as int) == a,
        c.take(b.len() as int) == b,
    ensures
        c.take(a.len() as int) == a,
{
    assert forall|i: int| 0 <= i < a.len() implies c.take(a.len() as int)[i] == a[i] by {
        assert(c.take(b.len() as int)[i] == b[i]);
        assert(b.take(a.len() as int)[i] == a[i]);
    }
    assert(c.take(a.len() as int) =~= a);
}

pub proof fn lemma_extends_trans(st3: StoreV, st2: StoreV, st1: StoreV)
    requires
        store_extends(st2, st1),
        store_extends(st3, st2),
    ensures
        store_extends(st3, st1),
{
    lemma_take_trans(st1.instances, st2.instances, st3.instances);
    lemma_take_trans(st1.singletons, st2.singletons, st3.singletons);
    lemma_take_trans(st1.tx, st2.tx, st3.tx);
}

proof fn lemma_push_extends(st2: StoreV, st: StoreV)
    requires
        st2.instances == st.instances || st2.instances == st.instances.push(
            st2.instances.last(),
        ),
        st2.singletons == st.singletons || st2.singletons == st.singletons.push(
            st2.singletons.last(),
        ),
        st2.tx == st.tx || st2.tx == st.tx.push(st2.tx.last()),
    ensures
        store_extends(st2, st),
{
    assert(st2.instances.take(st.instances.len() as int) =~= st.instances);
    assert(st2.singletons.take(st.singletons.len() as int) =~= st.singletons);
    assert(st2.tx.take(st.tx.len() as int) =~= st.tx);
}

/// A cache answer comes from some slot of the cache.
proof fn lemma_singleton_find_witness(s: Seq<CacheSlotV>, b: usize)
    requires
        sp_singleton_find(s, b) is Some,
    ensures
        exists|k: int|
            0 <= k < s.len() && (#[trigger] s[k]).builder == b && s[k].serial == sp_singleton_find(
                s,
                b,
            )->Some_0,
    decreases s.len(),
{
    if s.len() > 0 {
        if s[0].builder == b {
            assert(s[0].builder == b && s[0].serial == sp_singleton_find(s, b)->Some_0);
        } else {
            lemma_singleton_find_witness(s.skip(1), b);
            let k = choose|k: int|
                0 <= k < s.skip(1).len() && (#[trigger] s.skip(1)[k]).builder == b && s.skip(
                    1,
                )[k].serial == sp_singleton_find(s.skip(1), b)->Some_0;
            assert(s[k + 1] == s.skip(1)[k]);
        }
    }
}

proof fn lemma_tx_find_witness(s: Seq<TxSlotV>, c: int, b: usize)
    requires
        sp_tx_find(s, c, b) is Some,
    ensures
        exists|k: int|
            0 <= k < s.len() && (#[trigger] s[k]).cache == c && s[k].builder == b && s[k].serial
                == sp_tx_find(s, c, b)->Some_0,
    decreases s.len(),
{
    if s.len() > 0 {
        if s[0].cache == c && s[0].builder == b {
            assert(s[0].cache == c && s[0].builder == b && s[0].serial == sp_tx_find(
                s,
                c,
                b,
            )->Some_0);
        } else {
            lemma_tx_find_witness(s.skip(1), c, b);
            let k = choose|k: int|
                0 <= k < s.skip(1).len() && (#[trigger] s.skip(1)[k]).cache == c && s.skip(
                    1,
                )[k].builder == b && s.skip(1)[k].serial == sp_tx_find(s.skip(1), c, b)->Some_0;
            assert(s[k + 1] == s.skip(1)[k]);
        }
    }
}

/// What one resolution step is guaranteed to do to the store and to hand
/// back: instances are append-only, caches only gain well-typed slots, a
/// single-instance result is the sole binding's instance, an all-matching
/// result pairs up with the bindings one for one, an unregistered error
/// always names an interface with no binding, and an ambiguous error always
/// names one with at least two.
pub proof fn lemma_resolve_frame(
    reg: Registry,
    st: StoreV,
    layer: usize,
    iface: TypeToken,
    kind: DepKind,
    ctx: Seq<InjectionStackFrame>,
    fuel: nat,
)
    requires
        reg.wf(),
        scopes_wf(reg),
        store_ok(reg, st),
    ensures
        ({
            let (st2, r) = sp_resolve(reg, st, layer, iface, kind, ctx, fuel);
            &&& store_extends(st2, st)
            &&& store_ok(reg, st2)
            &&& (r matches Ok(v) ==> (v matches DepValueV::One(s) ==> {
                &&& 0 <= s < st2.instances.len()
                &&& sp_bindings(reg, layer as int, iface).len() == 1
                &&& st2.instances[s as int].instance_type == reg.builders@[
                    sp_bindings(reg, layer as int, iface)[0] as int
                ].instance_type
            }))
            &&& (r matches Ok(v) ==> (v matches DepValueV::Many(ss) ==> {
                &&& ss.len() == sp_bindings(reg, layer as int, iface).len()
                &&& forall|k: int|
                    0 <= k < ss.len() ==> 0 <= (#[trigger] ss[k]) < st2.instances.len()
                        && st2.instances[ss[k]].instance_type == reg.builders@[
                        sp_bindings(reg, layer as int, iface)[k] as int
                    ].instance_type
            }))
            &&& (r matches Err(e) ==> (e matches InjectionErrorV::Unregistered { type_id, .. }
                ==> sp_bindings(reg, layer as int, type_id).len() == 0))
            &&& (r matches Err(e) ==> (e matches InjectionErrorV::Ambiguous { type_id, .. }
                ==> sp_bindings(reg, layer as int, type_id).len() >= 2))
        }),
    decreases fuel, 1int, kind_size(kind),
{
    let (st2, r) = sp_resolve(reg, st, layer, iface, kind, ctx, fuel);
    let ctx1 = ctx.push(
        InjectionStackFrame::Resolve { iface, tag: crate::deps::kind_tag(kind) },
    );
    match kind {
        DepKind::One => {
            if iface.id == CATALOG_TYPE_ID || iface.id == CATALOG_WEAK_TYPE_ID {
                lemma_extends_refl(st);
            } else {
                let bs = sp_bindings(reg, layer as int, iface);
                if bs.len() == 0 || bs.len() >= 2 {
                    lemma_extends_refl(st);
                } else {
                    crate::catalog::lemma_bindings_in_range(reg, layer as int, iface);
                    lemma_build_frame(reg, st, layer, bs[0], ctx1, fuel);
                }
            }
        },
        DepKind::All => {
            let bs = sp_bindings(reg, layer as int, iface);
            crate::catalog::lemma_bindings_in_range(reg, layer as int, iface);
            lemma_build_list_frame(reg, st, layer, bs, ctx1, fuel);
        },
        DepKind::MaybeOf(inner) => {
            lemma_resolve_frame(reg, st, layer, iface, *inner, ctx1, fuel);
        },
        DepKind::LazyOf(inner) => {
            lemma_extends_refl(st);
        },
    }
}

pub proof fn lemma_build_list_frame(
    reg: Registry,
    st: StoreV,
    layer: usize,
    bs: Seq<usize>,
    ctx: Seq<InjectionStackFrame>,
    fuel: nat,
)
    requires
        reg.wf(),
        scopes_wf(reg),
        store_ok(reg, st),
        forall|k: int| 0 <= k < bs.len() ==> (#[trigger] bs[k]) < reg.builders@.len(),
    ensures
        ({
            let (st2, r) = sp_build_list(reg, st, layer, bs, ctx, fuel);
            &&& store_extends(st2, st)
            &&& store_ok(reg, st2)
            &&& (r matches Err(e) ==> (e matches InjectionErrorV::Unregistered { type_id, .. }
                ==> sp_bindings(reg, layer as int, type_id).len() == 0))
            &&& (r matches Err(e) ==> (e matches InjectionErrorV::Ambiguous { type_id, .. }
                ==> sp_bindings(reg, layer as int, type_id).len() >= 2))
            &&& (r matches Ok(ss) ==> {
                &&& ss.len() == bs.len()
                &&& forall|k: int|
                    0 <= k < ss.len() ==> 0 <= (#[trigger] ss[k]) < st2.instances.len()
                        && st2.instances[ss[k]].instance_type == reg.builders@[
                        bs[k] as int
                    ].instance_type
            })
        }),
    decreases fuel, 0int, bs.len() + 1,
{
    let (st2, r) = sp_build_list(reg, st, layer, bs, ctx, fuel);
    if bs.len() == 0 {
        lemma_extends_refl(st);
    } else {
        let (st1, r1) = sp_build(reg, st, layer, bs[0], ctx, fuel);
        lemma_build_frame(reg, st, layer, bs[0], ctx, fuel);
        match r1 {
            Err(_) => {},
            Ok(s) => {
                let (stx, r2) = sp_build_list(reg, st1, layer, bs.skip(1), ctx, fuel);
                assert(forall|k: int|
                    0 <= k < bs.skip(1).len() ==> (#[trigger] bs.skip(1)[k])
                        < reg.builders@.len()) by {
                    assert forall|k: int| 0 <= k < bs.skip(1).len() implies (#[trigger] bs.skip(
                        1,
                    )[k]) < reg.builders@.len() by {
                        assert(bs.skip(1)[k] == bs[k + 1]);
                    }
                }
                lemma_build_list_frame(reg, st1, layer, bs.skip(1), ctx, fuel);
                lemma_extends_trans(stx, st1, st);
                match r2 {
                    Ok(rest) => {
                        let ss = seq![s] + rest;
                        assert(st2 == stx);
                        assert forall|k: int| 0 <= k < ss.len() implies 0 <= (#[trigger] ss[k])
                            < st2.instances.len() && st2.instances[ss[k]].instance_type
                            == reg.builders@[bs[k] as int].instance_type by {
                            if k == 0 {
                                assert(ss[0] == s);
                                assert(0 <= s < st1.instances.len());
                                assert(stx.instances.take(st1.instances.len() as int)[s]
                                    == st1.instances[s]);
                            } else {
                                assert(ss[k] == rest[k - 1]);
                                assert(bs.skip(1)[k - 1] == bs[k]);
                            }
                        }
                    },
                    Err(_) => {},
                }
            },
        }
    }
}

pub proof fn lemma_build_frame(
    reg: Registry,
    st: StoreV,
    layer: usize,
    b: usize,
    ctx: Seq<InjectionStackFrame>,
    fuel: nat,
)
    requires
        reg.wf(),
        scopes_wf(reg),
        store_ok(reg, st),
        b < reg.builders@.len(),
    ensures
        ({
            let (st2, r) = sp_build(reg, st, layer, b, ctx, fuel);
            &&& store_extends(st2, st)
            &&& store_ok(reg, st2)
            &&& (r matches Ok(s) ==> 0 <= s < st2.instances.len() && st2.instances[
                s
            ].instance_type == reg.builders@[b as int].instance_type)
            &&& (r matches Err(e) ==> (e matches InjectionErrorV::Unregistered { type_id, .. }
                ==> sp_bindings(reg, layer as int, type_id).len() == 0))
            &&& (r matches Err(e) ==> (e matches InjectionErrorV::Ambiguous { type_id, .. }
                ==> sp_bindings(reg, layer as int, type_id).len() >= 2))
        }),
    decreases fuel, 0int, 0int,
{
    let (st2, r) = sp_build(reg, st, layer, b, ctx, fuel);
    if fuel == 0 {
        lemma_extends_refl(st);
    } else {
        let bb = reg.builders@[b as int];
        let ctx1 = ctx.push(
            InjectionStackFrame::Build { instance_type: bb.instance_type, scope: bb.scope },
        );
        match bb.scope {
            ScopeKind::Singleton => {
                match sp_singleton_find(st.singletons, b) {
                    Some(s) => {
                        lemma_extends_refl(st);
                        lemma_singleton_find_witness(st.singletons, b);
                    },
                    None => {
                        let (st1, r1) = sp_construct(reg, st, layer, b, ctx1, (fuel - 1) as nat);
                        lemma_construct_frame(reg, st, layer, b, ctx1, (fuel - 1) as nat);
                        match r1 {
                            Ok(s) => {
                                let stp = StoreV {
                                    singletons: st1.singletons.push(
                                        CacheSlotV { builder: b, serial: s },
                                    ),
                                    ..st1
                                };
                                lemma_push_extends(stp, st1);
                                lemma_extends_trans(stp, st1, st);
                                assert(store_ok(reg, stp)) by {
                                    assert forall|k: int| 0 <= k < stp.singletons.len() implies {
                                        let slot = #[trigger] stp.singletons[k];
                                        &&& slot.builder < reg.builders@.len()
                                        &&& 0 <= slot.serial < stp.instances.len()
                                        &&& stp.instances[slot.serial].instance_type
                                            == reg.builders@[slot.builder as int].instance_type
                                    } by {
                                        if k < st1.singletons.len() {
                                            assert(stp.singletons[k] == st1.singletons[k]);
                                        } else {
                                            assert(stp.singletons[k] == (CacheSlotV {
                                                builder: b,
                                                serial: s,
                                            }));
                                        }
                                    }
                                }
                            },
                            Err(_) => {},
                        }
                    },
                }
            },
            ScopeKind::Cached(cache_tok) => {
                let (st1, rc) = sp_resolve(
                    reg,
                    st,
                    layer,
                    cache_tok,
                    DepKind::One,
                    ctx1,
                    (fuel - 1) as nat,
                );
                lemma_resolve_frame(reg, st, layer, cache_tok, DepKind::One, ctx1, (fuel - 1) as nat);
                match rc {
                    Ok(v) => match v {
                        DepValueV::One(c) => {
                            match sp_tx_find(st1.tx, c, b) {
                                Some(s) => {
                                    lemma_tx_find_witness(st1.tx, c, b);
                                },
                                None => {
                                    let (stx, r1) = sp_construct(
                                        reg,
                                        st1,
                                        layer,
                                        b,
                                        ctx1,
                                        (fuel - 1) as nat,
                                    );
                                    lemma_construct_frame(reg, st1, layer, b, ctx1, (fuel - 1) as nat);
                                    lemma_extends_trans(stx, st1, st);
                                    match r1 {
                                        Ok(s) => {
                                            let stp = StoreV {
                                                tx: stx.tx.push(
                                                    TxSlotV { cache: c, builder: b, serial: s },
                                                ),
                                                ..stx
                                            };
                                            lemma_push_extends(stp, stx);
                                            lemma_extends_trans(stp, stx, st);
                                            assert(store_ok(reg, stp)) by {
                                                assert forall|k: int|
                                                    0 <= k < stp.tx.len() implies {
                                                    let slot = #[trigger] stp.tx[k];
                                                    &&& slot.builder < reg.builders@.len()
                                                    &&& 0 <= slot.serial < stp.instances.len()
                                                    &&& stp.instances[slot.serial].instance_type
                                                        == reg.builders@[
                                                        slot.builder as int
                                                    ].instance_type
                                                } by {
                                                    if k < stx.tx.len() {
                                                        assert(stp.tx[k] == stx.tx[k]);
                                                    } else {
                                                        assert(stp.tx[k] == (TxSlotV {
                                                            cache: c,
                                                            builder: b,
                                                            serial: s,
                                                        }));
                                                    }
                                                }
                                            }
                                        },
                                        Err(_) => {},
                                    }
                                },
                            }
                        },
                        _ => {
                            assert(cache_tok.id != CATALOG_TYPE_ID && cache_tok.id
                                != CATALOG_WEAK_TYPE_ID);
                            assert(sp_bindings(reg, layer as int, cache_tok).len() == 1);
                        },
                    },
                    Err(_) => {},
                }
            },
            _ => {
                lemma_construct_frame(reg, st, layer, b, ctx1, (fuel - 1) as nat);
            },
        }
    }
}

pub proof fn lemma_construct_frame(
    reg: Registry,
    st: StoreV,
    layer: usize,
    b: usize,
    ctx: Seq<InjectionStackFrame>,
    fuel: nat,
)
    requires
        reg.wf(),
        scopes_wf(reg),
        store_ok(reg, st),
        b < reg.builders@.len(),
    ensures
        ({
            let (st2, r) = sp_construct(reg, st, layer, b, ctx, fuel);
            &&& store_extends(st2, st)
            &&& store_ok(reg, st2)
            &&& (r matches Ok(s) ==> {
                &&& st.instances.len() <= s < st2.instances.len()
                &&& st2.instances[s].instance_type == reg.builders@[b as int].instance_type
            })
            &&& (r matches Err(e) ==> (e matches InjectionErrorV::Unregistered { type_id, .. }
                ==> sp_bindings(reg, layer as int, type_id).len() == 0))
            &&& (r matches Err(e) ==> (e matches InjectionErrorV::Ambiguous { type_id, .. }
                ==> sp_bindings(reg, layer as int, type_id).len() >= 2))
        }),
    decreases fuel, 3int, 0int,
{
    let (st2, r) = sp_construct(reg, st, layer, b, ctx, fuel);
    let bb = reg.builders@[b as int];
    let (st1, r1) = sp_resolve_deps(reg, st, layer, b, 0, ctx, fuel);
    lemma_resolve_deps_frame(reg, st, layer, b, 0, ctx, fuel);
    match r1 {
        Err(_) => {},
        Ok(vals) => {
            let inst = crate::store::InstanceV {
                instance_type: bb.instance_type,
                value: bb.value,
                deps: vals,
            };
            let stp = StoreV { instances: st1.instances.push(inst), ..st1 };
            lemma_push_extends(stp, st1);
            lemma_extends_trans(stp, st1, st);
            assert(store_ok(reg, stp)) by {
                assert forall|k: int| 0 <= k < stp.singletons.len() implies {
                    let slot = #[trigger] stp.singletons[k];
                    &&& slot.builder < reg.builders@.len()
                    &&& 0 <= slot.serial < stp.instances.len()
                    &&& stp.instances[slot.serial].instance_type == reg.builders@[
                        slot.builder as int
                    ].instance_type
                } by {
                    assert(0 <= st1.singletons[k].serial < st1.instances.len());
                    assert(stp.instances[st1.singletons[k].serial] == st1.instances[
                        st1.singletons[k].serial
                    ]);
                }
                assert forall|k: int| 0 <= k < stp.tx.len() implies {
                    let slot = #[trigger] stp.tx[k];
                    &&& slot.builder < reg.builders@.len()
                    &&& 0 <= slot.serial < stp.instances.len()
                    &&& stp.instances[slot.serial].instance_type == reg.builders@[
                        slot.builder as int
                    ].instance_type
                } by {
                    assert(0 <= st1.tx[k].serial < st1.instances.len());
                    assert(stp.instances[st1.tx[k].serial] == st1.instances[st1.tx[k].serial]);
                }
            }
        },
    }
}

pub proof fn lemma_resolve_deps_frame(
    reg: Registry,
    st: StoreV,
    layer: usize,
    b: usize,
    i: int,
    ctx: Seq<InjectionStackFrame>,
    fuel: nat,
)
    requires
        reg.wf(),
        scopes_wf(reg),
        store_ok(reg, st),
        b < reg.builders@.len(),
    ensures
        ({
            let (st2, r) = sp_resolve_deps(reg, st, layer, b, i, ctx, fuel);
            &&& store_extends(st2, st)
            &&& store_ok(reg, st2)
            &&& (r matches Err(e) ==> (e matches InjectionErrorV::Unregistered { type_id, .. }
                ==> sp_bindings(reg, layer as int, type_id).len() == 0))
            &&& (r matches Err(e) ==> (e matches InjectionErrorV::Ambiguous { type_id, .. }
                ==> sp_bindings(reg, layer as int, type_id).len() >= 2))
        }),
    decreases fuel, 2int, reg.builders@[b as int].dependencies@.len() - i,
{
    let deps = reg.builders@[b as int].dependencies@;
    if i < 0 || i >= deps.len() {
        lemma_extends_refl(st);
    } else {
        let d = deps[i];
        if d.supplied {
            lemma_resolve_deps_frame(reg, st, layer, b, i + 1, ctx, fuel);
        } else {
            let (st1, r1) = sp_resolve(reg, st, layer, d.iface, d.kind, ctx, fuel);
            lemma_resolve_frame(reg, st, layer, d.iface, d.kind, ctx, fuel);
            match r1 {
                Err(_) => {},
                Ok(_) => {
                    let (stx, r2) = sp_resolve_deps(reg, st1, layer, b, i + 1, ctx, fuel);
                    lemma_resolve_deps_frame(reg, st1, layer, b, i + 1, ctx, fuel);
                    lemma_extends_trans(stx, st1, st);
                },
            }
        }
    }
}


/// ## The container's laws
///
/// The proof functions below state the container's user-facing guarantees
/// over the mathematical resolution engine: singleton idempotence, transient
/// freshness, the arity laws of single-instance resolution, completeness of
/// all-matching resolution, absorption by optional resolution, chaining
/// precedence, scope-inversion detection and weak-reference survival.

/// **Idempotent singleton**: once a singleton's construction has cached the
/// instance it handed back, asking the same catalog again returns the
/// pointer-identical instance and changes nothing.
///
/// The cache hypothesis rules out a singleton that transitively depends on
/// itself; such a graph deadlocks the container this models.
pub proof fn lemma_singleton_idempotent(
    reg: Registry,
    st0: StoreV,
    layer: usize,
    iface: TypeToken,
)
    requires
        reg.wf(),
        scopes_wf(reg),
        store_ok(reg, st0),
        iface.id != CATALOG_TYPE_ID,
        iface.id != CATALOG_WEAK_TYPE_ID,
        sp_bindings(reg, layer as int, iface).len() == 1,
        reg.builders@[sp_bindings(reg, layer as int, iface)[0] as int].scope
            == ScopeKind::Singleton,
    ensures
        ({
            let (st1, r1) = crate::resolve::sp_get(reg, st0, layer, iface, DepKind::One);
            let b0 = sp_bindings(reg, layer as int, iface)[0];
            r1 matches Ok(v) && v matches DepValueV::One(s) && sp_singleton_find(
                st1.singletons,
                b0,
            ) == Some(s) ==> crate::resolve::sp_get(reg, st1, layer, iface, DepKind::One) == (
            st1,
            r1,
            )
        }),
{
    let (st1, r1) = crate::resolve::sp_get(reg, st0, layer, iface, DepKind::One);
    let b0 = sp_bindings(reg, layer as int, iface)[0];
    let fuel = crate::resolve::sp_default_fuel(reg);
    crate::catalog::lemma_bindings_in_range(reg, layer as int, iface);
    match r1 {
        Ok(v) => match v {
            DepValueV::One(s) => {
                if sp_singleton_find(st1.singletons, b0) == Some(s) {
                    let ctx1 = Seq::<InjectionStackFrame>::empty().push(
                        InjectionStackFrame::Resolve { iface, tag: crate::deps::SpecTag::One },
                    );
                    assert(fuel > 0);
                    let (st2, r2) = sp_build(reg, st1, layer, b0, ctx1, fuel);
                    assert(st2 == st1 && r2 == Ok::<int, InjectionErrorV>(s));
                }
            },
            _ => {},
        },
        _ => {},
    }
}

/// **Idempotent singleton, pre-built form**: a singleton with no
/// dependencies (a registered value, or a lazily constructed one) always
/// resolves, and a second request returns the pointer-identical instance
/// with nothing changed.
pub proof fn lemma_singleton_value_idempotent(
    reg: Registry,
    st0: StoreV,
    layer: usize,
    iface: TypeToken,
)
    requires
        reg.wf(),
        scopes_wf(reg),
        store_ok(reg, st0),
        iface.id != CATALOG_TYPE_ID,
        iface.id != CATALOG_WEAK_TYPE_ID,
        sp_bindings(reg, layer as int, iface).len() == 1,
        reg.builders@[sp_bindings(reg, layer as int, iface)[0] as int].scope
            == ScopeKind::Singleton,
        reg.builders@[sp_bindings(reg, layer as int, iface)[0] as int].dependencies@.len() == 0,
    ensures
        ({
            let (st1, r1) = crate::resolve::sp_get(reg, st0, layer, iface, DepKind::One);
            &&& r1 matches Ok(v) && v is One
            &&& crate::resolve::sp_get(reg, st1, layer, iface, DepKind::One) == (st1, r1)
        }),
{
    let b0 = sp_bindings(reg, layer as int, iface)[0];
    let fuel = crate::resolve::sp_default_fuel(reg);
    crate::catalog::lemma_bindings_in_range(reg, layer as int, iface);
    assert(fuel > 0);
    let ctx1 = Seq::<InjectionStackFrame>::empty().push(
        InjectionStackFrame::Resolve { iface, tag: crate::deps::SpecTag::One },
    );
    let bb = reg.builders@[b0 as int];
    let ctx2 = ctx1.push(
        InjectionStackFrame::Build { instance_type: bb.instance_type, scope: bb.scope },
    );
    let (st1, r1) = crate::resolve::sp_get(reg, st0, layer, iface, DepKind::One);
    let bs = sp_bindings(reg, layer as int, iface);
    assert(bs[0] == b0);
    let (bst, br) = sp_build(reg, st0, layer, b0, ctx1, fuel);
    assert((st1, r1) == (match br {
        Ok(s) => (bst, Ok::<DepValueV, InjectionErrorV>(DepValueV::One(s))),
        Err(e) => (bst, Err::<DepValueV, InjectionErrorV>(e)),
    }));
    match sp_singleton_find(st0.singletons, b0) {
        Some(s) => {
            assert(bst == st0 && br == Ok::<int, InjectionErrorV>(s));
            assert(st1 == st0);
            assert(r1 == Ok::<DepValueV, InjectionErrorV>(DepValueV::One(s)));
        },
        None => {
            let (std, rd) = sp_resolve_deps(reg, st0, layer, b0, 0, ctx2, (fuel - 1) as nat);
            assert(std == st0 && rd == Ok::<Seq<DepValueV>, InjectionErrorV>(Seq::empty()));
            let s = st0.instances.len() as int;
            let (stc, rc) = sp_construct(reg, st0, layer, b0, ctx2, (fuel - 1) as nat);
            assert(rc == Ok::<int, InjectionErrorV>(s));
            crate::store::lemma_singleton_find_push(
                stc.singletons,
                CacheSlotV { builder: b0, serial: s },
                b0,
            );
            assert(st1.singletons == stc.singletons.push(CacheSlotV { builder: b0, serial: s }));
            assert(sp_singleton_find(st1.singletons, b0) == Some(s));
            assert(r1 == Ok::<DepValueV, InjectionErrorV>(DepValueV::One(s)));
        },
    }
    let s = sp_singleton_find(st1.singletons, b0)->Some_0;
    let (st2x, r2x) = sp_build(reg, st1, layer, b0, ctx1, fuel);
    assert(st2x == st1 && r2x == Ok::<int, InjectionErrorV>(s));
}

/// **Transient freshness**: two successful requests for a transient-scoped
/// component hand back distinct instances.
pub proof fn lemma_transient_fresh(reg: Registry, st0: StoreV, layer: usize, iface: TypeToken)
    requires
        reg.wf(),
        scopes_wf(reg),
        store_ok(reg, st0),
        iface.id != CATALOG_TYPE_ID,
        iface.id != CATALOG_WEAK_TYPE_ID,
        sp_bindings(reg, layer as int, iface).len() == 1,
        reg.builders@[sp_bindings(reg, layer as int, iface)[0] as int].scope
            == ScopeKind::Transient,
    ensures
        ({
            let (st1, r1) = crate::resolve::sp_get(reg, st0, layer, iface, DepKind::One);
            let (st2, r2) = crate::resolve::sp_get(reg, st1, layer, iface, DepKind::One);
            match (r1, r2) {
                (Ok(DepValueV::One(s1)), Ok(DepValueV::One(s2))) => s1 != s2,
                _ => true,
            }
        }),
{
    let b0 = sp_bindings(reg, layer as int, iface)[0];
    let fuel = crate::resolve::sp_default_fuel(reg);
    crate::catalog::lemma_bindings_in_range(reg, layer as int, iface);
    let (st1, r1) = crate::resolve::sp_get(reg, st0, layer, iface, DepKind::One);
    let (st2, r2) = crate::resolve::sp_get(reg, st1, layer, iface, DepKind::One);
    lemma_resolve_frame(
        reg,
        st0,
        layer,
        iface,
        DepKind::One,
        Seq::<InjectionStackFrame>::empty(),
        fuel,
    );
    lemma_resolve_frame(
        reg,
        st1,
        layer,
        iface,
        DepKind::One,
        Seq::<InjectionStackFrame>::empty(),
        fuel,
    );
    match (r1, r2) {
        (Ok(v1), Ok(v2)) => match (v1, v2) {
            (DepValueV::One(s1), DepValueV::One(s2)) => {
                assert(0 <= s1 < st1.instances.len());
                let ctx1 = Seq::<InjectionStackFrame>::empty().push(
                    InjectionStackFrame::Resolve { iface, tag: crate::deps::SpecTag::One },
                );
                let bb = reg.builders@[b0 as int];
                let ctx2 = ctx1.push(
                    InjectionStackFrame::Build {
                        instance_type: bb.instance_type,
                        scope: bb.scope,
                    },
                );
                assert(fuel > 0);
                let (bst2, br2) = sp_build(reg, st1, layer, b0, ctx1, fuel);
                assert((st2, r2) == (match br2 {
                    Ok(s) => (bst2, Ok::<DepValueV, InjectionErrorV>(DepValueV::One(s))),
                    Err(e) => (bst2, Err::<DepValueV, InjectionErrorV>(e)),
                }));
                let (stc, rc) = sp_construct(reg, st1, layer, b0, ctx2, (fuel - 1) as nat);
                assert((bst2, br2) == (stc, rc));
                lemma_construct_frame(reg, st1, layer, b0, ctx2, (fuel - 1) as nat);
                assert(rc == Ok::<int, InjectionErrorV>(s2));
                assert(s2 >= st1.instances.len());
            },
            _ => {},
        },
        _ => {},
    }
}

/// **Arity of single-instance resolution**: with no binding the request
/// fails as unregistered; with two or more it fails as ambiguous; a success
/// is possible only with exactly one binding and hands back an instance of
/// the bound builder's type.  Conversely, an unregistered or ambiguous
/// error naming the requested interface convicts its binding count.
pub proof fn lemma_exactly_one_arity(reg: Registry, st0: StoreV, layer: usize, iface: TypeToken)
    requires
        reg.wf(),
        scopes_wf(reg),
        store_ok(reg, st0),
        iface.id != CATALOG_TYPE_ID,
        iface.id != CATALOG_WEAK_TYPE_ID,
    ensures
        ({
            let (st2, r) = crate::resolve::sp_get(reg, st0, layer, iface, DepKind::One);
            let bs = sp_bindings(reg, layer as int, iface);
            let ctx1 = Seq::<InjectionStackFrame>::empty().push(
                InjectionStackFrame::Resolve { iface, tag: crate::deps::SpecTag::One },
            );
            &&& (bs.len() == 0 ==> st2 == st0 && r == Err::<DepValueV, InjectionErrorV>(
                crate::resolve::sp_err_unregistered(iface, ctx1),
            ))
            &&& (bs.len() >= 2 ==> st2 == st0 && r == Err::<DepValueV, InjectionErrorV>(
                crate::resolve::sp_err_ambiguous(iface, ctx1),
            ))
            &&& (r matches Ok(v) ==> bs.len() == 1 && v is One)
            &&& (r matches Ok(v) ==> (v matches DepValueV::One(s) ==> 0 <= s
                < st2.instances.len() && st2.instances[s].instance_type == reg.builders@[
                bs[0] as int
            ].instance_type))
            &&& (r matches Err(e) ==> (e matches InjectionErrorV::Unregistered { type_id, .. }
                && type_id == iface ==> bs.len() == 0))
            &&& (r matches Err(e) ==> (e matches InjectionErrorV::Ambiguous { type_id, .. }
                && type_id == iface ==> bs.len() >= 2))
        }),
{
    let fuel = crate::resolve::sp_default_fuel(reg);
    lemma_resolve_frame(
        reg,
        st0,
        layer,
        iface,
        DepKind::One,
        Seq::<InjectionStackFrame>::empty(),
        fuel,
    );
    let (st2, r) = crate::resolve::sp_get(reg, st0, layer, iface, DepKind::One);
    let bs = sp_bindings(reg, layer as int, iface);
    let ctx1 = Seq::<InjectionStackFrame>::empty().push(
        InjectionStackFrame::Resolve { iface, tag: crate::deps::SpecTag::One },
    );
    if bs.len() == 0 {
        assert(st2 == st0 && r == Err::<DepValueV, InjectionErrorV>(
            crate::resolve::sp_err_unregistered(iface, ctx1),
        ));
    } else if bs.len() >= 2 {
        assert(st2 == st0 && r == Err::<DepValueV, InjectionErrorV>(
            crate::resolve::sp_err_ambiguous(iface, ctx1),
        ));
    } else {
        let (bst, br) = sp_build(reg, st0, layer, bs[0], ctx1, fuel);
        assert((st2, r) == (match br {
            Ok(s) => (bst, Ok::<DepValueV, InjectionErrorV>(DepValueV::One(s))),
            Err(e) => (bst, Err::<DepValueV, InjectionErrorV>(e)),
        }));
    }
}

/// **All-matching completeness**: resolving every implementation hands back
/// exactly one instance per binding, in binding order (local layer first,
/// then the chained parents), each of the bound builder's type; an
/// interface with no binding at all yields the empty collection, never an
/// error.
pub proof fn lemma_all_matching_complete(
    reg: Registry,
    st0: StoreV,
    layer: usize,
    iface: TypeToken,
)
    requires
        reg.wf(),
        scopes_wf(reg),
        store_ok(reg, st0),
    ensures
        ({
            let (st2, r) = crate::resolve::sp_get(reg, st0, layer, iface, DepKind::All);
            let bs = sp_bindings(reg, layer as int, iface);
            &&& (bs.len() == 0 ==> st2 == st0 && r == Ok::<DepValueV, InjectionErrorV>(
                DepValueV::Many(Seq::empty()),
            ))
            &&& (r matches Ok(v) ==> v matches DepValueV::Many(ss) && ss.len() == bs.len()
                && (forall|k: int|
                0 <= k < ss.len() ==> 0 <= (#[trigger] ss[k]) < st2.instances.len()
                    && st2.instances[ss[k]].instance_type == reg.builders@[
                    bs[k] as int
                ].instance_type))
        }),
{
    let fuel = crate::resolve::sp_default_fuel(reg);
    lemma_resolve_frame(
        reg,
        st0,
        layer,
        iface,
        DepKind::All,
        Seq::<InjectionStackFrame>::empty(),
        fuel,
    );
    let (st2, r) = crate::resolve::sp_get(reg, st0, layer, iface, DepKind::All);
    let bs = sp_bindings(reg, layer as int, iface);
    let ctx1 = Seq::<InjectionStackFrame>::empty().push(
        InjectionStackFrame::Resolve { iface, tag: crate::deps::SpecTag::All },
    );
    let (stl, rl) = sp_build_list(reg, st0, layer, bs, ctx1, fuel);
    assert((st2, r) == (match rl {
        Ok(ss) => (stl, Ok::<DepValueV, InjectionErrorV>(DepValueV::Many(ss))),
        Err(e) => (stl, Err::<DepValueV, InjectionErrorV>(e)),
    }));
    if bs.len() == 0 {
        assert(stl == st0 && rl == Ok::<Seq<int>, InjectionErrorV>(Seq::empty()));
    }
}

/// **Optional absorption**: an optional single-instance dependency turns an
/// unregistered interface into an absent value with nothing changed, while
/// an ambiguous interface still fails, unchanged.
pub proof fn lemma_optional_absorption(reg: Registry, st0: StoreV, layer: usize, iface: TypeToken)
    requires
        reg.wf(),
        scopes_wf(reg),
        store_ok(reg, st0),
        iface.id != CATALOG_TYPE_ID,
        iface.id != CATALOG_WEAK_TYPE_ID,
    ensures
        ({
            let kind = DepKind::MaybeOf(Box::new(DepKind::One));
            let (st2, r) = crate::resolve::sp_get(reg, st0, layer, iface, kind);
            let bs = sp_bindings(reg, layer as int, iface);
            let ctx2 = Seq::<InjectionStackFrame>::empty().push(
                InjectionStackFrame::Resolve { iface, tag: crate::deps::SpecTag::Maybe },
            ).push(InjectionStackFrame::Resolve { iface, tag: crate::deps::SpecTag::One });
            &&& (bs.len() == 0 ==> st2 == st0 && r == Ok::<DepValueV, InjectionErrorV>(
                DepValueV::Absent,
            ))
            &&& (bs.len() >= 2 ==> st2 == st0 && r == Err::<DepValueV, InjectionErrorV>(
                crate::resolve::sp_err_ambiguous(iface, ctx2),
            ))
        }),
{
    let fuel = crate::resolve::sp_default_fuel(reg);
    let kind = DepKind::MaybeOf(Box::new(DepKind::One));
    let bs = sp_bindings(reg, layer as int, iface);
    let ctx1 = Seq::<InjectionStackFrame>::empty().push(
        InjectionStackFrame::Resolve { iface, tag: crate::deps::SpecTag::Maybe },
    );
    let ctx2 = ctx1.push(InjectionStackFrame::Resolve { iface, tag: crate::deps::SpecTag::One });
    let (st2, r) = crate::resolve::sp_get(reg, st0, layer, iface, kind);
    let (sti, ri) = sp_resolve(reg, st0, layer, iface, DepKind::One, ctx1, fuel);
    assert((st2, r) == (match ri {
        Ok(v) => (sti, Ok::<DepValueV, InjectionErrorV>(v)),
        Err(e) => if e is Unregistered {
            (sti, Ok::<DepValueV, InjectionErrorV>(DepValueV::Absent))
        } else {
            (sti, Err::<DepValueV, InjectionErrorV>(e))
        },
    }));
    if bs.len() == 0 {
        assert(sti == st0 && ri == Err::<DepValueV, InjectionErrorV>(
            crate::resolve::sp_err_unregistered(iface, ctx2),
        ));
    } else if bs.len() >= 2 {
        assert(sti == st0 && ri == Err::<DepValueV, InjectionErrorV>(
            crate::resolve::sp_err_ambiguous(iface, ctx2),
        ));
    }
}

/// A transient builder with no dependencies always resolves, whatever came
/// before.
proof fn lemma_resolve_one_simple(
    reg: Registry,
    st: StoreV,
    layer: usize,
    iface: TypeToken,
    ctx: Seq<InjectionStackFrame>,
    fuel: nat,
)
    requires
        reg.wf(),
        iface.id != CATALOG_TYPE_ID,
        iface.id != CATALOG_WEAK_TYPE_ID,
        sp_bindings(reg, layer as int, iface).len() == 1,
        reg.builders@[sp_bindings(reg, layer as int, iface)[0] as int].scope
            == ScopeKind::Transient,
        reg.builders@[sp_bindings(reg, layer as int, iface)[0] as int].dependencies@.len() == 0,
        fuel >= 1,
    ensures
        ({
            let (st2, r) = sp_resolve(reg, st, layer, iface, DepKind::One, ctx, fuel);
            r matches Ok(v) && v is One
        }),
{
    let b0 = sp_bindings(reg, layer as int, iface)[0];
    let ctx1 = ctx.push(InjectionStackFrame::Resolve { iface, tag: crate::deps::SpecTag::One });
    let bb = reg.builders@[b0 as int];
    let ctx2 = ctx1.push(
        InjectionStackFrame::Build { instance_type: bb.instance_type, scope: bb.scope },
    );
    let (st2, r) = sp_resolve(reg, st, layer, iface, DepKind::One, ctx, fuel);
    let (bst, br) = sp_build(reg, st, layer, b0, ctx1, fuel);
    assert((st2, r) == (match br {
        Ok(s) => (bst, Ok::<DepValueV, InjectionErrorV>(DepValueV::One(s))),
        Err(e) => (bst, Err::<DepValueV, InjectionErrorV>(e)),
    }));
    let (stc, rc) = sp_construct(reg, st, layer, b0, ctx2, (fuel - 1) as nat);
    assert((bst, br) == (stc, rc));
    let (std, rd) = sp_resolve_deps(reg, st, layer, b0, 0, ctx2, (fuel - 1) as nat);
    assert(std == st && rd == Ok::<Seq<DepValueV>, InjectionErrorV>(Seq::empty()));
    assert(rc is Ok);
}

/// **Chaining precedence**: with an implementation of `B` bound in a base
/// catalog and an implementation of `A`, depending on `B`, bound only in a
/// catalog chained onto it, both `A` and `B` resolve from the chained
/// catalog, while the base catalog alone reports `A` unregistered.
pub proof fn lemma_chaining_precedence(
    reg: Registry,
    st0: StoreV,
    base: usize,
    chained: usize,
    a: TypeToken,
    b: TypeToken,
)
    requires
        reg.wf(),
        scopes_wf(reg),
        store_ok(reg, st0),
        a.id != CATALOG_TYPE_ID && a.id != CATALOG_WEAK_TYPE_ID,
        b.id != CATALOG_TYPE_ID && b.id != CATALOG_WEAK_TYPE_ID,
        sp_bindings(reg, chained as int, a).len() == 1,
        sp_bindings(reg, chained as int, b).len() == 1,
        sp_bindings(reg, base as int, a).len() == 0,
        sp_bindings(reg, base as int, b) == sp_bindings(reg, chained as int, b),
        ({
            let ba = sp_bindings(reg, chained as int, a)[0];
            &&& reg.builders@[ba as int].scope == ScopeKind::Transient
            &&& reg.builders@[ba as int].dependencies@ == seq![
                crate::deps::Dependency { iface: b, kind: DepKind::One, supplied: false },
            ]
        }),
        ({
            let bb = sp_bindings(reg, chained as int, b)[0];
            &&& reg.builders@[bb as int].scope == ScopeKind::Transient
            &&& reg.builders@[bb as int].dependencies@.len() == 0
        }),
    ensures
        ({
            let (st2, r) = crate::resolve::sp_get(reg, st0, chained, a, DepKind::One);
            r matches Ok(v) && v is One
        }),
        ({
            let (st2, r) = crate::resolve::sp_get(reg, st0, chained, b, DepKind::One);
            r matches Ok(v) && v is One
        }),
        ({
            let ctx1 = Seq::<InjectionStackFrame>::empty().push(
                InjectionStackFrame::Resolve { iface: a, tag: crate::deps::SpecTag::One },
            );
            crate::resolve::sp_get(reg, st0, base, a, DepKind::One) == (
                st0,
                Err::<DepValueV, InjectionErrorV>(
                    crate::resolve::sp_err_unregistered(a, ctx1),
                ),
            )
        }),
{
    let fuel = crate::resolve::sp_default_fuel(reg);
    let ba = sp_bindings(reg, chained as int, a)[0];
    let bb = sp_bindings(reg, chained as int, b)[0];
    crate::catalog::lemma_bindings_in_range(reg, chained as int, a);
    crate::catalog::lemma_bindings_in_range(reg, chained as int, b);
    assert(reg.builders@.len() >= 1);
    assert(fuel >= 4);

    // B from the chained catalog
    lemma_resolve_one_simple(
        reg,
        st0,
        chained,
        b,
        Seq::<InjectionStackFrame>::empty(),
        fuel,
    );

    // A from the chained catalog: its sole dependency is B, which resolves
    // one fuel level down.
    let ctx1 = Seq::<InjectionStackFrame>::empty().push(
        InjectionStackFrame::Resolve { iface: a, tag: crate::deps::SpecTag::One },
    );
    let bba = reg.builders@[ba as int];
    let ctx2 = ctx1.push(
        InjectionStackFrame::Build { instance_type: bba.instance_type, scope: bba.scope },
    );
    let (stg, rg) = crate::resolve::sp_get(reg, st0, chained, a, DepKind::One);
    let (bst, br) = sp_build(reg, st0, chained, ba, ctx1, fuel);
    assert((stg, rg) == (match br {
        Ok(s) => (bst, Ok::<DepValueV, InjectionErrorV>(DepValueV::One(s))),
        Err(e) => (bst, Err::<DepValueV, InjectionErrorV>(e)),
    }));
    let (stc, rc) = sp_construct(reg, st0, chained, ba, ctx2, (fuel - 1) as nat);
    assert((bst, br) == (stc, rc));
    let (stdd, rdd) = sp_resolve_deps(reg, st0, chained, ba, 0, ctx2, (fuel - 1) as nat);
    assert(rc == (match rdd {
        Err(e) => Err::<int, InjectionErrorV>(e),
        Ok(vals) => Ok::<int, InjectionErrorV>(stdd.instances.len() as int),
    }));
    assert(bba.dependencies@[0] == (crate::deps::Dependency {
        iface: b,
        kind: DepKind::One,
        supplied: false,
    }));
    let (std0, rd0) = sp_resolve(reg, st0, chained, b, DepKind::One, ctx2, (fuel - 1) as nat);
    lemma_resolve_one_simple(reg, st0, chained, b, ctx2, (fuel - 1) as nat);
    let (std1, rd1) = sp_resolve_deps(reg, std0, chained, ba, 1, ctx2, (fuel - 1) as nat);
    assert(std1 == std0 && rd1 == Ok::<Seq<DepValueV>, InjectionErrorV>(Seq::empty()));
    assert(rdd == (match rd0 {
        Err(e) => Err::<Seq<DepValueV>, InjectionErrorV>(e),
        Ok(v) => (match rd1 {
            Ok(rest) => Ok::<Seq<DepValueV>, InjectionErrorV>(seq![v] + rest),
            Err(e) => Err::<Seq<DepValueV>, InjectionErrorV>(e),
        }),
    }));
    assert(rdd is Ok);
    assert(rc is Ok);
    assert(rg matches Ok(v) && v is One);
}

/// **Weak-reference survival**: after the strong handle to an inner chained
/// layer is dropped, a weak reference over the chain still upgrades to the
/// outer, still-alive layer, and types registered there still resolve.
pub proof fn lemma_weak_ref_survival(
    reg: Registry,
    st0: StoreV,
    inner: usize,
    outer: usize,
    iface: TypeToken,
)
    requires
        reg.wf(),
        scopes_wf(reg),
        store_ok(reg, st0),
        inner < reg.layers@.len(),
        outer < reg.layers@.len(),
        !reg.layers@[inner as int].alive,
        reg.layers@[outer as int].alive,
        iface.id != CATALOG_TYPE_ID,
        iface.id != CATALOG_WEAK_TYPE_ID,
        sp_bindings(reg, outer as int, iface).len() == 1,
        reg.builders@[sp_bindings(reg, outer as int, iface)[0] as int].scope
            == ScopeKind::Transient,
        reg.builders@[sp_bindings(reg, outer as int, iface)[0] as int].dependencies@.len() == 0,
    ensures
        crate::catalog::sp_upgrade(reg, seq![inner, outer]) == Some(
            crate::catalog::Catalog { layer: outer },
        ),
        ({
            let (st2, r) = crate::resolve::sp_get(reg, st0, outer, iface, DepKind::One);
            r matches Ok(v) && v is One
        }),
{
    let w = seq![inner, outer];
    assert(w.skip(1) =~= seq![outer]);
    assert(seq![outer].skip(1) =~= Seq::<usize>::empty());
    assert(crate::catalog::sp_upgrade(reg, seq![outer]) == Some(
        crate::catalog::Catalog { layer: outer },
    ));
    assert(crate::catalog::sp_upgrade(reg, w) == crate::catalog::sp_upgrade(reg, seq![outer]));
    let fuel = crate::resolve::sp_default_fuel(reg);
    crate::catalog::lemma_bindings_in_range(reg, outer as int, iface);
    assert(fuel >= 1);
    lemma_resolve_one_simple(
        reg,
        st0,
        outer,
        iface,
        Seq::<InjectionStackFrame>::empty(),
        fuel,
    );
}


/// **Scope-inversion detection**: staging a singleton-scoped component
/// whose single-instance dependency is bound to a shorter-lived builder
/// makes validation fail with exactly one scope-inversion error naming that
/// dependency, while a compatible scope (an agnostic one in particular)
/// validates cleanly.
pub proof fn lemma_scope_inversion_detection(cb: CatalogBuilder, reg: Registry, iface: TypeToken)
    requires
        reg.wf(),
        cb.chained is None,
        cb.builders@.len() == 2,
        cb.bindings@ == seq![LocalBinding { iface, builder: 1 }],
        cb.builders@[0].scope == ScopeKind::Singleton,
        cb.builders@[0].dependencies@ == seq![
            Dependency { iface, kind: DepKind::One, supplied: false },
        ],
        cb.builders@[1].dependencies@.len() == 0,
        cb.builders@[0].instance_type != cb.builders@[1].instance_type,
        iface.id != CATALOG_TYPE_ID,
        iface.id != CATALOG_WEAK_TYPE_ID,
    ensures
        !scope_compatible(ScopeKind::Singleton, cb.builders@[1].scope)
            ==> crate::validate::sp_validate(cb, reg) == seq![
            InjectionErrorV::ScopeInversion {
                instance_type: cb.builders@[0].instance_type,
                instance_scope: ScopeKind::Singleton,
                dependency_type: iface,
                dependency_scope: cb.builders@[1].scope,
                stack: crate::validate::sp_dep_stack(
                    cb.builders@[0],
                    cb.builders@[0].dependencies@[0],
                ),
            },
        ],
        scope_compatible(ScopeKind::Singleton, cb.builders@[1].scope)
            ==> crate::validate::sp_validate(cb, reg).len() == 0,
{
    let bs = crate::validate::sp_walk_builders(cb, reg);
    assert(bs =~= cb.builders@);
    let b0 = cb.builders@[0];
    let b1 = cb.builders@[1];
    let d = b0.dependencies@[0];
    assert(d == (Dependency { iface, kind: DepKind::One, supplied: false }));

    // the single staged binding matches the dependency's interface
    let lb = cb.bindings@[0];
    assert(cb.bindings@.drop_last() =~= Seq::<LocalBinding>::empty());
    assert(crate::validate::sp_local_match_scopes(
        Seq::<LocalBinding>::empty(),
        cb.builders@,
        iface,
    ) == Seq::<ScopeKind>::empty());
    assert(cb.bindings@.last() == lb);
    let ms = crate::validate::sp_vmatch(cb, reg, iface);
    assert(crate::validate::sp_local_match_scopes(cb.bindings@, cb.builders@, iface) =~= seq![
        b1.scope,
    ]);
    assert(ms =~= seq![b1.scope]);
    assert(ms.len() == 1);
    assert(ms[0] == b1.scope);
    assert(crate::deps::kind_single(DepKind::One));
    assert(crate::deps::kind_requires_presence(DepKind::One));

    let verdict = crate::validate::sp_check_dep(cb, reg, b0, d);
    let err = InjectionErrorV::ScopeInversion {
        instance_type: b0.instance_type,
        instance_scope: ScopeKind::Singleton,
        dependency_type: iface,
        dependency_scope: b1.scope,
        stack: crate::validate::sp_dep_stack(b0, d),
    };
    if !scope_compatible(ScopeKind::Singleton, b1.scope) {
        assert(verdict == Some(err));
    } else {
        assert(verdict is None);
    }

    // the first builder's report is its dependency's verdict
    assert(crate::validate::sp_check_builder(cb, reg, b0, 1) == Seq::<InjectionErrorV>::empty());
    let rep0 = crate::validate::sp_check_builder(cb, reg, b0, 0);
    // the second builder has no dependencies
    assert(crate::validate::sp_check_builder(cb, reg, b1, 0) == Seq::<InjectionErrorV>::empty());

    // walk: neither builder repeats a concrete type
    assert(!crate::validate::sp_dup_before(bs, 0));
    assert(!crate::validate::sp_dup_before(bs, 1)) by {
        assert(bs[0].instance_type != bs[1].instance_type);
    }
    assert(crate::validate::sp_validate_from(cb, reg, bs, 2) == Seq::<InjectionErrorV>::empty());
    assert(crate::validate::sp_validate_from(cb, reg, bs, 1) =~= Seq::<InjectionErrorV>::empty());
    let raw = crate::validate::sp_validate_from(cb, reg, bs, 0);
    assert(raw =~= rep0);

    if !scope_compatible(ScopeKind::Singleton, b1.scope) {
        assert(rep0 =~= seq![err]);
        assert(seq![err].drop_last() =~= Seq::<InjectionErrorV>::empty());
        assert(crate::validate::sp_sort(Seq::<InjectionErrorV>::empty()) == Seq::<
            InjectionErrorV,
        >::empty());
        assert(crate::validate::sp_insert_sorted(Seq::<InjectionErrorV>::empty(), err) == seq![
            err,
        ]);
        assert(crate::validate::sp_sort(seq![err]) == seq![err]);
        assert(crate::validate::sp_dedup(Seq::<InjectionErrorV>::empty()) == Seq::<
            InjectionErrorV,
        >::empty());
        assert(crate::validate::sp_dedup(seq![err]) =~= seq![err]);
        assert(crate::validate::sp_validate(cb, reg) =~= seq![err]);
    } else {
        assert(rep0 =~= Seq::<InjectionErrorV>::empty());
        assert(raw =~= Seq::<InjectionErrorV>::empty());
        assert(crate::validate::sp_sort(raw) == Seq::<InjectionErrorV>::empty());
        assert(crate::validate::sp_dedup(crate::validate::sp_sort(raw)) == Seq::<
            InjectionErrorV,
        >::empty());
    }
}

} // verus!
