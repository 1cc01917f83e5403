use vstd::prelude::*;

use crate::catalog::sp_bindings;
use crate::catalog::sp_upgrade;
use crate::catalog::Catalog;
use crate::catalog::CatalogWeakRef;
use crate::catalog::Registry;
use crate::context::InjectionContext;
use crate::context::InjectionStackFrame;
use crate::deps::kind_size;
use crate::deps::kind_tag;
use crate::deps::AllOf;
use crate::deps::DepKind;
use crate::deps::Maybe;
use crate::deps::OneOf;
use crate::errors::InjectionError;
use crate::errors::InjectionErrorV;
use crate::resolve::res_matches;
use crate::resolve::resolve_spec;
use crate::resolve::sp_default_fuel;
use crate::resolve::sp_err_ambiguous;
use crate::resolve::sp_err_unregistered;
use crate::resolve::sp_get;
use crate::store::DepValue;
use crate::store::DepValueV;
use crate::store::Lazy;
use crate::store::Store;
use crate::token::TypeToken;
use crate::token::CATALOG_TYPE_ID;
use crate::token::CATALOG_WEAK_TYPE_ID;

verus! {

/// Computes the fuel any acyclic graph over the registered builders can
/// need.
pub(crate) fn default_fuel(reg: &Registry) -> (f: usize)
    requires
        reg.wf(),
    ensures
        f as nat == sp_default_fuel(*reg),
{
    2 * reg.builders.len() + 2
}

impl Catalog {
    /// Resolves the interface by the given strategy against this catalog:
    /// the top-level entry point of the container.
    pub fn get(&self, reg: &Registry, st: &mut Store, iface: TypeToken, kind: &DepKind) -> (r:
        Result<DepValue, InjectionError>)
        requires
            reg.wf(),
            self.layer < reg.layers@.len(),
        ensures
            ({
                let (st2, rr) = sp_get(*reg, old(st)@, self.layer, iface, *kind);
                final(st)@ == st2 && res_matches(r, rr)
            }),
    {
        let ctx = InjectionContext::new_root();
        let fuel = default_fuel(reg);
        resolve_spec(reg, st, self.layer, iface, kind, &ctx, fuel)
    }

    /// Resolves exactly one instance of the interface and hands back its
    /// serial.  The built-in catalog types have no serial, so they are
    /// excluded here; ask `get` for them instead.
    pub fn get_one(&self, reg: &Registry, st: &mut Store, iface: TypeToken) -> (r: Result<
        usize,
        InjectionError,
    >)
        requires
            reg.wf(),
            self.layer < reg.layers@.len(),
            iface.id != CATALOG_TYPE_ID,
            iface.id != CATALOG_WEAK_TYPE_ID,
        ensures
            ({
                let (st2, rr) = sp_get(*reg, old(st)@, self.layer, iface, DepKind::One);
                final(st)@ == st2 && (match r {
                    Ok(s) => rr == Ok::<DepValueV, InjectionErrorV>(DepValueV::One(s as int)),
                    Err(e) => rr matches Err(ee) && e@ == ee,
                })
            }),
    {
        match self.get(reg, st, iface, &DepKind::One) {
            Ok(v) => match v {
                DepValue::One(s) => Ok(s),
                _ => {
                    proof {
                        assert(false);
                    }
                    Ok(0)
                },
            },
            Err(e) => Err(e),
        }
    }

    /// Resolves every registered implementation of the interface, local
    /// layer first, in registration order; no match at all is an empty
    /// sequence, not an error.
    pub fn get_all(&self, reg: &Registry, st: &mut Store, iface: TypeToken) -> (r: Result<
        Vec<usize>,
        InjectionError,
    >)
        requires
            reg.wf(),
            self.layer < reg.layers@.len(),
        ensures
            ({
                let (st2, rr) = sp_get(*reg, old(st)@, self.layer, iface, DepKind::All);
                final(st)@ == st2 && (match r {
                    Ok(v) => rr matches Ok(vv) && vv == DepValueV::Many(v@.map_values(|x: usize| x as int)),
                    Err(e) => rr matches Err(ee) && e@ == ee,
                })
            }),
    {
        match self.get(reg, st, iface, &DepKind::All) {
            Ok(v) => match v {
                DepValue::Many(ss) => Ok(ss),
                _ => {
                    proof {
                        assert(false);
                    }
                    Ok(Vec::new())
                },
            },
            Err(e) => Err(e),
        }
    }
}

/// What a dry run of a strategy reports without constructing anything: the
/// arity checks of `One`, absorption by `Maybe`, and nothing at all for
/// `All`.
pub open spec fn sp_check(
    reg: Registry,
    layer: usize,
    iface: TypeToken,
    kind: DepKind,
    ctx: Seq<InjectionStackFrame>,
) -> Result<(), InjectionErrorV>
    decreases kind,
{
    let ctx1 = ctx.push(InjectionStackFrame::Resolve { iface, tag: kind_tag(kind) });
    match kind {
        DepKind::One => {
            if iface.id == CATALOG_TYPE_ID || iface.id == CATALOG_WEAK_TYPE_ID {
                Ok(())
            } else {
                let bs = sp_bindings(reg, layer as int, iface);
                if bs.len() == 0 {
                    Err(sp_err_unregistered(iface, ctx1))
                } else if bs.len() >= 2 {
                    Err(sp_err_ambiguous(iface, ctx1))
                } else {
                    Ok(())
                }
            }
        },
        DepKind::All => Ok(()),
        DepKind::MaybeOf(inner) => match sp_check(reg, layer, iface, *inner, ctx1) {
            Ok(u) => Ok(u),
            Err(e) => if e is Unregistered {
                Ok(())
            } else {
                Err(e)
            },
        },
        DepKind::LazyOf(inner) => sp_check(reg, layer, iface, *inner, ctx1),
    }
}

/// Dry-runs a strategy: reports what `get` would report about bindings,
/// without constructing instances.
pub fn check_spec(
    reg: &Registry,
    layer: usize,
    iface: TypeToken,
    kind: &DepKind,
    ctx: &InjectionContext,
) -> (r: Result<(), InjectionError>)
    requires
        reg.wf(),
        layer < reg.layers@.len(),
    ensures
        (match r {
            Ok(u) => sp_check(*reg, layer, iface, *kind, ctx@) == Ok::<(), InjectionErrorV>(()),
            Err(e) => sp_check(*reg, layer, iface, *kind, ctx@) matches Err(ee) && e@ == ee,
        }),
    decreases kind_size(*kind),
{
    let ctx1 = ctx.push_resolve(iface, kind.tag());
    match kind {
        DepKind::One => {
            if iface.id == CATALOG_TYPE_ID || iface.id == CATALOG_WEAK_TYPE_ID {
                Ok(())
            } else {
                let cat = Catalog { layer };
                let bs = cat.builders_for(reg, iface);
                if bs.len() == 0 {
                    Err(InjectionError::unregistered(iface, ctx1.to_stack()))
                } else if bs.len() >= 2 {
                    Err(InjectionError::ambiguous(iface, ctx1.to_stack()))
                } else {
                    Ok(())
                }
            }
        },
        DepKind::All => Ok(()),
        DepKind::MaybeOf(inner) => match check_spec(reg, layer, iface, &**inner, &ctx1) {
            Ok(u) => Ok(u),
            Err(e) => match e {
                InjectionError::Unregistered(_) => Ok(()),
                _ => Err(e),
            },
        },
        DepKind::LazyOf(inner) => check_spec(reg, layer, iface, &**inner, &ctx1),
    }
}

impl OneOf {
    /// Resolves the single instance of this interface; zero or several
    /// candidates are errors.
    pub fn get(&self, cat: &Catalog, reg: &Registry, st: &mut Store) -> (r: Result<
        DepValue,
        InjectionError,
    >)
        requires
            reg.wf(),
            cat.layer < reg.layers@.len(),
        ensures
            ({
                let (st2, rr) = sp_get(*reg, old(st)@, cat.layer, self.iface, DepKind::One);
                final(st)@ == st2 && res_matches(r, rr)
            }),
    {
        cat.get(reg, st, self.iface, &DepKind::One)
    }

    /// Reports what `get` would report, without constructing anything.
    pub fn check(&self, cat: &Catalog, reg: &Registry) -> (r: Result<(), InjectionError>)
        requires
            reg.wf(),
            cat.layer < reg.layers@.len(),
        ensures
            (match r {
                Ok(u) => sp_check(*reg, cat.layer, self.iface, DepKind::One, Seq::empty())
                    == Ok::<(), InjectionErrorV>(()),
                Err(e) => sp_check(*reg, cat.layer, self.iface, DepKind::One, Seq::empty())
                    matches Err(ee) && e@ == ee,
            }),
    {
        let ctx = InjectionContext::new_root();
        check_spec(reg, cat.layer, self.iface, &DepKind::One, &ctx)
    }
}

impl AllOf {
    /// Resolves every registered implementation of this interface.
    pub fn get(&self, cat: &Catalog, reg: &Registry, st: &mut Store) -> (r: Result<
        Vec<usize>,
        InjectionError,
    >)
        requires
            reg.wf(),
            cat.layer < reg.layers@.len(),
        ensures
            ({
                let (st2, rr) = sp_get(*reg, old(st)@, cat.layer, self.iface, DepKind::All);
                final(st)@ == st2 && (match r {
                    Ok(v) => rr matches Ok(vv) && vv == DepValueV::Many(v@.map_values(|x: usize| x as int)),
                    Err(e) => rr matches Err(ee) && e@ == ee,
                })
            }),
    {
        cat.get_all(reg, st, self.iface)
    }

    /// Every number of matches is acceptable to this strategy, so a dry run
    /// reports nothing.
    pub fn check(&self, cat: &Catalog, reg: &Registry) -> (r: Result<(), InjectionError>)
        ensures
            r is Ok,
    {
        Ok(())
    }
}

impl Maybe {
    /// Resolves the inner strategy, absorbing an unregistered interface into
    /// an absent value.
    pub fn get(&self, cat: &Catalog, reg: &Registry, st: &mut Store) -> (r: Result<
        DepValue,
        InjectionError,
    >)
        requires
            reg.wf(),
            cat.layer < reg.layers@.len(),
        ensures
            ({
                let (st2, rr) = sp_get(
                    *reg,
                    old(st)@,
                    cat.layer,
                    self.iface,
                    DepKind::MaybeOf(Box::new(self.inner)),
                );
                final(st)@ == st2 && res_matches(r, rr)
            }),
    {
        let kind = DepKind::MaybeOf(Box::new(self.inner.clone()));
        cat.get(reg, st, self.iface, &kind)
    }

    /// Reports what `get` would report, without constructing anything.
    pub fn check(&self, cat: &Catalog, reg: &Registry) -> (r: Result<(), InjectionError>)
        requires
            reg.wf(),
            cat.layer < reg.layers@.len(),
        ensures
            (match r {
                Ok(u) => sp_check(
                    *reg,
                    cat.layer,
                    self.iface,
                    DepKind::MaybeOf(Box::new(self.inner)),
                    Seq::empty(),
                ) == Ok::<(), InjectionErrorV>(()),
                Err(e) => sp_check(
                    *reg,
                    cat.layer,
                    self.iface,
                    DepKind::MaybeOf(Box::new(self.inner)),
                    Seq::empty(),
                ) matches Err(ee) && e@ == ee,
            }),
    {
        let ctx = InjectionContext::new_root();
        let kind = DepKind::MaybeOf(Box::new(self.inner.clone()));
        check_spec(reg, cat.layer, self.iface, &kind, &ctx)
    }
}

impl Lazy {
    /// Re-runs the deferred strategy against the catalog captured when this
    /// handle was created.  Each invocation resolves afresh; only the
    /// dependency's own scope may cache underneath.
    pub fn get(&self, reg: &Registry, st: &mut Store) -> (r: Result<DepValue, InjectionError>)
        requires
            reg.wf(),
            self.catalog.layer < reg.layers@.len(),
        ensures
            ({
                let (st2, rr) = sp_get(*reg, old(st)@, self.catalog.layer, self.iface, self.kind);
                final(st)@ == st2 && res_matches(r, rr)
            }),
    {
        let ctx = InjectionContext::new_root();
        let fuel = default_fuel(reg);
        resolve_spec(reg, st, self.catalog.layer, self.iface, &self.kind, &ctx, fuel)
    }
}

impl CatalogWeakRef {
    /// Resolves through the first still-alive layer of the chain, with the
    /// given diagnostic context as the base.  Upgrading a fully dropped
    /// chain is a programmer error, which the precondition excludes.
    pub fn get_with_context(
        &self,
        reg: &Registry,
        st: &mut Store,
        iface: TypeToken,
        kind: &DepKind,
        ctx: &InjectionContext,
    ) -> (r: Result<DepValue, InjectionError>)
        requires
            reg.wf(),
            sp_upgrade(*reg, self.layers@) is Some,
        ensures
            ({
                let cat = sp_upgrade(*reg, self.layers@)->Some_0;
                let (st2, rr) = crate::resolve::sp_resolve(
                    *reg,
                    old(st)@,
                    cat.layer,
                    iface,
                    *kind,
                    ctx@,
                    sp_default_fuel(*reg),
                );
                final(st)@ == st2 && res_matches(r, rr)
            }),
    {
        let cat = match self.upgrade(reg) {
            Some(c) => c,
            None => {
                proof {
                    assert(false);
                }
                Catalog { layer: 0 }
            },
        };
        proof {
            lemma_upgrade_in_range(*reg, self.layers@);
        }
        let fuel = default_fuel(reg);
        resolve_spec(reg, st, cat.layer, iface, kind, ctx, fuel)
    }

    /// Resolves through the first still-alive layer of the chain.
    pub fn get(&self, reg: &Registry, st: &mut Store, iface: TypeToken, kind: &DepKind) -> (r:
        Result<DepValue, InjectionError>)
        requires
            reg.wf(),
            sp_upgrade(*reg, self.layers@) is Some,
        ensures
            ({
                let cat = sp_upgrade(*reg, self.layers@)->Some_0;
                let (st2, rr) = sp_get(*reg, old(st)@, cat.layer, iface, *kind);
                final(st)@ == st2 && res_matches(r, rr)
            }),
    {
        let ctx = InjectionContext::new_root();
        self.get_with_context(reg, st, iface, kind, &ctx)
    }

    /// Resolves exactly one instance through the first still-alive layer.
    pub fn get_one(&self, reg: &Registry, st: &mut Store, iface: TypeToken) -> (r: Result<
        usize,
        InjectionError,
    >)
        requires
            reg.wf(),
            sp_upgrade(*reg, self.layers@) is Some,
            iface.id != CATALOG_TYPE_ID,
            iface.id != CATALOG_WEAK_TYPE_ID,
        ensures
            ({
                let cat = sp_upgrade(*reg, self.layers@)->Some_0;
                let (st2, rr) = sp_get(*reg, old(st)@, cat.layer, iface, DepKind::One);
                final(st)@ == st2 && (match r {
                    Ok(s) => rr == Ok::<DepValueV, InjectionErrorV>(DepValueV::One(s as int)),
                    Err(e) => rr matches Err(ee) && e@ == ee,
                })
            }),
    {
        match self.get(reg, st, iface, &DepKind::One) {
            Ok(v) => match v {
                DepValue::One(s) => Ok(s),
                _ => {
                    proof {
                        assert(false);
                    }
                    Ok(0)
                },
            },
            Err(e) => Err(e),
        }
    }
}

/// An upgraded weak reference always points inside the registry.
pub proof fn lemma_upgrade_in_range(reg: Registry, layers: Seq<usize>)
    requires
        sp_upgrade(reg, layers) is Some,
    ensures
        (sp_upgrade(reg, layers)->Some_0).layer < reg.layers@.len(),
    decreases layers.len(),
{
    if layers.len() > 0 {
        if !(layers[0] < reg.layers@.len() && reg.layers@[layers[0] as int].alive) {
            lemma_upgrade_in_range(reg, layers.skip(1));
        }
    }
}

} // verus!
