use vstd::prelude::*;

use crate::builder::Builder;
use crate::catalog::sp_all_builders;
use crate::catalog::sp_bindings;
use crate::catalog::Catalog;
use crate::catalog::CatalogBuilder;
use crate::catalog::LocalBinding;
use crate::catalog::Registry;
use crate::context::InjectionStack;
use crate::context::InjectionStackFrame;
use crate::deps::kind_requires_presence;
use crate::deps::kind_single;
use crate::deps::kind_tag;
use crate::deps::Dependency;
use crate::errors::error_key;
use crate::errors::InjectionError;
use crate::errors::InjectionErrorV;
use crate::errors::ValidationError;
use crate::scopes::scope_breadth;
use crate::scopes::scope_compatible;
use crate::scopes::ScopeKind;
use crate::token::TypeToken;
use crate::token::CATALOG_TYPE_ID;
use crate::token::CATALOG_WEAK_TYPE_ID;

verus! {

/// The scopes of the staged builders bound to an interface, in binding
/// order.
pub open spec fn sp_local_match_scopes(
    lbs: Seq<LocalBinding>,
    builders: Seq<Builder>,
    iface: TypeToken,
) -> Seq<ScopeKind>
    decreases lbs.len(),
{
    if lbs.len() == 0 {
        Seq::empty()
    } else {
        let init = sp_local_match_scopes(lbs.drop_last(), builders, iface);
        if lbs.last().iface == iface {
            init.push(builders[lbs.last().builder as int].scope)
        } else {
            init
        }
    }
}

/// The scopes of the chained catalog's builders bound to an interface.
pub open spec fn sp_chain_match_scopes(reg: Registry, layer: int, iface: TypeToken) -> Seq<
    ScopeKind,
> {
    sp_bindings(reg, layer, iface).map_values(|b: usize| reg.builders@[b as int].scope)
}

/// The scopes of every builder a staged catalog would bind to an interface:
/// staged bindings first, then the chained catalog's.
pub open spec fn sp_vmatch(cb: CatalogBuilder, reg: Registry, iface: TypeToken) -> Seq<ScopeKind> {
    sp_local_match_scopes(cb.bindings@, cb.builders@, iface) + (match cb.chained {
        Some(c) => sp_chain_match_scopes(reg, c.layer as int, iface),
        None => Seq::empty(),
    })
}

/// The diagnostic stack a validation error carries: the dependency being
/// resolved, inside the component declaring it, innermost first.
pub open spec fn sp_dep_stack(owner: Builder, d: Dependency) -> Seq<InjectionStackFrame> {
    seq![
        InjectionStackFrame::Resolve { iface: d.iface, tag: kind_tag(d.kind) },
        InjectionStackFrame::Build { instance_type: owner.instance_type, scope: owner.scope },
    ]
}

/// What validation reports about one declared dependency.
///
/// A supplied dependency, and the built-in catalog types, always validate.
/// Otherwise, no binding is an error only for strategies that require one;
/// several bindings are an error only for single-valued strategies; and a
/// sole binding must not be narrower-lived than the declaring component.
pub open spec fn sp_check_dep(
    cb: CatalogBuilder,
    reg: Registry,
    owner: Builder,
    d: Dependency,
) -> Option<InjectionErrorV> {
    if d.supplied {
        None
    } else if d.iface.id == CATALOG_TYPE_ID || d.iface.id == CATALOG_WEAK_TYPE_ID {
        None
    } else {
        let ms = sp_vmatch(cb, reg, d.iface);
        let stack = sp_dep_stack(owner, d);
        if ms.len() == 0 {
            if kind_requires_presence(d.kind) {
                Some(InjectionErrorV::Unregistered { type_id: d.iface, stack })
            } else {
                None
            }
        } else if ms.len() >= 2 {
            if kind_single(d.kind) {
                Some(InjectionErrorV::Ambiguous { type_id: d.iface, stack })
            } else {
                None
            }
        } else {
            if kind_single(d.kind) && !scope_compatible(owner.scope, ms[0]) {
                Some(
                    InjectionErrorV::ScopeInversion {
                        instance_type: owner.instance_type,
                        instance_scope: owner.scope,
                        dependency_type: d.iface,
                        dependency_scope: ms[0],
                        stack,
                    },
                )
            } else {
                None
            }
        }
    }
}

/// What validation reports about one builder's dependencies, from position
/// `i` on.
pub open spec fn sp_check_builder(
    cb: CatalogBuilder,
    reg: Registry,
    owner: Builder,
    i: int,
) -> Seq<InjectionErrorV>
    decreases owner.dependencies@.len() - i,
{
    if i < 0 || i >= owner.dependencies@.len() {
        Seq::empty()
    } else {
        let cur = match sp_check_dep(cb, reg, owner, owner.dependencies@[i]) {
            Some(e) => seq![e],
            None => Seq::<InjectionErrorV>::empty(),
        };
        cur + sp_check_builder(cb, reg, owner, i + 1)
    }
}

/// Every builder validation walks: the staged builders, then every builder
/// of the chained catalog.
pub open spec fn sp_walk_builders(cb: CatalogBuilder, reg: Registry) -> Seq<Builder> {
    cb.builders@ + (match cb.chained {
        Some(c) => sp_all_builders(reg, c.layer as int).map_values(
            |b: usize| reg.builders@[b as int],
        ),
        None => Seq::<Builder>::empty(),
    })
}

/// Whether an earlier walked builder already supplies the same concrete
/// type; such a builder is checked only once.
pub open spec fn sp_dup_before(bs: Seq<Builder>, i: int) -> bool {
    exists|j: int| 0 <= j < i && (#[trigger] bs[j]).instance_type == bs[i].instance_type
}

/// The raw validation report: every error of every walked builder, in walk
/// order, with builders deduplicated by concrete type.
pub open spec fn sp_validate_from(
    cb: CatalogBuilder,
    reg: Registry,
    bs: Seq<Builder>,
    i: int,
) -> Seq<InjectionErrorV>
    decreases bs.len() - i,
{
    if i < 0 || i >= bs.len() {
        Seq::empty()
    } else {
        let cur = if sp_dup_before(bs, i) {
            Seq::<InjectionErrorV>::empty()
        } else {
            sp_check_builder(cb, reg, bs[i], 0)
        };
        cur + sp_validate_from(cb, reg, bs, i + 1)
    }
}

/// Inserts an error into a report sorted by offending type, after any equal
/// keys so that the walk order is preserved within a key.
pub open spec fn sp_insert_sorted(s: Seq<InjectionErrorV>, e: InjectionErrorV) -> Seq<
    InjectionErrorV,
>
    decreases s.len(),
{
    if s.len() == 0 {
        seq![e]
    } else if error_key(s.last()) <= error_key(e) {
        s.push(e)
    } else {
        sp_insert_sorted(s.drop_last(), e).push(s.last())
    }
}

/// Sorts a report by offending type, stably.
pub open spec fn sp_sort(s: Seq<InjectionErrorV>) -> Seq<InjectionErrorV>
    decreases s.len(),
{
    if s.len() == 0 {
        Seq::empty()
    } else {
        sp_insert_sorted(sp_sort(s.drop_last()), s.last())
    }
}

/// Keeps the first error of every run of equal keys in a sorted report.
pub open spec fn sp_dedup(s: Seq<InjectionErrorV>) -> Seq<InjectionErrorV>
    decreases s.len(),
{
    if s.len() == 0 {
        Seq::empty()
    } else {
        let r = sp_dedup(s.drop_last());
        if r.len() > 0 && error_key(r.last()) == error_key(s.last()) {
            r
        } else {
            r.push(s.last())
        }
    }
}

/// The complete validation report of a staged catalog: every dependency
/// error over the whole graph, sorted and deduplicated by offending type.
pub open spec fn sp_validate(cb: CatalogBuilder, reg: Registry) -> Seq<InjectionErrorV> {
    sp_dedup(sp_sort(sp_validate_from(cb, reg, sp_walk_builders(cb, reg), 0)))
}

/// Compares two scope lifetimes.
fn scope_breadth_of(s: ScopeKind) -> (b: u8)
    ensures
        b as int == scope_breadth(s),
{
    match s {
        ScopeKind::Agnostic => 0,
        ScopeKind::Transient => 1,
        ScopeKind::Cached(_) => 2,
        ScopeKind::Singleton => 3,
    }
}

/// Whether a dependency's scope may be injected into a component of the
/// owner's scope.
fn scope_ok(owner: ScopeKind, dep: ScopeKind) -> (r: bool)
    ensures
        r == scope_compatible(owner, dep),
{
    match dep {
        ScopeKind::Agnostic => true,
        _ => scope_breadth_of(dep) >= scope_breadth_of(owner),
    }
}

fn dep_stack(owner: &Builder, d: &Dependency) -> (s: InjectionStack)
    ensures
        s@ == sp_dep_stack(*owner, *d),
{
    let mut frames: Vec<InjectionStackFrame> = Vec::new();
    frames.push(InjectionStackFrame::Resolve { iface: d.iface, tag: d.kind.tag() });
    frames.push(
        InjectionStackFrame::Build { instance_type: owner.instance_type, scope: owner.scope },
    );
    let s = InjectionStack { frames };
    proof {
        assert(s@ =~= sp_dep_stack(*owner, *d));
    }
    s
}

/// The scopes of every builder the staged catalog binds to the interface.
fn vmatch_scopes(cb: &CatalogBuilder, reg: &Registry, iface: TypeToken) -> (r: Vec<ScopeKind>)
    requires
        reg.wf(),
        cb.spec_wf(),
        (cb.chained matches Some(c) ==> c.layer < reg.layers@.len()),
    ensures
        r@ == sp_vmatch(*cb, *reg, iface),
{
    let mut r: Vec<ScopeKind> = Vec::new();
    let mut k: usize = 0;
    proof {
        assert(r@ =~= sp_local_match_scopes(cb.bindings@.take(0), cb.builders@, iface));
    }
    while k < cb.bindings.len()
        invariant
            k <= cb.bindings@.len(),
            cb.spec_wf(),
            r@ == sp_local_match_scopes(cb.bindings@.take(k as int), cb.builders@, iface),
        decreases cb.bindings@.len() - k,
    {
        proof {
            assert(cb.bindings@.take(k + 1).drop_last() =~= cb.bindings@.take(k as int));
            assert(cb.bindings@.take(k + 1).last() == cb.bindings@[k as int]);
        }
        let lb = cb.bindings[k];
        if lb.iface.id == iface.id {
            proof {
                assert(lb.iface == iface);
            }
            r.push(cb.builders[lb.builder].scope);
        } else {
            proof {
                assert(lb.iface != iface);
            }
        }
        k = k + 1;
    }
    proof {
        assert(cb.bindings@.take(cb.bindings@.len() as int) =~= cb.bindings@);
    }
    match cb.chained {
        Some(c) => {
            let bs = c.builders_for(reg, iface);
            proof {
                crate::catalog::lemma_bindings_in_range(*reg, c.layer as int, iface);
            }
            let ghost chain = sp_bindings(*reg, c.layer as int, iface);
            let ghost f = |b: usize| reg.builders@[b as int].scope;
            let ghost locals = sp_local_match_scopes(cb.bindings@, cb.builders@, iface);
            let mut j: usize = 0;
            proof {
                assert(r@ =~= locals + chain.take(0).map_values(f));
            }
            while j < bs.len()
                invariant
                    j <= bs@.len(),
                    reg.wf(),
                    bs@ == chain,
                    locals == sp_local_match_scopes(cb.bindings@, cb.builders@, iface),
                    f == (|b: usize| reg.builders@[b as int].scope),
                    forall|t: int| 0 <= t < chain.len() ==> (#[trigger] chain[t]) < reg.builders@.len(),
                    r@ == locals + chain.take(j as int).map_values(f),
                decreases bs@.len() - j,
            {
                r.push(reg.builders[bs[j]].scope);
                proof {
                    assert(chain.take(j + 1).map_values(f) =~= chain.take(j as int).map_values(
                        f,
                    ).push(f(chain[j as int])));
                    assert(r@ =~= locals + chain.take(j + 1).map_values(f));
                }
                j = j + 1;
            }
            proof {
                assert(chain.take(chain.len() as int) =~= chain);
                assert(r@ =~= sp_vmatch(*cb, *reg, iface));
            }
            r
        },
        None => {
            proof {
                assert(r@ =~= sp_vmatch(*cb, *reg, iface));
            }
            r
        },
    }
}

/// What validation reports about one declared dependency of one builder.
fn check_dep(cb: &CatalogBuilder, reg: &Registry, owner: &Builder, d: &Dependency) -> (r: Option<
    InjectionError,
>)
    requires
        reg.wf(),
        cb.spec_wf(),
        (cb.chained matches Some(c) ==> c.layer < reg.layers@.len()),
    ensures
        (match r {
            None => sp_check_dep(*cb, *reg, *owner, *d) is None,
            Some(e) => sp_check_dep(*cb, *reg, *owner, *d) == Some(e@),
        }),
{
    if d.supplied {
        return None;
    }
    if d.iface.id == CATALOG_TYPE_ID || d.iface.id == CATALOG_WEAK_TYPE_ID {
        return None;
    }
    let ms = vmatch_scopes(cb, reg, d.iface);
    if ms.len() == 0 {
        if d.kind.requires_presence() {
            Some(InjectionError::unregistered(d.iface, dep_stack(owner, d)))
        } else {
            None
        }
    } else if ms.len() >= 2 {
        if d.kind.single() {
            Some(InjectionError::ambiguous(d.iface, dep_stack(owner, d)))
        } else {
            None
        }
    } else {
        let dsc = ms[0];
        if d.kind.single() && !scope_ok(owner.scope, dsc) {
            Some(
                InjectionError::scope_inversion(
                    owner.instance_type,
                    owner.scope,
                    d.iface,
                    dsc,
                    dep_stack(owner, d),
                ),
            )
        } else {
            None
        }
    }
}

/// Appends every error of one builder's dependencies to the report.
fn check_builder(
    cb: &CatalogBuilder,
    reg: &Registry,
    owner: &Builder,
    out: &mut Vec<InjectionError>,
)
    requires
        reg.wf(),
        cb.spec_wf(),
        (cb.chained matches Some(c) ==> c.layer < reg.layers@.len()),
    ensures
        final(out)@.map_values(|e: InjectionError| e@) == old(out)@.map_values(
            |e: InjectionError| e@,
        ) + sp_check_builder(*cb, *reg, *owner, 0),
{
    let ghost f = |e: InjectionError| e@;
    let ghost base = old(out)@.map_values(f);
    let mut i: usize = 0;
    proof {
        assert(base + sp_check_builder(*cb, *reg, *owner, 0) =~= out@.map_values(f)
            + sp_check_builder(*cb, *reg, *owner, 0));
    }
    while i < owner.dependencies.len()
        invariant
            i <= owner.dependencies@.len(),
            reg.wf(),
            cb.spec_wf(),
            (cb.chained matches Some(c) ==> c.layer < reg.layers@.len()),
            f == (|e: InjectionError| e@),
            base + sp_check_builder(*cb, *reg, *owner, 0) =~= out@.map_values(f)
                + sp_check_builder(*cb, *reg, *owner, i as int),
        decreases owner.dependencies@.len() - i,
    {
        let ghost pre = out@.map_values(f);
        match check_dep(cb, reg, owner, &owner.dependencies[i]) {
            Some(e) => {
                let ghost ev = e@;
                out.push(e);
                proof {
                    assert(out@.map_values(f) =~= pre.push(ev));
                    assert(sp_check_builder(*cb, *reg, *owner, i as int) =~= seq![ev]
                        + sp_check_builder(*cb, *reg, *owner, i + 1));
                    assert(pre.push(ev) + sp_check_builder(*cb, *reg, *owner, i + 1) =~= pre + (
                    seq![ev] + sp_check_builder(*cb, *reg, *owner, i + 1)));
                }
            },
            None => {
                proof {
                    assert(sp_check_builder(*cb, *reg, *owner, i as int) =~= Seq::<
                        InjectionErrorV,
                    >::empty() + sp_check_builder(*cb, *reg, *owner, i + 1));
                    assert(Seq::<InjectionErrorV>::empty() + sp_check_builder(
                        *cb,
                        *reg,
                        *owner,
                        i + 1,
                    ) =~= sp_check_builder(*cb, *reg, *owner, i + 1));
                }
            },
        }
        i = i + 1;
    }
    proof {
        assert(sp_check_builder(*cb, *reg, *owner, i as int) =~= Seq::<InjectionErrorV>::empty());
        assert(out@.map_values(f) + Seq::<InjectionErrorV>::empty() =~= out@.map_values(f));
        assert(out@.map_values(f) =~= base + sp_check_builder(*cb, *reg, *owner, 0));
    }
}

fn insert_sorted(v: Vec<InjectionError>, e: InjectionError) -> (r: Vec<InjectionError>)
    ensures
        r@.map_values(|x: InjectionError| x@) == sp_insert_sorted(
            v@.map_values(|x: InjectionError| x@),
            e@,
        ),
    decreases v@.len(),
{
    let ghost f = |x: InjectionError| x@;
    let ghost pre = v@.map_values(f);
    let mut v = v;
    if v.len() == 0 {
        proof {
            assert(pre =~= Seq::<InjectionErrorV>::empty());
        }
        let ghost ev = e@;
        v.push(e);
        proof {
            assert(v@.map_values(f) =~= seq![ev]);
        }
        v
    } else {
        let lastk = v[v.len() - 1].key();
        proof {
            assert(pre.last() == v@.last()@);
        }
        if lastk <= e.key() {
            let ghost ev = e@;
            v.push(e);
            proof {
                assert(v@.map_values(f) =~= pre.push(ev));
            }
            v
        } else {
            let last = v.pop().unwrap();
            proof {
                assert(v@.map_values(f) =~= pre.drop_last());
            }
            let ghost lv = last@;
            let mut r = insert_sorted(v, e);
            r.push(last);
            proof {
                assert(r@.map_values(f) =~= sp_insert_sorted(pre.drop_last(), e@).push(lv));
            }
            r
        }
    }
}

fn sort_errors(v: Vec<InjectionError>) -> (r: Vec<InjectionError>)
    ensures
        r@.map_values(|x: InjectionError| x@) == sp_sort(v@.map_values(|x: InjectionError| x@)),
    decreases v@.len(),
{
    let ghost f = |x: InjectionError| x@;
    let ghost pre = v@.map_values(f);
    let mut v = v;
    if v.len() == 0 {
        proof {
            assert(pre =~= Seq::<InjectionErrorV>::empty());
            assert(v@.map_values(f) =~= sp_sort(pre));
        }
        v
    } else {
        let last = v.pop().unwrap();
        proof {
            assert(v@.map_values(f) =~= pre.drop_last());
        }
        let sorted = sort_errors(v);
        insert_sorted(sorted, last)
    }
}

fn dedup_errors(v: Vec<InjectionError>) -> (r: Vec<InjectionError>)
    ensures
        r@.map_values(|x: InjectionError| x@) == sp_dedup(v@.map_values(|x: InjectionError| x@)),
    decreases v@.len(),
{
    let ghost f = |x: InjectionError| x@;
    let ghost pre = v@.map_values(f);
    let mut v = v;
    if v.len() == 0 {
        proof {
            assert(pre =~= Seq::<InjectionErrorV>::empty());
            assert(v@.map_values(f) =~= sp_dedup(pre));
        }
        v
    } else {
        let last = v.pop().unwrap();
        proof {
            assert(v@.map_values(f) =~= pre.drop_last());
            assert(last@ == pre.last());
        }
        let ghost lv = last@;
        let mut r = dedup_errors(v);
        if r.len() > 0 && r[r.len() - 1].key() == last.key() {
            proof {
                assert(r@.map_values(f).last() == r@.last()@);
            }
            r
        } else {
            r.push(last);
            proof {
                assert(r@.map_values(f) =~= sp_dedup(pre.drop_last()).push(lv));
            }
            r
        }
    }
}

impl CatalogBuilder {
    /// Walks the whole dependency graph without constructing anything and
    /// reports every unresolvable, ambiguous or scope-inverted dependency,
    /// sorted and deduplicated by the offending type.  An empty report is
    /// success.
    pub fn validate(&self, reg: &Registry) -> (r: Result<(), ValidationError>)
        requires
            reg.wf(),
            self.spec_wf(),
            (self.chained matches Some(c) ==> c.layer < reg.layers@.len()),
        ensures
            (match r {
                Ok(u) => sp_validate(*self, *reg).len() == 0,
                Err(v) => v@ == sp_validate(*self, *reg) && v@.len() > 0,
            }),
    {
        let ghost bs = sp_walk_builders(*self, *reg);
        let ghost f = |e: InjectionError| e@;
        let mut raw: Vec<InjectionError> = Vec::new();
        let ln = self.builders.len();

        let chain_ids: Vec<usize> = match self.chained {
            Some(c) => {
                let ids = c.builders(reg);
                proof {
                    crate::catalog::lemma_all_builders_in_range(*reg, c.layer as int);
                }
                ids
            },
            None => Vec::new(),
        };
        proof {
            assert(bs.len() == ln + chain_ids@.len());
            assert(forall|t: int| 0 <= t < ln ==> bs[t] == self.builders@[t]);
            assert(forall|t: int|
                0 <= t < chain_ids@.len() ==> (#[trigger] chain_ids@[t]) < reg.builders@.len()
                    && bs[ln + t] == reg.builders@[chain_ids@[t] as int]);
            assert(raw@.map_values(f) =~= Seq::<InjectionErrorV>::empty());
            assert(sp_validate_from(*self, *reg, bs, 0) =~= raw@.map_values(f)
                + sp_validate_from(*self, *reg, bs, 0));
        }

        let mut i: usize = 0;
        while i < ln
            invariant
                i <= ln,
                ln == self.builders@.len(),
                reg.wf(),
                self.spec_wf(),
                (self.chained matches Some(c) ==> c.layer < reg.layers@.len()),
                bs == sp_walk_builders(*self, *reg),
                f == (|e: InjectionError| e@),
                bs.len() == ln + chain_ids@.len(),
                forall|t: int| 0 <= t < ln ==> bs[t] == self.builders@[t],
                sp_validate_from(*self, *reg, bs, 0) =~= raw@.map_values(f) + sp_validate_from(
                    *self,
                    *reg,
                    bs,
                    i as int,
                ),
            decreases ln - i,
        {
            let token = self.builders[i].instance_type;
            let mut dup = false;
            let mut j: usize = 0;
            while j < i
                invariant
                    j <= i,
                    i < ln,
                    ln == self.builders@.len(),
                    token == self.builders@[i as int].instance_type,
                    forall|t: int| 0 <= t < ln ==> bs[t] == self.builders@[t],
                    dup == exists|t: int|
                        0 <= t < j && (#[trigger] bs[t]).instance_type == token,
                decreases i - j,
            {
                if self.builders[j].instance_type.id == token.id {
                    proof {
                        assert(bs[j as int].instance_type == token);
                    }
                    dup = true;
                }
                j = j + 1;
            }
            proof {
                assert(dup == sp_dup_before(bs, i as int));
            }
            let ghost pre = raw@.map_values(f);
            if !dup {
                check_builder(self, reg, &self.builders[i], &mut raw);
            }
            proof {
                assert(sp_validate_from(*self, *reg, bs, i as int) =~= (if sp_dup_before(
                    bs,
                    i as int,
                ) {
                    Seq::<InjectionErrorV>::empty()
                } else {
                    sp_check_builder(*self, *reg, bs[i as int], 0)
                }) + sp_validate_from(*self, *reg, bs, i + 1));
                assert(bs[i as int] == self.builders@[i as int]);
                assert(sp_validate_from(*self, *reg, bs, 0) =~= raw@.map_values(f)
                    + sp_validate_from(*self, *reg, bs, i + 1));
            }
            i = i + 1;
        }

        let mut k: usize = 0;
        while k < chain_ids.len()
            invariant
                k <= chain_ids@.len(),
                ln == self.builders@.len(),
                reg.wf(),
                self.spec_wf(),
                (self.chained matches Some(c) ==> c.layer < reg.layers@.len()),
                bs == sp_walk_builders(*self, *reg),
                f == (|e: InjectionError| e@),
                bs.len() == ln + chain_ids@.len(),
                forall|t: int| 0 <= t < ln ==> bs[t] == self.builders@[t],
                forall|t: int|
                    0 <= t < chain_ids@.len() ==> (#[trigger] chain_ids@[t])
                        < reg.builders@.len() && bs[ln + t] == reg.builders@[
                        chain_ids@[t] as int
                    ],
                sp_validate_from(*self, *reg, bs, 0) =~= raw@.map_values(f) + sp_validate_from(
                    *self,
                    *reg,
                    bs,
                    ln + k,
                ),
            decreases chain_ids@.len() - k,
        {
            let owner = &reg.builders[chain_ids[k]];
            let token = owner.instance_type;
            proof {
                assert(bs[ln + k].instance_type == token);
            }
            let mut dup = false;
            let mut j: usize = 0;
            while j < ln
                invariant
                    j <= ln,
                    ln == self.builders@.len(),
                    token == bs[ln + k].instance_type,
                    forall|t: int| 0 <= t < ln ==> bs[t] == self.builders@[t],
                    dup == exists|t: int|
                        0 <= t < j && (#[trigger] bs[t]).instance_type == token,
                decreases ln - j,
            {
                if self.builders[j].instance_type.id == token.id {
                    proof {
                        assert(bs[j as int].instance_type == token);
                    }
                    dup = true;
                }
                j = j + 1;
            }
            let mut j2: usize = 0;
            while j2 < k
                invariant
                    j2 <= k,
                    k < chain_ids@.len(),
                    ln == self.builders@.len(),
                    token == bs[ln + k].instance_type,
                    forall|t: int|
                        0 <= t < chain_ids@.len() ==> (#[trigger] chain_ids@[t])
                            < reg.builders@.len() && bs[ln + t] == reg.builders@[
                            chain_ids@[t] as int
                        ],
                    dup == exists|t: int|
                        0 <= t < ln + j2 && (#[trigger] bs[t]).instance_type == token,
                decreases k - j2,
            {
                if reg.builders[chain_ids[j2]].instance_type.id == token.id {
                    proof {
                        assert(bs[ln + j2].instance_type == token);
                    }
                    dup = true;
                }
                proof {
                    if !dup {
                        assert forall|t: int|
                            0 <= t < ln + j2 + 1 implies (#[trigger] bs[t]).instance_type
                            != token by {
                            if t < ln + j2 {
                            } else {
                                assert(bs[ln + j2].instance_type != token);
                            }
                        }
                    }
                }
                j2 = j2 + 1;
            }
            proof {
                assert(dup == sp_dup_before(bs, ln + k));
            }
            if !dup {
                check_builder(self, reg, owner, &mut raw);
            }
            proof {
                assert(sp_validate_from(*self, *reg, bs, ln + k) =~= (if sp_dup_before(
                    bs,
                    ln + k,
                ) {
                    Seq::<InjectionErrorV>::empty()
                } else {
                    sp_check_builder(*self, *reg, bs[ln + k], 0)
                }) + sp_validate_from(*self, *reg, bs, ln + k + 1));
                assert(bs[ln + k] == reg.builders@[chain_ids@[k as int] as int]);
                assert(sp_validate_from(*self, *reg, bs, 0) =~= raw@.map_values(f)
                    + sp_validate_from(*self, *reg, bs, ln + k + 1));
            }
            k = k + 1;
        }

        proof {
            assert(sp_validate_from(*self, *reg, bs, ln + chain_ids@.len()) =~= Seq::<
                InjectionErrorV,
            >::empty());
            assert(raw@.map_values(f) =~= sp_validate_from(*self, *reg, bs, 0));
        }

        let sorted = sort_errors(raw);
        let deduped = dedup_errors(sorted);
        if deduped.len() == 0 {
            proof {
                assert(sp_validate(*self, *reg) =~= deduped@.map_values(f));
            }
            Ok(())
        } else {
            let v = ValidationError { errors: deduped };
            proof {
                assert(v@ =~= sp_validate(*self, *reg));
            }
            Err(v)
        }
    }
}

} // verus!
