use dill::Builder;
use dill::CatalogBuilder;
use dill::Cached;
use dill::DepKind;
use dill::DepValue;
use dill::InjectionError;
use dill::Registry;
use dill::Scope;
use dill::Singleton;
use dill::Store;
use dill::Transient;

fn leaf_name(value: u64) -> String {
    if value == 7 { "foo".to_string() } else { format!("{value}") }
}

#[test]
fn test_transient() {
    let mut reg = Registry::new();
    let a = reg.register_type("A".to_string());
    let name = reg.register_type("String".to_string());
    let aimpl = reg.register_type("AImpl".to_string());
    let mut cb = CatalogBuilder::new();
    cb.add_builder(
        Builder::new(aimpl).with_scope(&Transient::new()).with_dependency(name, DepKind::One),
    );
    cb.bind(a, aimpl);
    cb.add_value(name, 7);
    let cat = cb.build(&mut reg);
    let mut st = Store::new();

    let inst1 = cat.get_one(&reg, &mut st, a).unwrap();
    let inst2 = cat.get_one(&reg, &mut st, a).unwrap();

    // transient scope: a fresh instance per request
    assert_ne!(inst1, inst2);

    let render = |st: &Store, serial: usize| -> String {
        let inst = st.instance(serial).unwrap();
        match &inst.deps[0] {
            DepValue::One(s) => format!("aimpl::{}", leaf_name(st.instance(*s).unwrap().value)),
            _ => panic!("expected a resolved value"),
        }
    };
    assert_eq!(render(&st, inst1), "aimpl::foo");
    assert_eq!(render(&st, inst2), "aimpl::foo");
}

#[test]
fn test_singleton() {
    let mut reg = Registry::new();
    let a = reg.register_type("A".to_string());
    let name = reg.register_type("String".to_string());
    let aimpl = reg.register_type("AImpl".to_string());
    let mut cb = CatalogBuilder::new();
    cb.add_builder(
        Builder::new(aimpl).with_scope(&Singleton::new()).with_dependency(name, DepKind::One),
    );
    cb.bind(a, aimpl);
    cb.add_value(name, 7);
    let cat = cb.build(&mut reg);
    let mut st = Store::new();

    let inst1 = cat.get_one(&reg, &mut st, a).unwrap();
    let inst2 = cat.get_one(&reg, &mut st, a).unwrap();

    // singleton scope: the same shared instance on every request
    assert_eq!(inst1, inst2);

    let inst = st.instance(inst1).unwrap();
    let rendered = match &inst.deps[0] {
        DepValue::One(s) => format!("aimpl::{}", leaf_name(st.instance(*s).unwrap().value)),
        _ => panic!("expected a resolved value"),
    };
    assert_eq!(rendered, "aimpl::foo");
}

#[test]
fn test_chained_singleton() {
    let mut reg = Registry::new();
    let a = reg.register_type("A".to_string());
    let b = reg.register_type("B".to_string());
    let aimpl = reg.register_type("AImpl".to_string());
    let bimpl = reg.register_type("BImpl".to_string());

    let mut cb = CatalogBuilder::new();
    // the singleton A optionally depends on B, which only a later catalog binds
    cb.add_builder(
        Builder::new(aimpl).with_scope(&Singleton::new()).with_dependency(
            b,
            DepKind::MaybeOf(Box::new(DepKind::One)),
        ),
    );
    cb.bind(a, aimpl);
    let cat_earlier = cb.build(&mut reg);

    let mut cb2 = cat_earlier.builder_chained();
    cb2.add_value(bimpl, 11);
    cb2.bind(b, bimpl);
    let cat_later = cb2.build(&mut reg);

    let mut st = Store::new();
    let inst_a_1 = cat_earlier.get_one(&reg, &mut st, a).unwrap();
    let inst_a_2 = cat_earlier.get_one(&reg, &mut st, a).unwrap();
    assert_eq!(inst_a_1, inst_a_2);

    // the singleton cached through the base catalog is shared with the
    // chained catalog
    let inst_a_3 = cat_later.get_one(&reg, &mut st, a).unwrap();
    let inst_a_4 = cat_later.get_one(&reg, &mut st, a).unwrap();
    assert_eq!(inst_a_3, inst_a_4);
    assert_eq!(inst_a_2, inst_a_3);

    let inst_b_1 = cat_later.get_one(&reg, &mut st, b).unwrap();
    let inst_b_2 = cat_later.get_one(&reg, &mut st, b).unwrap();
    assert_eq!(st.instance(inst_b_1).unwrap().instance_type, bimpl);
    assert_eq!(inst_b_1, inst_b_2);

    // A was first resolved against the base catalog, where B was absent
    let first = st.instance(inst_a_1).unwrap();
    assert!(matches!(first.deps[0], DepValue::Absent));
}

#[test]
fn test_scope_transaction() {
    let mut reg = Registry::new();
    let a = reg.register_type("A".to_string());
    let b = reg.register_type("B".to_string());
    let aimpl = reg.register_type("AImpl".to_string());
    let bimpl = reg.register_type("BImpl".to_string());
    let tx_cache = reg.register_type("TransactionCache".to_string());

    let mut cb = CatalogBuilder::new();
    cb.add(
        Builder::new(aimpl).with_interface(a).with_dependency(
            b,
            DepKind::MaybeOf(Box::new(DepKind::One)),
        ),
    );
    cb.add(
        Builder::new(bimpl).with_interface(b).with_scope(&Cached::new(tx_cache)),
    );
    let base = cb.build(&mut reg);
    let mut st = Store::new();

    // outside a transaction the cache object is unregistered
    let res = base.get_one(&reg, &mut st, bimpl);
    assert!(matches!(res, Err(InjectionError::Unregistered(_))));

    // first transaction: B is shared within the transaction
    let mut txb = base.builder_chained();
    txb.add_value(tx_cache, 0);
    let tx = txb.build(&mut reg);

    let a1 = tx.get_one(&reg, &mut st, aimpl).unwrap();
    let b1 = tx.get_one(&reg, &mut st, bimpl).unwrap();
    let a1_b = match st.instance(a1).unwrap().deps[0] {
        DepValue::One(s) => s,
        _ => panic!("expected B inside A"),
    };
    // `b1` is the same instance as injected into `a1`
    assert_eq!(a1_b, b1);

    // a different A, but B is reused
    let a2 = tx.get_one(&reg, &mut st, aimpl).unwrap();
    assert_ne!(a1, a2);
    let a2_b = match st.instance(a2).unwrap().deps[0] {
        DepValue::One(s) => s,
        _ => panic!("expected B inside A"),
    };
    assert_eq!(a2_b, b1);

    // second transaction: its own cache, so B is re-created
    let mut txb2 = base.builder_chained();
    txb2.add_value(tx_cache, 0);
    let tx2 = txb2.build(&mut reg);
    let b2 = tx2.get_one(&reg, &mut st, bimpl).unwrap();
    assert_ne!(b1, b2);
}

#[test]
fn test_scope_kinds() {
    assert_eq!(Transient::new().kind(), dill::ScopeKind::Transient);
    assert_eq!(Singleton::new().kind(), dill::ScopeKind::Singleton);
    let t = dill::TypeToken::of(9);
    assert_eq!(Cached::new(t).kind(), dill::ScopeKind::Cached(t));
    assert_eq!(dill::Agnostic::new().kind(), dill::ScopeKind::Agnostic);
    let c = dill::TransactionCache::new(t);
    assert_eq!(dill::Cache::cache_type(&c), t);
    let ci = dill::CacheImpl::new(t);
    assert_eq!(dill::Cache::cache_type(&ci), t);
}
