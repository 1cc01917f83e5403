use dill::AllOf;
use dill::Builder;
use dill::CatalogBuilder;
use dill::DepKind;
use dill::DepValue;
use dill::InjectionError;
use dill::Maybe;
use dill::OneOf;
use dill::Registry;
use dill::Store;

#[test]
fn test_maybe() {
    let mut reg = Registry::new();
    let a = reg.register_type("A".to_string());
    let b = reg.register_type("B".to_string());
    let aimpl = reg.register_type("AImpl".to_string());
    let mut cb = CatalogBuilder::new();
    cb.add_builder(Builder::new(aimpl));
    cb.bind(a, aimpl);
    let cat = cb.build(&mut reg);
    let mut st = Store::new();

    let maybe_b = DepKind::MaybeOf(Box::new(DepKind::One));
    match cat.get(&reg, &mut st, b, &maybe_b).unwrap() {
        DepValue::Absent => {},
        _ => panic!("expected an absent optional value"),
    }
    match cat.get(&reg, &mut st, a, &maybe_b).unwrap() {
        DepValue::One(_) => {},
        _ => panic!("expected a present optional value"),
    }
    let maybe_all_a = DepKind::MaybeOf(Box::new(DepKind::All));
    match cat.get(&reg, &mut st, a, &maybe_all_a).unwrap() {
        DepValue::Many(v) => assert_eq!(v.len(), 1),
        _ => panic!("expected the collection of implementations"),
    }
}

#[test]
fn test_maybe_derive() {
    let mut reg = Registry::new();
    let a = reg.register_type("A".to_string());
    let val = reg.register_type("i32".to_string());
    let aimpl = reg.register_type("AImpl".to_string());
    let bimpl = reg.register_type("BImpl".to_string());

    // with nothing else registered, both optional dependencies are absent
    let mut cb = CatalogBuilder::new();
    cb.add_builder(
        Builder::new(bimpl)
            .with_dependency(a, DepKind::MaybeOf(Box::new(DepKind::One)))
            .with_dependency(val, DepKind::MaybeOf(Box::new(DepKind::One))),
    );
    let cat = cb.build(&mut reg);
    let mut st = Store::new();
    let inst = cat.get_one(&reg, &mut st, bimpl).unwrap();
    assert!(matches!(st.instance(inst).unwrap().deps[0], DepValue::Absent));
    assert!(matches!(st.instance(inst).unwrap().deps[1], DepValue::Absent));

    // once registered, both are present
    let mut cb = CatalogBuilder::new();
    cb.add_builder(
        Builder::new(bimpl)
            .with_dependency(a, DepKind::MaybeOf(Box::new(DepKind::One)))
            .with_dependency(val, DepKind::MaybeOf(Box::new(DepKind::One))),
    );
    cb.add_builder(Builder::new(aimpl));
    cb.bind(a, aimpl);
    cb.add_value(val, 42);
    let cat = cb.build(&mut reg);
    let inst = cat.get_one(&reg, &mut st, bimpl).unwrap();
    match st.instance(inst).unwrap().deps[0] {
        DepValue::One(_) => {},
        _ => panic!("expected the implementation to be present"),
    }
    match st.instance(inst).unwrap().deps[1] {
        DepValue::One(s) => assert_eq!(st.instance(s).unwrap().value, 42),
        _ => panic!("expected the value to be present"),
    }
}

#[test]
fn test_all_of_derive() {
    let mut reg = Registry::new();
    let a = reg.register_type("A".to_string());
    let aimpl1 = reg.register_type("AImpl1".to_string());
    let aimpl2 = reg.register_type("AImpl2".to_string());
    let bimpl = reg.register_type("BImpl".to_string());

    let mut cb = CatalogBuilder::new();
    cb.add_builder(Builder::new(bimpl).with_dependency(a, DepKind::All));
    let cat = cb.build(&mut reg);
    let mut st = Store::new();
    let inst = cat.get_one(&reg, &mut st, bimpl).unwrap();
    match &st.instance(inst).unwrap().deps[0] {
        DepValue::Many(v) => assert_eq!(v.len(), 0),
        _ => panic!("expected a collection"),
    }

    let mut cb = CatalogBuilder::new();
    cb.add_builder(Builder::new(bimpl).with_dependency(a, DepKind::All));
    cb.add_builder(Builder::new(aimpl1));
    cb.bind(a, aimpl1);
    cb.add_builder(Builder::new(aimpl2));
    cb.bind(a, aimpl2);
    let cat = cb.build(&mut reg);
    let inst = cat.get_one(&reg, &mut st, bimpl).unwrap();
    match &st.instance(inst).unwrap().deps[0] {
        DepValue::Many(v) => assert_eq!(v.len(), 2),
        _ => panic!("expected a collection"),
    }
}

#[test]
fn test_lazy_simple() {
    let mut reg = Registry::new();
    let a = reg.register_type("A".to_string());
    let aimpl = reg.register_type("AImpl".to_string());
    let mut cb = CatalogBuilder::new();
    cb.add(Builder::new(aimpl).with_interface(a));
    let cat = cb.build(&mut reg);
    let mut st = Store::new();

    let lazy = DepKind::LazyOf(Box::new(DepKind::One));
    let handle = match cat.get(&reg, &mut st, a, &lazy).unwrap() {
        DepValue::Deferred(h) => h,
        _ => panic!("expected a deferred handle"),
    };
    // nothing is constructed until the handle is invoked
    assert_eq!(st.instance_count(), 0);
    match handle.get(&reg, &mut st).unwrap() {
        DepValue::One(s) => assert_eq!(st.instance(s).unwrap().instance_type, aimpl),
        _ => panic!("expected an instance"),
    }
}

#[test]
fn test_lazy_derive() {
    let mut reg = Registry::new();
    let a = reg.register_type("A".to_string());
    let aimpl = reg.register_type("AImpl".to_string());
    let bimpl = reg.register_type("BImpl".to_string());
    let mut cb = CatalogBuilder::new();
    cb.add(Builder::new(aimpl));
    cb.add_builder(
        Builder::new(bimpl).with_dependency(aimpl, DepKind::LazyOf(Box::new(DepKind::One))),
    );
    let cat = cb.build(&mut reg);
    let mut st = Store::new();

    let b = cat.get_one(&reg, &mut st, bimpl).unwrap();
    let handle = match &st.instance(b).unwrap().deps[0] {
        DepValue::Deferred(h) => h.clone(),
        _ => panic!("expected a deferred handle"),
    };
    match handle.get(&reg, &mut st).unwrap() {
        DepValue::One(s) => assert_eq!(st.instance(s).unwrap().instance_type, aimpl),
        _ => panic!("expected an instance"),
    }
}

#[test]
fn test_lazy_chained_fallback() {
    // a handle captured against a chained catalog still resolves what only
    // that chain can see
    let mut reg = Registry::new();
    let a = reg.register_type("A".to_string());
    let aimpl = reg.register_type("AImpl".to_string());
    let mut cb = CatalogBuilder::new();
    let base = cb.build(&mut reg);
    let mut st = Store::new();

    let lazy = DepKind::LazyOf(Box::new(DepKind::One));
    let handle = match base.get(&reg, &mut st, a, &lazy).unwrap() {
        DepValue::Deferred(h) => h,
        _ => panic!("expected a deferred handle"),
    };
    assert!(matches!(handle.get(&reg, &mut st), Err(InjectionError::Unregistered(_))));

    let mut cb2 = base.builder_chained();
    cb2.add(Builder::new(aimpl).with_interface(a));
    let chained = cb2.build(&mut reg);
    let handle2 = match chained.get(&reg, &mut st, a, &lazy).unwrap() {
        DepValue::Deferred(h) => h,
        _ => panic!("expected a deferred handle"),
    };
    assert!(matches!(handle2.get(&reg, &mut st), Ok(DepValue::One(_))));
}

#[test]
fn test_spec_strategy_objects() {
    let mut reg = Registry::new();
    let a = reg.register_type("A".to_string());
    let aimpl = reg.register_type("AImpl".to_string());
    let mut cb = CatalogBuilder::new();
    cb.add(Builder::new(aimpl).with_interface(a));
    let cat = cb.build(&mut reg);
    let mut st = Store::new();

    let one = OneOf::new(a);
    assert!(one.check(&cat, &reg).is_ok());
    assert!(matches!(one.get(&cat, &reg, &mut st), Ok(DepValue::One(_))));

    let all = AllOf::new(a);
    assert!(all.check(&cat, &reg).is_ok());
    assert_eq!(all.get(&cat, &reg, &mut st).unwrap().len(), 1);

    let missing = reg.register_type("Missing".to_string());
    let one_missing = OneOf::new(missing);
    assert!(matches!(one_missing.check(&cat, &reg), Err(InjectionError::Unregistered(_))));

    let maybe_missing = Maybe::new(missing, DepKind::One);
    assert!(maybe_missing.check(&cat, &reg).is_ok());
    assert!(matches!(maybe_missing.get(&cat, &reg, &mut st), Ok(DepValue::Absent)));
}

#[test]
fn test_one_of_ambiguous() {
    let mut reg = Registry::new();
    let a = reg.register_type("A".to_string());
    let aimpl1 = reg.register_type("AImpl1".to_string());
    let aimpl2 = reg.register_type("AImpl2".to_string());
    let mut cb = CatalogBuilder::new();
    cb.add_builder(Builder::new(aimpl1));
    cb.bind(a, aimpl1);
    cb.add_builder(Builder::new(aimpl2));
    cb.bind(a, aimpl2);
    let cat = cb.build(&mut reg);
    let mut st = Store::new();

    match cat.get_one(&reg, &mut st, a) {
        Err(InjectionError::Ambiguous(e)) => assert_eq!(e.type_id, a),
        _ => panic!("expected an ambiguous error"),
    }

    // an optional request propagates the ambiguity unchanged
    let maybe = DepKind::MaybeOf(Box::new(DepKind::One));
    match cat.get(&reg, &mut st, a, &maybe) {
        Err(InjectionError::Ambiguous(e)) => assert_eq!(e.type_id, a),
        _ => panic!("expected an ambiguous error"),
    }
}

#[test]
fn test_all_of_chained_order() {
    // all-matching resolution returns the local layer's implementations
    // first, then the chained parent's, in registration order
    let mut reg = Registry::new();
    let a = reg.register_type("A".to_string());
    let p1 = reg.register_type("ParentImpl1".to_string());
    let p2 = reg.register_type("ParentImpl2".to_string());
    let c1 = reg.register_type("ChildImpl".to_string());
    let mut cb = CatalogBuilder::new();
    cb.add(Builder::new(p1).with_interface(a));
    cb.add(Builder::new(p2).with_interface(a));
    let base = cb.build(&mut reg);
    let mut cb2 = base.builder_chained();
    cb2.add(Builder::new(c1).with_interface(a));
    let chained = cb2.build(&mut reg);
    let mut st = Store::new();

    let all = chained.get_all(&reg, &mut st, a).unwrap();
    assert_eq!(all.len(), 3);
    assert_eq!(st.instance(all[0]).unwrap().instance_type, c1);
    assert_eq!(st.instance(all[1]).unwrap().instance_type, p1);
    assert_eq!(st.instance(all[2]).unwrap().instance_type, p2);

    // an empty interface yields an empty collection, not an error
    let missing = reg.register_type("Missing".to_string());
    assert_eq!(chained.get_all(&reg, &mut st, missing).unwrap().len(), 0);
}
