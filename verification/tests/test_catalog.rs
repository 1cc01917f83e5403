use dill::Builder;
use dill::Catalog;
use dill::CatalogBuilder;
use dill::DepKind;
use dill::DepValue;
use dill::Factory;
use dill::InjectionError;
use dill::Prebuilt;
use dill::Registry;
use dill::Store;
use dill::CATALOG_TYPE_ID;

#[test]
fn test_one_of_unregistered() {
    let mut reg = Registry::new();
    let i32_tok = reg.register_type("i32".to_string());
    let mut cb = CatalogBuilder::new();
    let cat = cb.build(&mut reg);
    let mut st = Store::new();

    let res = cat.get_one(&reg, &mut st, i32_tok);
    match res {
        Err(InjectionError::Unregistered(e)) => assert_eq!(e.type_id, i32_tok),
        _ => panic!("expected an unregistered error"),
    }
}

#[test]
fn test_one_of_same_type() {
    let mut reg = Registry::new();
    let x = reg.register_type("X".to_string());
    let mut cb = CatalogBuilder::new();
    cb.add(Builder::new(x));
    let cat = cb.build(&mut reg);
    let mut st = Store::new();

    let inst = cat.get_one(&reg, &mut st, x).unwrap();
    assert_eq!(st.instance(inst).unwrap().instance_type, x);
    // the component's own behaviour, recovered from its type identity
    let test = |t| if t == x { "hello".to_string() } else { String::new() };
    assert_eq!(test(st.instance(inst).unwrap().instance_type), "hello");
}

#[test]
fn test_one_of_by_interface() {
    let mut reg = Registry::new();
    let a = reg.register_type("A".to_string());
    let aimpl = reg.register_type("AImpl".to_string());
    let mut cb = CatalogBuilder::new();
    cb.add_builder(Builder::new(aimpl));
    cb.bind(a, aimpl);
    let cat = cb.build(&mut reg);
    let mut st = Store::new();

    let inst = cat.get_one(&reg, &mut st, a).unwrap();
    assert_eq!(st.instance(inst).unwrap().instance_type, aimpl);
    let test = |t| if t == aimpl { "aimpl".to_string() } else { String::new() };
    assert_eq!(test(st.instance(inst).unwrap().instance_type), "aimpl");
}

#[test]
fn test_one_of_by_multiple_interfaces() {
    let mut reg = Registry::new();
    let a = reg.register_type("A".to_string());
    let b = reg.register_type("B".to_string());
    let abimpl = reg.register_type("ABImpl".to_string());
    let mut cb = CatalogBuilder::new();
    cb.add_builder(Builder::new(abimpl));
    cb.bind(a, abimpl);
    cb.bind(b, abimpl);
    let cat = cb.build(&mut reg);
    let mut st = Store::new();

    let inst = cat.get_one(&reg, &mut st, a).unwrap();
    assert_eq!(st.instance(inst).unwrap().instance_type, abimpl);
    let inst = cat.get_one(&reg, &mut st, b).unwrap();
    assert_eq!(st.instance(inst).unwrap().instance_type, abimpl);
}

fn render_ab(st: &Store, aimpl: dill::TypeToken, bimpl: dill::TypeToken, serial: usize) -> String {
    let inst = st.instance(serial).unwrap();
    if inst.instance_type == bimpl {
        return "bimpl".to_string();
    }
    assert_eq!(inst.instance_type, aimpl);
    match &inst.deps[0] {
        DepValue::One(s) => format!("aimpl::{}", render_ab(st, aimpl, bimpl, *s)),
        _ => panic!("expected a single resolved dependency"),
    }
}

#[test]
fn test_one_of_with_dependency() {
    let mut reg = Registry::new();
    let a = reg.register_type("A".to_string());
    let b = reg.register_type("B".to_string());
    let aimpl = reg.register_type("AImpl".to_string());
    let bimpl = reg.register_type("BImpl".to_string());
    let mut cb = CatalogBuilder::new();
    cb.add_builder(Builder::new(aimpl).with_dependency(b, DepKind::One));
    cb.bind(a, aimpl);
    cb.add_builder(Builder::new(bimpl));
    cb.bind(b, bimpl);
    let cat = cb.build(&mut reg);
    let mut st = Store::new();

    let inst = cat.get_one(&reg, &mut st, a).unwrap();
    assert_eq!(render_ab(&st, aimpl, bimpl, inst), "aimpl::bimpl");
}

#[test]
fn test_one_of_with_dependency_missing() {
    let mut reg = Registry::new();
    let a = reg.register_type("A".to_string());
    let b = reg.register_type("B".to_string());
    let aimpl = reg.register_type("AImpl".to_string());
    let mut cb = CatalogBuilder::new();
    cb.add_builder(Builder::new(aimpl).with_dependency(b, DepKind::One));
    cb.bind(a, aimpl);
    let cat = cb.build(&mut reg);
    let mut st = Store::new();

    let res = cat.get_one(&reg, &mut st, a);
    match res {
        Err(InjectionError::Unregistered(e)) => assert_eq!(e.type_id, b),
        _ => panic!("expected an unregistered error for the missing dependency"),
    }
}

#[test]
fn test_all_of() {
    let mut reg = Registry::new();
    let a = reg.register_type("A".to_string());
    let aimpl1 = reg.register_type("AImpl1".to_string());
    let aimpl2 = reg.register_type("AImpl2".to_string());
    let mut cb = CatalogBuilder::new();
    cb.add_builder(Builder::new(aimpl1));
    cb.add_builder(Builder::new(aimpl2));
    cb.bind(a, aimpl1);
    cb.bind(a, aimpl2);
    let cat = cb.build(&mut reg);
    let mut st = Store::new();

    let instances = cat.get_all(&reg, &mut st, a).unwrap();
    let mut vals: Vec<String> = instances
        .iter()
        .map(|s| {
            let t = st.instance(*s).unwrap().instance_type;
            if t == aimpl1 { "aimpl1".to_string() } else { "aimpl2".to_string() }
        })
        .collect();
    vals.sort();
    assert_eq!(vals, vec!["aimpl1".to_string(), "aimpl2".to_string()]);
}

#[test]
fn test_add_value() {
    let mut reg = Registry::new();
    let s_tok = reg.register_type("String".to_string());
    let mut cb = CatalogBuilder::new();
    cb.add_value(s_tok, 7);
    let cat = cb.build(&mut reg);
    let mut st = Store::new();

    let inst = cat.get_one(&reg, &mut st, s_tok).unwrap();
    assert_eq!(st.instance(inst).unwrap().value, 7);
    // the same shared value comes back again
    let inst2 = cat.get_one(&reg, &mut st, s_tok).unwrap();
    assert_eq!(inst, inst2);
}

#[test]
fn test_add_value_lazy() {
    let mut reg = Registry::new();
    let s_tok = reg.register_type("String".to_string());
    let mut cb = CatalogBuilder::new();
    cb.add_value_lazy(s_tok, 7);
    let cat = cb.build(&mut reg);
    let mut st = Store::new();

    // nothing is constructed before the first request
    assert_eq!(st.instance_count(), 0);
    let inst = cat.get_one(&reg, &mut st, s_tok).unwrap();
    assert_eq!(st.instance(inst).unwrap().value, 7);
    let inst2 = cat.get_one(&reg, &mut st, s_tok).unwrap();
    assert_eq!(inst, inst2);
    assert_eq!(st.instance_count(), 1);
}

#[test]
fn test_add_builder_arc() {
    let mut reg = Registry::new();
    let val = reg.register_type("Value".to_string());
    let mut cb = CatalogBuilder::new();
    cb.add_builder(Prebuilt::from_shared(val, 7).into_builder());
    let cat = cb.build(&mut reg);
    let mut st = Store::new();

    let inst = cat.get_one(&reg, &mut st, val).unwrap();
    assert_eq!(st.instance(inst).unwrap().value, 7);
}

#[test]
fn test_add_builder_fn() {
    let mut reg = Registry::new();
    let val = reg.register_type("Value".to_string());
    let mut cb = CatalogBuilder::new();
    cb.add_builder(Factory::new(val).into_builder());
    let cat = cb.build(&mut reg);
    let mut st = Store::new();

    let inst = cat.get_one(&reg, &mut st, val).unwrap();
    assert_eq!(st.instance(inst).unwrap().instance_type, val);
}

#[test]
fn test_add_factory() {
    let mut reg = Registry::new();
    let val = reg.register_type("Value".to_string());
    let mut cb = CatalogBuilder::new();
    cb.add_factory(val);
    let cat = cb.build(&mut reg);
    let mut st = Store::new();

    let i1 = cat.get_one(&reg, &mut st, val).unwrap();
    let i2 = cat.get_one(&reg, &mut st, val).unwrap();
    assert_ne!(i1, i2);
}

#[test]
fn test_self_injection() {
    let mut reg = Registry::new();
    let a = reg.register_type("A".to_string());
    let b = reg.register_type("B".to_string());
    let aimpl = reg.register_type("AImpl1".to_string());
    let bimpl = reg.register_type("BImpl".to_string());
    let c = reg.register_type("C".to_string());
    let catalog_tok = dill::TypeToken::of(CATALOG_TYPE_ID);

    let mut cb = CatalogBuilder::new();
    cb.add_builder(Builder::new(aimpl).with_dependency(b, DepKind::One));
    cb.bind(a, aimpl);
    // BImpl receives the catalog itself and resolves C through it later
    cb.add_builder(Builder::new(bimpl).with_dependency(catalog_tok, DepKind::One));
    cb.bind(b, bimpl);
    cb.add_builder(Builder::new(c));
    let cat = cb.build(&mut reg);
    let mut st = Store::new();

    let inst = cat.get_one(&reg, &mut st, a).unwrap();
    let a_inst = st.instance(inst).unwrap();
    assert_eq!(a_inst.instance_type, aimpl);
    let b_serial = match &a_inst.deps[0] {
        DepValue::One(s) => *s,
        _ => panic!("expected a single resolved dependency"),
    };
    let injected = match &st.instance(b_serial).unwrap().deps[0] {
        DepValue::Cat(inner) => *inner,
        _ => panic!("expected the catalog to be injected"),
    };
    // the injected catalog can resolve further components
    let c_inst = injected.get_one(&reg, &mut st, c).unwrap();
    let parts = format!(
        "aimpl::{}::{}",
        "bimpl",
        if st.instance(c_inst).unwrap().instance_type == c { "c" } else { "?" },
    );
    assert_eq!(parts, "aimpl::bimpl::c");
}

#[test]
fn test_chained_catalog_binds() {
    let mut reg = Registry::new();
    let a = reg.register_type("A".to_string());
    let b = reg.register_type("B".to_string());
    let aimpl = reg.register_type("AImpl".to_string());
    let bimpl = reg.register_type("BImpl".to_string());

    let mut cb = CatalogBuilder::new();
    cb.add_builder(Builder::new(bimpl));
    cb.bind(b, bimpl);
    let cat_earlier = cb.build(&mut reg);

    let mut cb2 = CatalogBuilder::new_chained(&cat_earlier);
    cb2.add_builder(Builder::new(aimpl).with_dependency(b, DepKind::One));
    cb2.bind(a, aimpl);
    let cat_later = cb2.build(&mut reg);

    let mut st = Store::new();
    let inst_earlier_b = cat_earlier.get_one(&reg, &mut st, b).unwrap();
    assert_eq!(st.instance(inst_earlier_b).unwrap().instance_type, bimpl);

    assert!(cat_earlier.get_one(&reg, &mut st, a).is_err());

    let inst_later_b = cat_later.get_one(&reg, &mut st, b).unwrap();
    assert_eq!(st.instance(inst_later_b).unwrap().instance_type, bimpl);

    let inst_later_a = cat_later.get_one(&reg, &mut st, a).unwrap();
    assert_eq!(st.instance(inst_later_a).unwrap().instance_type, aimpl);
}

#[test]
fn test_catalog_binds_interfaces_for_builder_without_explicit_bind() {
    let mut reg = Registry::new();
    let a = reg.register_type("A".to_string());
    let aimpl = reg.register_type("AImpl".to_string());
    let mut cb = CatalogBuilder::new();
    // `add` binds the declared interface automatically
    cb.add(Builder::new(aimpl).with_interface(a));
    let cat = cb.build(&mut reg);
    let mut st = Store::new();

    let inst = cat.get_one(&reg, &mut st, a).unwrap();
    assert_eq!(st.instance(inst).unwrap().instance_type, aimpl);
    let inst2 = cat.get_one(&reg, &mut st, aimpl).unwrap();
    assert_eq!(st.instance(inst2).unwrap().instance_type, aimpl);
}

#[test]
fn test_catalog_skips_interfaces_without_default_binding() {
    let mut reg = Registry::new();
    let a = reg.register_type("A".to_string());
    let aimpl = reg.register_type("AImpl".to_string());
    let mut cb = CatalogBuilder::new();
    let builder = dill::TypedBuilderWithoudDefaultInterfaces::new(
        Builder::new(aimpl).with_interface(a),
    );
    cb.add(builder.into_builder());
    let cat = cb.build(&mut reg);
    let mut st = Store::new();

    // the interface was not bound, only the concrete type
    assert!(cat.get_one(&reg, &mut st, a).is_err());
    assert!(cat.get_one(&reg, &mut st, aimpl).is_ok());
}

#[test]
fn test_cyclic_dependency_detected() {
    let mut reg = Registry::new();
    let a = reg.register_type("A".to_string());
    let aimpl = reg.register_type("AImpl".to_string());
    let mut cb = CatalogBuilder::new();
    cb.add_builder(Builder::new(aimpl).with_dependency(a, DepKind::One));
    cb.bind(a, aimpl);
    let cat = cb.build(&mut reg);
    let mut st = Store::new();

    let res = cat.get_one(&reg, &mut st, a);
    assert!(matches!(res, Err(InjectionError::Cyclic(_))));
}

#[test]
fn test_get_catalog_itself() {
    let mut reg = Registry::new();
    let mut cb = CatalogBuilder::new();
    let cat = cb.build(&mut reg);
    let mut st = Store::new();

    let tok = dill::TypeToken::of(CATALOG_TYPE_ID);
    match cat.get(&reg, &mut st, tok, &DepKind::One) {
        Ok(DepValue::Cat(inner)) => assert_eq!(inner, cat),
        _ => panic!("expected the catalog itself"),
    }
}

#[test]
fn test_builders_enumeration() {
    let mut reg = Registry::new();
    let a = reg.register_type("A".to_string());
    let x = reg.register_type("X".to_string());
    let y = reg.register_type("Y".to_string());
    let mut cb = CatalogBuilder::new();
    cb.add_builder(Builder::new(x));
    cb.bind(a, x);
    let base = cb.build(&mut reg);
    let mut cb2 = base.builder_chained();
    cb2.add_builder(Builder::new(y));
    cb2.bind(a, y);
    let chained = cb2.build(&mut reg);

    // local layer first, then the parent
    let all = chained.builders(&reg);
    assert_eq!(all.len(), 2);
    assert_eq!(reg.builders[all[0]].instance_type, y);
    assert_eq!(reg.builders[all[1]].instance_type, x);

    let for_a = chained.builders_for(&reg, a);
    assert_eq!(for_a.len(), 2);
    assert_eq!(reg.builders[for_a[0]].instance_type, y);
    assert_eq!(reg.builders[for_a[1]].instance_type, x);
}
