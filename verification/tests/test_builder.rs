use dill::Builder;
use dill::BuilderExt;
use dill::CatalogBuilder;
use dill::DepKind;
use dill::DepValue;
use dill::LazyBuilder;
use dill::Registry;
use dill::ScopeKind;
use dill::Store;
use dill::TypeToken;
use dill::CATALOG_WEAK_TYPE_ID;

#[test]
fn test_type_info() {
    let mut reg = Registry::new();
    let a = reg.register_type("A".to_string());
    let aimpl = reg.register_type("AImpl".to_string());
    let b = Builder::new(aimpl).with_interface(a).with_metadata(7);

    assert_eq!(b.instance_type, aimpl);
    assert_eq!(reg.name_of(b.instance_type).unwrap(), "AImpl");
    assert_eq!(b.scope, ScopeKind::Transient);
    assert!(b.interfaces_contain(a));
    assert!(!b.interfaces_contain(aimpl));
    let ifaces = b.interfaces_get_all();
    assert_eq!(ifaces.len(), 1);
    assert_eq!(ifaces[0].type_id, a);
}

#[test]
fn test_metadata() {
    let mut reg = Registry::new();
    let handler = reg.register_type("EventHandler".to_string());
    let ha = reg.register_type("EventHandlerA".to_string());
    let hb = reg.register_type("EventHandlerB".to_string());
    let hab = reg.register_type("EventHandlerAB".to_string());
    let meta_a: u64 = 1;
    let meta_b: u64 = 2;

    let mut cb = CatalogBuilder::new();
    cb.add(Builder::new(ha).with_interface(handler).with_metadata(meta_a));
    cb.add(Builder::new(hb).with_interface(handler).with_metadata(meta_b));
    cb.add(
        Builder::new(hab).with_interface(handler).with_metadata(meta_a).with_metadata(meta_b),
    );
    let cat = cb.build(&mut reg);

    // all three handlers are bound to the interface
    assert_eq!(cat.builders_for(&reg, handler).len(), 3);

    // only those tagged for event A handle it
    let for_a = cat.builders_for_with_meta(&reg, handler, meta_a);
    assert_eq!(for_a.len(), 2);
    assert_eq!(reg.builders[for_a[0]].instance_type, ha);
    assert_eq!(reg.builders[for_a[1]].instance_type, hab);

    let b = &reg.builders[for_a[0]];
    assert!(b.metadata_contains(meta_a));
    assert!(!b.metadata_contains(meta_b));
    assert_eq!(b.metadata_get_all(), vec![meta_a]);
}

#[test]
fn test_lazy_builder_caches_once() {
    let mut reg = Registry::new();
    let val = reg.register_type("Expensive".to_string());
    let lb = LazyBuilder::new(val, 5);
    assert_eq!(lb.instance_type, val);
    let mut cb = CatalogBuilder::new();
    cb.add_builder(lb.into_builder());
    let cat = cb.build(&mut reg);
    let mut st = Store::new();

    let i1 = cat.get_one(&reg, &mut st, val).unwrap();
    let i2 = cat.get_one(&reg, &mut st, val).unwrap();
    assert_eq!(i1, i2);
    assert_eq!(st.instance(i1).unwrap().value, 5);
    assert_eq!(st.instance_count(), 1);
}

#[test]
fn test_weak_ref_survival() {
    let mut reg = Registry::new();
    let b = reg.register_type("B".to_string());
    let bimpl = reg.register_type("BImpl".to_string());
    let holder = reg.register_type("Holder".to_string());

    let mut cb = CatalogBuilder::new();
    cb.add_builder(Builder::new(bimpl));
    cb.bind(b, bimpl);
    let base = cb.build(&mut reg);

    let mut cb2 = base.builder_chained();
    cb2.add_builder(
        Builder::new(holder).with_dependency(
            TypeToken::of(CATALOG_WEAK_TYPE_ID),
            DepKind::One,
        ),
    );
    let request = cb2.build(&mut reg);
    let mut st = Store::new();

    // the component holds a weak reference to the whole chain
    let h = request.get_one(&reg, &mut st, holder).unwrap();
    let weak = match &st.instance(h).unwrap().deps[0] {
        DepValue::CatWeak(w) => w.clone(),
        _ => panic!("expected a weak catalog reference"),
    };

    // while the request layer is alive, it wins
    assert_eq!(weak.upgrade(&reg).unwrap(), request);

    // after the request layer is dropped, the base layer still answers
    reg.release(request);
    assert_eq!(weak.upgrade(&reg).unwrap(), base);
    let got = weak.get_one(&reg, &mut st, b).unwrap();
    assert_eq!(st.instance(got).unwrap().instance_type, bimpl);

    // once every layer is gone, upgrading fails
    reg.release(base);
    assert!(weak.upgrade(&reg).is_none());
}

#[test]
fn test_builder_supplied_dependency_is_not_resolved() {
    let mut reg = Registry::new();
    let missing = reg.register_type("Missing".to_string());
    let ximpl = reg.register_type("XImpl".to_string());
    let mut cb = CatalogBuilder::new();
    cb.add_builder(Builder::new(ximpl).with_supplied_dependency(missing, DepKind::One));
    let cat = cb.build(&mut reg);
    let mut st = Store::new();

    // the supplied dependency never touches the catalog
    let inst = cat.get_one(&reg, &mut st, ximpl).unwrap();
    assert!(matches!(st.instance(inst).unwrap().deps[0], DepValue::Supplied));
}
