use dill::Builder;
use dill::CatalogBuilder;
use dill::DepKind;
use dill::InjectionError;
use dill::Registry;
use dill::ScopeKind;
use dill::Store;
use dill::ValidationErrorExt;
use dill::CATALOG_TYPE_ID;
use dill::CATALOG_WEAK_TYPE_ID;

#[test]
fn test_validate_static_graph() {
    let mut reg = Registry::new();
    let a = reg.register_type("A".to_string());
    let b = reg.register_type("B".to_string());
    let aimpl = reg.register_type("AImpl".to_string());
    let bimpl = reg.register_type("BImpl".to_string());

    // unresolved: AImpl needs B, which nothing binds yet
    let mut cb = CatalogBuilder::new();
    cb.add_builder(Builder::new(aimpl).with_dependency(b, DepKind::One));
    cb.bind(a, aimpl);

    let res = cb.validate(&reg);
    let errors = res.unwrap_err().errors;
    assert_eq!(errors.len(), 1);
    match &errors[0] {
        InjectionError::Unregistered(e) => {
            assert_eq!(e.type_id, b);
            assert_eq!(reg.name_of(e.type_id).unwrap(), "B");
        },
        _ => panic!("expected an unregistered error"),
    }

    // consider B registered dynamically
    let res = cb.validate(&reg).ignore(b);
    assert!(res.is_ok());

    // success once B is bound
    cb.add_builder(Builder::new(bimpl));
    cb.bind(b, bimpl);
    assert!(cb.validate(&reg).is_ok());

    // the catalog still works
    let cat = cb.build(&mut reg);
    let mut st = Store::new();
    cat.get_one(&reg, &mut st, a).unwrap();
}

#[test]
fn test_validate_ingores_bound_fields() {
    let mut reg = Registry::new();
    let a = reg.register_type("A".to_string());
    let foo = reg.register_type("i32".to_string());
    let aimpl = reg.register_type("AImpl".to_string());

    // the `foo` dependency was supplied at registration time
    let mut cb = CatalogBuilder::new();
    cb.add_builder(Builder::new(aimpl).with_supplied_dependency(foo, DepKind::One));
    cb.bind(a, aimpl);

    cb.validate(&reg).unwrap();
}

#[test]
fn test_validate_catalog_inject() {
    let mut reg = Registry::new();
    let a = reg.register_type("A".to_string());
    let aimpl = reg.register_type("AImpl".to_string());

    // self-injection of the catalog and of a weak reference always validates
    let mut cb = CatalogBuilder::new();
    cb.add_builder(
        Builder::new(aimpl)
            .with_dependency(dill::TypeToken::of(CATALOG_TYPE_ID), DepKind::One)
            .with_dependency(dill::TypeToken::of(CATALOG_WEAK_TYPE_ID), DepKind::One),
    );
    cb.bind(a, aimpl);

    cb.validate(&reg).unwrap();
}

#[test]
fn test_validate_scope_inversion() {
    let mut reg = Registry::new();
    let i = reg.register_type("I".to_string());
    let ximpl = reg.register_type("XImpl".to_string());
    let yimpl = reg.register_type("YImpl".to_string());

    // a singleton must not capture a transient dependency
    let mut cb = CatalogBuilder::new();
    cb.add_builder(
        Builder::new(ximpl)
            .with_scope_kind(ScopeKind::Singleton)
            .with_dependency(i, DepKind::One),
    );
    cb.add_builder(Builder::new(yimpl).with_scope_kind(ScopeKind::Transient));
    cb.bind(i, yimpl);

    let errors = cb.validate(&reg).unwrap_err().errors;
    assert_eq!(errors.len(), 1);
    match &errors[0] {
        InjectionError::ScopeInversion(e) => {
            assert_eq!(e.instance_type, ximpl);
            assert_eq!(e.instance_scope, ScopeKind::Singleton);
            assert_eq!(e.dependency_type, i);
            assert_eq!(e.dependency_scope, ScopeKind::Transient);
        },
        _ => panic!("expected a scope inversion error"),
    }

    // an agnostic dependency is always safe
    let mut cb = CatalogBuilder::new();
    cb.add_builder(
        Builder::new(ximpl)
            .with_scope_kind(ScopeKind::Singleton)
            .with_dependency(i, DepKind::One),
    );
    cb.add_builder(Builder::new(yimpl).with_scope_kind(ScopeKind::Agnostic));
    cb.bind(i, yimpl);
    cb.validate(&reg).unwrap();
}

#[test]
fn test_validate_ambiguous_and_optional() {
    let mut reg = Registry::new();
    let i = reg.register_type("I".to_string());
    let ximpl = reg.register_type("XImpl".to_string());
    let y1 = reg.register_type("YImpl1".to_string());
    let y2 = reg.register_type("YImpl2".to_string());

    // two bindings for a single-valued dependency are ambiguous
    let mut cb = CatalogBuilder::new();
    cb.add_builder(Builder::new(ximpl).with_dependency(i, DepKind::One));
    cb.add_builder(Builder::new(y1));
    cb.bind(i, y1);
    cb.add_builder(Builder::new(y2));
    cb.bind(i, y2);
    let errors = cb.validate(&reg).unwrap_err().errors;
    assert_eq!(errors.len(), 1);
    assert!(matches!(&errors[0], InjectionError::Ambiguous(e) if e.type_id == i));

    // an all-matching or optional dependency accepts any number of bindings
    let mut cb = CatalogBuilder::new();
    cb.add_builder(
        Builder::new(ximpl)
            .with_dependency(i, DepKind::All)
            .with_dependency(
                reg.register_type("Missing".to_string()),
                DepKind::MaybeOf(Box::new(DepKind::One)),
            ),
    );
    cb.validate(&reg).unwrap();
}

#[test]
fn test_validate_sorts_and_deduplicates() {
    let mut reg = Registry::new();
    let m2 = reg.register_type("Missing2".to_string());
    let m1 = reg.register_type("Missing1".to_string());
    let x1 = reg.register_type("XImpl1".to_string());
    let x2 = reg.register_type("XImpl2".to_string());

    // both builders miss m2 (reported once) and one also misses m1; the
    // report is sorted by type identity
    let mut cb = CatalogBuilder::new();
    cb.add_builder(
        Builder::new(x1).with_dependency(m2, DepKind::One).with_dependency(m1, DepKind::One),
    );
    cb.add_builder(Builder::new(x2).with_dependency(m2, DepKind::One));
    let errors = cb.validate(&reg).unwrap_err().errors;
    assert_eq!(errors.len(), 2);
    assert!(matches!(&errors[0], InjectionError::Unregistered(e) if e.type_id == m2));
    assert!(matches!(&errors[1], InjectionError::Unregistered(e) if e.type_id == m1));

    // ignoring both missing types empties the report
    let res = cb.validate(&reg).ignore(m1).ignore(m2);
    assert!(res.is_ok());
}

#[test]
fn test_validate_chained() {
    let mut reg = Registry::new();
    let b = reg.register_type("B".to_string());
    let aimpl = reg.register_type("AImpl".to_string());
    let bimpl = reg.register_type("BImpl".to_string());

    // the dependency is satisfied by the chained parent catalog
    let mut cb = CatalogBuilder::new();
    cb.add_builder(Builder::new(bimpl));
    cb.bind(b, bimpl);
    let base = cb.build(&mut reg);

    let mut cb2 = base.builder_chained();
    cb2.add_builder(Builder::new(aimpl).with_dependency(b, DepKind::One));
    cb2.validate(&reg).unwrap();
}
