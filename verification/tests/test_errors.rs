use dill::Builder;
use dill::CatalogBuilder;
use dill::DepKind;
use dill::InjectionError;
use dill::InjectionStackFrame;
use dill::Registry;
use dill::SpecTag;
use dill::Store;

#[test]
fn test_error_stack_frames() {
    let mut reg = Registry::new();
    let a = reg.register_type("A".to_string());
    let b = reg.register_type("B".to_string());
    let aimpl = reg.register_type("AImpl".to_string());
    let mut cb = CatalogBuilder::new();
    cb.add_builder(Builder::new(aimpl).with_dependency(b, DepKind::One));
    cb.bind(a, aimpl);
    let cat = cb.build(&mut reg);
    let mut st = Store::new();

    let err = cat.get_one(&reg, &mut st, a).unwrap_err();
    let e = match &err {
        InjectionError::Unregistered(e) => e,
        _ => panic!("expected an unregistered error"),
    };
    assert_eq!(e.type_id, b);
    // innermost frame first: the failing resolve, the build around it, and
    // the top-level resolve
    assert_eq!(e.stack.frames.len(), 3);
    assert!(matches!(
        e.stack.frames[0],
        InjectionStackFrame::Resolve { iface, tag: SpecTag::One } if iface == b
    ));
    assert!(matches!(
        e.stack.frames[1],
        InjectionStackFrame::Build { instance_type, .. } if instance_type == aimpl
    ));
    assert!(matches!(
        e.stack.frames[2],
        InjectionStackFrame::Resolve { iface, tag: SpecTag::One } if iface == a
    ));
}

#[test]
fn test_error_render() {
    let mut reg = Registry::new();
    let a = reg.register_type("A".to_string());
    let b = reg.register_type("B".to_string());
    let aimpl = reg.register_type("AImpl".to_string());
    let mut cb = CatalogBuilder::new();
    cb.add_builder(Builder::new(aimpl).with_dependency(b, DepKind::One));
    cb.bind(a, aimpl);
    let cat = cb.build(&mut reg);
    let mut st = Store::new();

    let err = cat.get_one(&reg, &mut st, a).unwrap_err();
    assert_eq!(err.message(&reg), "Unregistered type: $B");
    assert_eq!(
        err.render(&reg),
        "Unregistered type: $B\n\
         \x20 0: Resolve: B\n\
         \x20 1: Build:   AImpl <Transient>\n\
         \x20 2: Resolve: A\n",
    );
}

#[test]
fn test_validation_render() {
    let mut reg = Registry::new();
    let b = reg.register_type("B".to_string());
    let aimpl = reg.register_type("AImpl".to_string());
    let mut cb = CatalogBuilder::new();
    cb.add_builder(Builder::new(aimpl).with_dependency(b, DepKind::One));
    let report = cb.validate(&reg).unwrap_err();
    assert_eq!(
        report.render(&reg),
        "DI graph validation failed:\n0: Unregistered type: $B\n",
    );
}

#[test]
fn test_error_keys() {
    let mut reg = Registry::new();
    let t = reg.register_type("T".to_string());
    let stack = dill::InjectionStack { frames: Vec::new() };
    let e = InjectionError::unregistered(t, stack);
    assert_eq!(e.key(), t.id);
}
