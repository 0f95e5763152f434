//! Tests of whole-block synthesis: unit counts, unique trampoline ids,
//! strategy-gated lifecycle injection, and strategy rendering.

use dylink_core::idalloc::IdentifierAllocator;
use dylink_core::link::LinkType;
use dylink_core::synth::{LifecycleAction, UnitOutcome};
use dylink_core::diag::DiagKind;
use dylink_core::tok::{Delim, Tok};
use dylink_core::transform;

fn w(s: &str) -> Tok {
    Tok::Word(s.to_string())
}

fn p(c: char) -> Tok {
    Tok::Punct(c)
}

fn proto(name: &str, params: &[&str]) -> Vec<Tok> {
    let mut t = vec![w("fn"), w(name), Tok::Open(Delim::Paren)];
    for (i, ty) in params.iter().enumerate() {
        if i > 0 {
            t.push(p(','));
        }
        t.push(w(&format!("a{}", i)));
        t.push(p(':'));
        t.push(w(ty));
    }
    t.push(Tok::Close(Delim::Paren));
    t.push(p(';'));
    t
}

fn vulkan() -> Vec<Tok> {
    vec![w("vulkan")]
}

fn named(lib: &str) -> Vec<Tok> {
    vec![w("name"), p('='), Tok::Str(lib.to_string())]
}

#[test]
fn one_unit_per_prototype_with_distinct_ids() {
    let mut body = proto("alpha", &[]);
    body.extend(proto("beta", &["u8"]));
    body.extend(proto("gamma", &["u8", "u16"]));
    let mut alloc = IdentifierAllocator::new();
    let exp = transform(&vulkan(), &"system".to_string(), &body, &mut alloc).unwrap();
    assert_eq!(exp.units.len(), 3);
    let mut ids = Vec::new();
    for u in &exp.units {
        match u {
            UnitOutcome::Unit(unit) => ids.push(unit.trampoline_id),
            other => panic!("expected unit, got {:?}", other),
        }
    }
    for i in 0..ids.len() {
        for j in (i + 1)..ids.len() {
            assert_ne!(ids[i], ids[j]);
        }
    }
}

#[test]
fn ids_never_repeat_across_runs_of_one_compilation() {
    let body = {
        let mut b = proto("first", &[]);
        b.extend(proto("second", &[]));
        b
    };
    let mut alloc = IdentifierAllocator::new();
    let run1 = transform(&vulkan(), &"system".to_string(), &body, &mut alloc).unwrap();
    let run2 = transform(&vulkan(), &"system".to_string(), &body, &mut alloc).unwrap();
    let mut ids = Vec::new();
    for exp in [&run1, &run2] {
        for u in &exp.units {
            if let UnitOutcome::Unit(unit) = u {
                ids.push(unit.trampoline_id);
            }
        }
    }
    assert_eq!(ids.len(), 4);
    for i in 0..ids.len() {
        for j in (i + 1)..ids.len() {
            assert_ne!(ids[i], ids[j]);
        }
    }
}

#[test]
fn trampoline_names_follow_the_id() {
    let body = proto("only", &[]);
    let mut alloc = IdentifierAllocator::new();
    let exp = transform(&vulkan(), &"system".to_string(), &body, &mut alloc).unwrap();
    match &exp.units[0] {
        UnitOutcome::Unit(unit) => {
            assert_eq!(unit.trampoline_name, format!("__initializer{}", unit.trampoline_id));
            assert_eq!(unit.trampoline_name, "__initializer0");
            assert_eq!(unit.cache_cell_id, "only");
        }
        other => panic!("expected unit, got {:?}", other),
    }
}

#[test]
fn create_instance_gets_registration_at_index_two() {
    // vkCreateInstance under the primary well-known strategy: injection at
    // parameter index 2, the output handle pointer.
    let body = proto("vkCreateInstance", &["CreateInfo", "Callbacks", "InstancePtr"]);
    let mut alloc = IdentifierAllocator::new();
    let exp = transform(&vulkan(), &"system".to_string(), &body, &mut alloc).unwrap();
    match &exp.units[0] {
        UnitOutcome::Unit(unit) => {
            let inj = unit.injection.expect("lifecycle injection");
            assert_eq!(inj.action, LifecycleAction::RegisterInstance);
            assert_eq!(inj.param_index, 2);
        }
        other => panic!("expected unit, got {:?}", other),
    }
}

#[test]
fn injection_is_strategy_gated() {
    // The same function under `name = "foo"` gets no injection.
    let body = proto("vkCreateInstance", &["CreateInfo", "Callbacks", "InstancePtr"]);
    let mut alloc = IdentifierAllocator::new();
    let exp = transform(&named("foo"), &"system".to_string(), &body, &mut alloc).unwrap();
    match &exp.units[0] {
        UnitOutcome::Unit(unit) => assert!(unit.injection.is_none()),
        other => panic!("expected unit, got {:?}", other),
    }
}

#[test]
fn the_four_lifecycle_functions_have_their_fixed_indices() {
    let mut alloc = IdentifierAllocator::new();
    let cases = [
        ("vkCreateInstance", LifecycleAction::RegisterInstance, 2usize, 3usize),
        ("vkDestroyInstance", LifecycleAction::DeregisterInstance, 0, 1),
        ("vkCreateDevice", LifecycleAction::RegisterDevice, 3, 4),
        ("vkDestroyDevice", LifecycleAction::DeregisterDevice, 0, 1),
    ];
    for (name, action, index, arity) in cases {
        let tys: Vec<String> = (0..arity).map(|k| format!("T{}", k)).collect();
        let ty_refs: Vec<&str> = tys.iter().map(|s| s.as_str()).collect();
        let body = proto(name, &ty_refs);
        let exp = transform(&vulkan(), &"system".to_string(), &body, &mut alloc).unwrap();
        match &exp.units[0] {
            UnitOutcome::Unit(unit) => {
                let inj = unit.injection.expect("lifecycle injection");
                assert_eq!(inj.action, action);
                assert_eq!(inj.param_index, index);
            }
            other => panic!("expected unit, got {:?}", other),
        }
    }
}

#[test]
fn lifecycle_function_without_its_parameter_is_rejected() {
    // vkCreateInstance declared with one parameter cannot carry an
    // injection reading parameter 2; the diagnostic points at that
    // declaration, and its neighbours still expand.
    let mut body = proto("vkCreateInstance", &["CreateInfo"]);
    let bad_len = body.len();
    body.extend(proto("vkGetDeviceQueue", &["A", "B"]));
    let mut alloc = IdentifierAllocator::new();
    let exp = transform(&vulkan(), &"system".to_string(), &body, &mut alloc).unwrap();
    assert_eq!(exp.units.len(), 2);
    match &exp.units[0] {
        UnitOutcome::Skipped(d) => {
            assert_eq!(d.kind, DiagKind::LifecycleArity);
            // The whole first declaration, without its terminator.
            assert_eq!((d.span.lo, d.span.hi), (0, bad_len - 1));
        }
        other => panic!("expected skip, got {:?}", other),
    }
    assert!(matches!(&exp.units[1], UnitOutcome::Unit(u) if u.cache_cell_id == "vkGetDeviceQueue"));
}

#[test]
fn other_functions_get_no_injection_even_under_vulkan() {
    assert_eq!(
        injection_for_probe("vkAllocateMemory"),
        None,
        "unrecognized names must stay plain"
    );
}

fn injection_for_probe(name: &str) -> Option<LifecycleAction> {
    let body = proto(name, &["A", "B", "C", "D"]);
    let mut alloc = IdentifierAllocator::new();
    let exp = transform(&vulkan(), &"system".to_string(), &body, &mut alloc).unwrap();
    match &exp.units[0] {
        UnitOutcome::Unit(unit) => unit.injection.map(|i| i.action),
        other => panic!("expected unit, got {:?}", other),
    }
}

#[test]
fn malformed_annotation_aborts_the_whole_block() {
    let body = proto("alpha", &[]);
    let mut alloc = IdentifierAllocator::new();
    let annot = vec![w("metal")];
    assert!(transform(&annot, &"system".to_string(), &body, &mut alloc).is_err());
}

#[test]
fn strategy_rendering_matches_the_runtime_surface() {
    let v = LinkType::WellKnown(dylink_core::link::WellKnownApi::PrimaryGraphicsApi);
    assert_eq!(v.to_runtime_expr(), "LinkType::Vulkan");
    let n = LinkType::Named("foo".to_string());
    assert_eq!(n.to_runtime_expr(), "LinkType::Normal(&[\"foo\\0\",])");
    let a = LinkType::NamedAny(vec!["foo".to_string(), "bar".to_string()]);
    assert_eq!(a.to_runtime_expr(), "LinkType::Normal(&[\"foo\\0\",\"bar\\0\",])");
}

#[test]
fn destroy_names_read_parameter_zero() {
    let body = proto("vkDestroyDevice", &["Device", "Callbacks"]);
    let mut alloc = IdentifierAllocator::new();
    let exp = transform(&vulkan(), &"system".to_string(), &body, &mut alloc).unwrap();
    match &exp.units[0] {
        UnitOutcome::Unit(unit) => {
            let inj = unit.injection.expect("lifecycle injection");
            assert_eq!(inj.param_index, 0);
        }
        other => panic!("expected unit, got {:?}", other),
    }
}
