use method_registry::attr_list::AttributeArgsList;
use method_registry::impl_block::{extract_all, ImplBlock, RawArg, RawAttr, RawBlock, RawMethod};
use method_registry::lattice::{default_lattice, resolve_wrapper, CapabilityLattice};
use method_registry::selection::{parse_selections, validate_selected_traits, SelectionParseError};
use method_registry::synth::{
    synthesize, GenRequest, MethodDeserializeError, ReturnSpec, SynthesisError, TraitSelection,
};

fn attr(path: &[&str], args: &str) -> RawAttr {
    RawAttr { path: path.iter().map(|s| s.to_string()).collect(), args: args.to_string() }
}

fn arg(name: &str, ty: &str) -> RawArg {
    RawArg { ident_pattern: true, mutable: false, name: name.to_string(), ty: ty.to_string() }
}

/// Capability `PyBaseIterator` with a self accessor `take_inner`, a
/// literal-return `to_list`, a `map` that strips nothing, and a `filter`
/// that strips the exact-size capability.
fn base_registry() -> Vec<ImplBlock> {
    let mut take_inner = RawMethod {
        name: "take_inner".to_string(),
        has_receiver: true,
        args: vec![],
        return_type: Some("Box<dyn Iterator<Item = u8>>".to_string()),
        docs: vec![],
        attrs: vec![attr(&["macros", "method_self_arg"], "")],
    };
    take_inner.has_receiver = true;
    let to_list = RawMethod {
        name: "to_list".to_string(),
        has_receiver: false,
        args: vec![arg("iter", "S")],
        return_type: Some("Vec<u8>".to_string()),
        docs: vec![],
        attrs: vec![attr(&["macros", "return_literal"], "")],
    };
    let map = RawMethod {
        name: "map".to_string(),
        has_receiver: false,
        args: vec![arg("iter", "S"), arg("f", "Mapper")],
        return_type: Some("Mapped<S>".to_string()),
        docs: vec![],
        attrs: vec![],
    };
    let filter = RawMethod {
        name: "filter".to_string(),
        has_receiver: false,
        args: vec![arg("iter", "S"), arg("f", "Predicate")],
        return_type: Some("Filtered<S>".to_string()),
        docs: vec![],
        attrs: vec![attr(&["macros", "strips_traits"], "PyExactSizeIterator")],
    };
    let block = RawBlock {
        path: vec![
            "crate".to_string(),
            "base_iterator".to_string(),
            "PyBaseIterator".to_string(),
        ],
        attrs: vec![attr(&["macros", "register_methods"], "self_generic = S")],
        methods: vec![take_inner, to_list, map, filter],
    };
    extract_all(&vec![block]).unwrap()
}

fn request(target: &str, selections: Vec<TraitSelection>) -> GenRequest {
    GenRequest {
        target_type: target.to_string(),
        self_accessor: "take_inner".to_string(),
        existing_methods: vec![],
        selections,
    }
}

fn select(name: &str) -> TraitSelection {
    TraitSelection { name: name.to_string(), exclude: vec![] }
}

fn lattice() -> CapabilityLattice {
    default_lattice()
}

// Scenario: selecting the base capability for a target whose composite
// subsumes [base, exact-size] emits `map` returning `Self`, `filter`
// returning the base capability's own wrapper (the last survivor after the
// exact-size capability is stripped), and `to_list` returning its declared
// type unwrapped.
#[test]
fn base_selection_resolves_returns() {
    let reg = base_registry();
    let req = request("PyExactSizeIterator", vec![select("PyBaseIterator")]);
    let defs = synthesize(&reg, &lattice(), &req).unwrap();
    assert_eq!(defs.len(), 3);

    assert_eq!(defs[0].name, "to_list");
    assert!(matches!(&defs[0].return_spec, ReturnSpec::Literal(Some(t)) if t == "Vec<u8>"));

    assert_eq!(defs[1].name, "map");
    assert!(matches!(&defs[1].return_spec, ReturnSpec::SelfType));
    // the self-generic slot is elided; the mapper argument is kept
    assert_eq!(defs[1].params.len(), 1);
    assert_eq!(defs[1].params[0].name, "f");

    assert_eq!(defs[2].name, "filter");
    assert!(
        matches!(&defs[2].return_spec, ReturnSpec::Wrapper(w) if w == "crate::iterators::PyBaseIterator")
    );
}

// Scenario: the selection `(PyBaseIterator, exclude=(map))` emits `to_list`
// and `filter` but not `map`.
#[test]
fn exclusion_drops_the_named_method() {
    let reg = base_registry();
    let list = AttributeArgsList::parse("(PyBaseIterator, exclude=(map))").unwrap();
    let selections = parse_selections(&list).unwrap();
    assert_eq!(selections.len(), 1);
    assert_eq!(selections[0].name, "PyBaseIterator");
    assert_eq!(selections[0].exclude, vec!["map"]);
    let req = request("PyExactSizeIterator", selections);
    let defs = synthesize(&reg, &lattice(), &req).unwrap();
    let names: Vec<&str> = defs.iter().map(|d| d.name.as_str()).collect();
    assert_eq!(names, vec!["to_list", "filter"]);
}

// The emission count is the method count minus the accessor and the
// excluded names, and no two emitted methods share a name.
#[test]
fn emission_count_and_uniqueness() {
    let reg = base_registry();
    let req = request("PyExactSizeIterator", vec![select("PyBaseIterator")]);
    let defs = synthesize(&reg, &lattice(), &req).unwrap();
    // four recorded methods, one accessor, nothing excluded
    assert_eq!(defs.len(), 4 - 1);
    for i in 0..defs.len() {
        for j in (i + 1)..defs.len() {
            assert_ne!(defs[i].name, defs[j].name);
        }
    }
}

#[test]
fn rename_bridges_existing_method() {
    let reg = base_registry();
    let mut req = request("PyBaseIterator", vec![select("PyBaseIterator")]);
    req.existing_methods = vec!["map".to_string()];
    let defs = synthesize(&reg, &lattice(), &req).unwrap();
    let map_def = defs.iter().find(|d| d.name == "__map").expect("renamed method");
    assert_eq!(map_def.bridged_from.as_deref(), Some("map"));
    let text = map_def.render();
    assert!(text.starts_with("#[pyo3(name = \"map\")]\n"));
    // the forwarded call still names the capability method
    assert!(text.contains("crate::base_iterator::PyBaseIterator::map(self.take_inner()"));
    // methods the target does not declare keep their names
    assert!(defs.iter().any(|d| d.name == "to_list"));
}

#[test]
fn renders_exact_method_text() {
    let reg = base_registry();
    let req = request("PyExactSizeIterator", vec![select("PyBaseIterator")]);
    let defs = synthesize(&reg, &lattice(), &req).unwrap();
    let map_def = defs.iter().find(|d| d.name == "map").unwrap();
    assert_eq!(
        map_def.render(),
        "pub fn map(&mut self, f: Mapper) -> Self { Self::new(Box::new(crate::base_iterator::PyBaseIterator::map(self.take_inner(), f))) }"
    );
    let to_list_def = defs.iter().find(|d| d.name == "to_list").unwrap();
    assert_eq!(
        to_list_def.render(),
        "pub fn to_list(&mut self) -> Vec<u8> { crate::base_iterator::PyBaseIterator::to_list(self.take_inner()) }"
    );
    let filter_def = defs.iter().find(|d| d.name == "filter").unwrap();
    assert_eq!(
        filter_def.render(),
        "pub fn filter(&mut self, f: Predicate) -> crate::iterators::PyBaseIterator { crate::iterators::PyBaseIterator::new(Box::new(crate::base_iterator::PyBaseIterator::filter(self.take_inner(), f))) }"
    );
}

#[test]
fn into_impl_item_renders_for_the_host_type() {
    let reg = base_registry();
    let block = &reg[0];
    let text = block.methods[2].into_impl_item(block, &lattice(), "PyBaseIterator").unwrap();
    assert_eq!(
        text,
        "pub fn map(&mut self, f: Mapper) -> Self { Self::new(Box::new(crate::base_iterator::PyBaseIterator::map(self.take_inner(), f))) }"
    );
}

#[test]
fn empty_selection_is_rejected() {
    let reg = base_registry();
    let req = request("PyExactSizeIterator", vec![]);
    let e = synthesize(&reg, &lattice(), &req).unwrap_err();
    assert!(matches!(e, SynthesisError::EmptySelection));
}

#[test]
fn unknown_capability_is_rejected() {
    let reg = base_registry();
    let req = request("PyExactSizeIterator", vec![select("PyListIterator")]);
    let e = synthesize(&reg, &lattice(), &req).unwrap_err();
    match e {
        SynthesisError::UnknownCapability(s) => assert_eq!(s, "PyListIterator"),
        other => panic!("expected an unknown capability, got {:?}", other),
    }
}

#[test]
fn unknown_composite_is_rejected() {
    let reg = base_registry();
    // the target type is not a composite the lattice lists, and `filter`
    // strips a capability, so degradation cannot resolve
    let req = request("SomethingElse", vec![select("PyBaseIterator")]);
    let e = synthesize(&reg, &lattice(), &req).unwrap_err();
    assert!(
        matches!(e, SynthesisError::MethodError(MethodDeserializeError::InvalidIteratorName))
    );
}

#[test]
fn duplicate_selection_collides() {
    let reg = base_registry();
    let req = request(
        "PyExactSizeIterator",
        vec![select("PyBaseIterator"), select("PyBaseIterator")],
    );
    let e = synthesize(&reg, &lattice(), &req).unwrap_err();
    match e {
        SynthesisError::Collision(s) => assert_eq!(s, "to_list"),
        other => panic!("expected a collision, got {:?}", other),
    }
}

// Return-type degradation: for the composite subsuming
// [base, exact-size, double-ended], stripping the exact-size capability
// resolves to the double-ended wrapper, not the base one.
#[test]
fn degradation_picks_most_specific_survivor() {
    let w = resolve_wrapper(
        &lattice(),
        "PySizedDoubleEndedIterator",
        &vec!["PyExactSizeIterator".to_string()],
    )
    .unwrap();
    assert_eq!(w, "crate::iterators::PyDoubleEndedIterator");
}

#[test]
fn degradation_falls_back_to_base() {
    let w = resolve_wrapper(
        &lattice(),
        "PyExactSizeIterator",
        &vec!["PyExactSizeIterator".to_string(), "PyBaseIterator".to_string()],
    )
    .unwrap();
    assert_eq!(w, "crate::iterators::PyBaseIterator");
}

#[test]
fn degradation_rejects_unknown_composite() {
    assert!(resolve_wrapper(&lattice(), "NotAComposite", &vec!["PyBaseIterator".to_string()])
        .is_none());
}

#[test]
fn validates_selected_traits() {
    let list = AttributeArgsList::parse("PyBaseIterator, (PyDoubleEndedIterator)").unwrap();
    let names = validate_selected_traits(&list).unwrap();
    assert_eq!(names, vec!["PyBaseIterator", "PyDoubleEndedIterator"]);

    let empty = AttributeArgsList::parse("").unwrap();
    assert!(matches!(
        validate_selected_traits(&empty).unwrap_err(),
        SelectionParseError::EmptyTraitList
    ));

    let bad = AttributeArgsList::parse("PyBaseIterator, Nonsense").unwrap();
    match validate_selected_traits(&bad).unwrap_err() {
        SelectionParseError::InvalidTrait(s) => assert_eq!(s, "Nonsense"),
        other => panic!("expected an invalid trait, got {:?}", other),
    }
}

#[test]
fn malformed_exclude_is_rejected() {
    let list = AttributeArgsList::parse("(PyBaseIterator, exclude=map)").unwrap();
    assert!(matches!(
        parse_selections(&list).unwrap_err(),
        SelectionParseError::MalformedExclude
    ));
}

#[test]
fn corrupt_method_name_is_reported() {
    // a record that never came out of the extractor: schema drift
    let mut reg = base_registry();
    reg[0].methods[2].name = "not an ident".to_string();
    let req = request("PyExactSizeIterator", vec![select("PyBaseIterator")]);
    let e = synthesize(&reg, &lattice(), &req).unwrap_err();
    assert!(matches!(
        e,
        SynthesisError::MethodError(MethodDeserializeError::NameParseError(_))
    ));
}

#[test]
fn corrupt_argument_type_is_reported() {
    let mut reg = base_registry();
    reg[0].methods[2].args[1].expected_type = ")))".to_string();
    let req = request("PyExactSizeIterator", vec![select("PyBaseIterator")]);
    let e = synthesize(&reg, &lattice(), &req).unwrap_err();
    assert!(matches!(
        e,
        SynthesisError::MethodError(MethodDeserializeError::ArgTypeParseError(_))
    ));
}

#[test]
fn empty_record_name_is_reported() {
    let mut reg = base_registry();
    reg[0].name = vec![];
    // the capability lookup goes by the last name segment, so select via a
    // second intact record and corrupt only the block being forwarded
    let req = request("PyExactSizeIterator", vec![select("PyBaseIterator")]);
    let e = synthesize(&reg, &lattice(), &req).unwrap_err();
    assert!(matches!(e, SynthesisError::UnknownCapability(_)));
}

#[test]
fn bad_accessor_name_is_reported() {
    let reg = base_registry();
    let mut req = request("PyExactSizeIterator", vec![select("PyBaseIterator")]);
    req.self_accessor = "not an ident".to_string();
    let e = synthesize(&reg, &lattice(), &req).unwrap_err();
    assert!(matches!(
        e,
        SynthesisError::MethodError(MethodDeserializeError::TokenStreamParseError(_))
    ));
}

#[test]
fn group_without_leading_name_is_rejected() {
    let list = AttributeArgsList::parse("(exclude=(map))").unwrap();
    assert!(matches!(
        parse_selections(&list).unwrap_err(),
        SelectionParseError::MalformedGroup
    ));
}

#[test]
fn default_lattice_lists_the_composites() {
    let l = lattice();
    assert_eq!(l.lookup("PyBaseIterator").unwrap(), Vec::<String>::new());
    assert_eq!(
        l.lookup("PySizedDoubleEndedIterator").unwrap(),
        vec!["PyBaseIterator", "PyExactSizeIterator", "PyDoubleEndedIterator"]
    );
    assert!(l.lookup("PyListIterator").is_none());
}
