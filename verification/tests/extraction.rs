use method_registry::impl_block::{
    extract_all, ImplBlock, ImplBlockParseError, RawArg, RawAttr, RawBlock, RawMethod,
};

fn attr(path: &[&str], args: &str) -> RawAttr {
    RawAttr { path: path.iter().map(|s| s.to_string()).collect(), args: args.to_string() }
}

fn arg(name: &str, ty: &str) -> RawArg {
    RawArg { ident_pattern: true, mutable: false, name: name.to_string(), ty: ty.to_string() }
}

fn method(name: &str, args: Vec<RawArg>, ret: Option<&str>, attrs: Vec<RawAttr>) -> RawMethod {
    RawMethod {
        name: name.to_string(),
        has_receiver: false,
        args,
        return_type: ret.map(|s| s.to_string()),
        docs: Vec::new(),
        attrs,
    }
}

fn accessor() -> RawMethod {
    let mut m = method(
        "take_inner",
        vec![],
        Some("Box<dyn Iterator<Item = u8>>"),
        vec![attr(&["macros", "method_self_arg"], "")],
    );
    m.has_receiver = true;
    m
}

fn base_block() -> RawBlock {
    let mut to_list = method(
        "to_list",
        vec![arg("iter", "S")],
        Some("Vec<u8>"),
        vec![attr(&["macros", "return_literal"], "")],
    );
    to_list.docs = vec!["Converts the iterator to a list".to_string()];
    let map = method("map", vec![arg("iter", "S"), arg("f", "Mapper")], Some("Mapped<S>"), vec![]);
    let filter = method(
        "filter",
        vec![arg("iter", "S"), arg("f", "Predicate")],
        Some("Filtered<S>"),
        vec![attr(&["macros", "strips_traits"], "PyExactSizeIterator")],
    );
    RawBlock {
        path: vec![
            "crate".to_string(),
            "base_iterator".to_string(),
            "PyBaseIterator".to_string(),
        ],
        attrs: vec![attr(&["macros", "register_methods"], "self_generic = S")],
        methods: vec![accessor(), to_list, map, filter],
    }
}

#[test]
fn extracts_base_block() {
    let records = extract_all(&vec![base_block()]).unwrap();
    assert_eq!(records.len(), 1);
    let b = &records[0];
    assert_eq!(b.name, vec!["crate", "base_iterator", "PyBaseIterator"]);
    assert_eq!(b.self_function, "take_inner");
    assert_eq!(b.self_generic, "S");
    assert_eq!(b.methods.len(), 4);
    assert_eq!(b.methods[0].name, "take_inner");
    assert_eq!(b.methods[1].name, "to_list");
    assert!(b.methods[1].literal_return);
    assert_eq!(b.methods[1].comments.as_deref(), Some("Converts the iterator to a list"));
    assert_eq!(b.methods[2].name, "map");
    assert!(!b.methods[2].literal_return);
    assert!(b.methods[2].strips.is_empty());
    assert_eq!(b.methods[3].name, "filter");
    assert_eq!(b.methods[3].strips, vec!["PyExactSizeIterator"]);
    assert_eq!(b.methods[3].args.len(), 2);
    assert_eq!(b.methods[3].args[0].name, "iter");
    assert_eq!(b.methods[3].args[0].expected_type, "S");
}

#[test]
fn nice_name_joins_segments() {
    let records = extract_all(&vec![base_block()]).unwrap();
    assert_eq!(records[0].nice_name(), "crate::base_iterator::PyBaseIterator");
}

#[test]
fn unmarked_blocks_are_not_extracted() {
    let mut plain = base_block();
    plain.attrs = vec![];
    let e = extract_all(&vec![plain]).unwrap_err();
    assert!(matches!(e, ImplBlockParseError::NoMarkedBlocks));
}

// Malformed input: a definition with two self-accessor markers fails with
// the not-exactly-one error and yields no registry records.
#[test]
fn two_accessor_markers_fail() {
    let mut b = base_block();
    b.methods.push(accessor());
    let e = extract_all(&vec![b]).unwrap_err();
    assert!(matches!(e, ImplBlockParseError::NotExactlyOneSelfFunctionMarker));
}

#[test]
fn no_accessor_marker_fails() {
    let mut b = base_block();
    b.methods.remove(0);
    let e = extract_all(&vec![b]).unwrap_err();
    assert!(matches!(e, ImplBlockParseError::NotExactlyOneSelfFunctionMarker));
}

#[test]
fn accessor_without_receiver_fails() {
    let mut b = base_block();
    b.methods[0].has_receiver = false;
    let e = extract_all(&vec![b]).unwrap_err();
    assert!(matches!(e, ImplBlockParseError::MalformedSelfFunctionMarker));
}

#[test]
fn destructured_parameter_fails() {
    let mut b = base_block();
    b.methods[2].args[1].ident_pattern = false;
    let e = extract_all(&vec![b]).unwrap_err();
    assert!(matches!(e, ImplBlockParseError::PatDestructure));
}

#[test]
fn keyword_method_name_fails() {
    let mut b = base_block();
    b.methods[2].name = "fn".to_string();
    let e = extract_all(&vec![b]).unwrap_err();
    match e {
        ImplBlockParseError::InvalidIdentifier(s) => assert_eq!(s, "fn"),
        other => panic!("expected an identifier error, got {:?}", other),
    }
}

#[test]
fn garbage_type_fails() {
    let mut b = base_block();
    b.methods[2].args[1].ty = "not a ))) type".to_string();
    let e = extract_all(&vec![b]).unwrap_err();
    assert!(matches!(e, ImplBlockParseError::InvalidType(_)));
}

#[test]
fn relative_path_fails() {
    let mut b = base_block();
    b.path = vec!["crate".to_string(), "super".to_string(), "X".to_string()];
    let e = extract_all(&vec![b]).unwrap_err();
    assert!(matches!(e, ImplBlockParseError::NotFullyQualified));
}

#[test]
fn unrooted_path_fails() {
    let mut b = base_block();
    b.path = vec!["base_iterator".to_string(), "PyBaseIterator".to_string()];
    let e = extract_all(&vec![b]).unwrap_err();
    assert!(matches!(e, ImplBlockParseError::NotFullyQualified));
}

#[test]
fn empty_path_fails() {
    let mut b = base_block();
    b.path = vec![];
    let e = extract_all(&vec![b]).unwrap_err();
    assert!(matches!(e, ImplBlockParseError::PathDestructure));
}

#[test]
fn missing_self_generic_fails() {
    let mut b = base_block();
    b.attrs = vec![attr(&["macros", "register_methods"], "")];
    let e = extract_all(&vec![b]).unwrap_err();
    assert!(matches!(e, ImplBlockParseError::MissingSelfGeneric));
}

#[test]
fn two_self_generic_bindings_fail() {
    let mut b = base_block();
    b.attrs = vec![attr(&["macros", "register_methods"], "self_generic = S, self_generic = T")];
    let e = extract_all(&vec![b]).unwrap_err();
    assert!(matches!(e, ImplBlockParseError::MissingSelfGeneric));
}

#[test]
fn broken_marker_arguments_fail() {
    let mut b = base_block();
    b.attrs = vec![attr(&["macros", "register_methods"], "self_generic = = S")];
    let e = extract_all(&vec![b]).unwrap_err();
    assert!(matches!(e, ImplBlockParseError::AttributeParseError(_)));
}

#[test]
fn unknown_strip_capability_fails() {
    let mut b = base_block();
    b.methods[3].attrs = vec![attr(&["macros", "strips_traits"], "NotACapability")];
    let e = extract_all(&vec![b]).unwrap_err();
    match e {
        ImplBlockParseError::UnknownStripCapability(s) => assert_eq!(s, "NotACapability"),
        other => panic!("expected a strip capability error, got {:?}", other),
    }
}

#[test]
fn doc_is_first_line_trimmed() {
    let mut b = base_block();
    b.methods[1].docs =
        vec!["  leading and trailing   \nsecond line".to_string(), "another doc".to_string()];
    let records = extract_all(&vec![b]).unwrap();
    assert_eq!(records[0].methods[1].comments.as_deref(), Some("leading and trailing"));
}

#[test]
fn parse_helpers_agree_with_extraction() {
    let b = base_block();
    assert_eq!(ImplBlock::parse_self_generic(&b).unwrap(), "S");
    assert_eq!(ImplBlock::parse_self_function(&b).unwrap(), "take_inner");
    let marked = ImplBlock::find_method_with_attribute_containing(&b, "strips_traits");
    assert_eq!(marked, vec![3]);
}
