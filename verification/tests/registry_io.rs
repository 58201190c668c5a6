use method_registry::impl_block::{extract_all, RawArg, RawAttr, RawBlock, RawMethod};
use method_registry::registry::{parse_registry, serialize_registry, RegistryError};

fn attr(path: &[&str], args: &str) -> RawAttr {
    RawAttr { path: path.iter().map(|s| s.to_string()).collect(), args: args.to_string() }
}

fn arg(name: &str, ty: &str) -> RawArg {
    RawArg { ident_pattern: true, mutable: false, name: name.to_string(), ty: ty.to_string() }
}

fn sample_block() -> RawBlock {
    let mut take_inner = RawMethod {
        name: "take_inner".to_string(),
        has_receiver: true,
        args: vec![],
        return_type: Some("Box<dyn Iterator<Item = u8>>".to_string()),
        docs: vec![],
        attrs: vec![attr(&["macros", "method_self_arg"], "")],
    };
    take_inner.docs = vec!["Extracts the inner stream".to_string()];
    let fold = RawMethod {
        name: "fold".to_string(),
        has_receiver: false,
        args: vec![arg("iter", "S"), arg("init", "u64"), arg("f", "Folder")],
        return_type: Some("u64".to_string()),
        docs: vec![],
        attrs: vec![attr(&["macros", "return_literal"], "")],
    };
    let rev = RawMethod {
        name: "rev".to_string(),
        has_receiver: false,
        args: vec![arg("iter", "S")],
        return_type: Some("Reversed<S>".to_string()),
        docs: vec![],
        attrs: vec![attr(&["macros", "strips_traits"], "PyExactSizeIterator, PyBaseIterator")],
    };
    RawBlock {
        path: vec![
            "crate".to_string(),
            "double_ended_iterator".to_string(),
            "PyDoubleEndedIterator".to_string(),
        ],
        attrs: vec![attr(&["macros", "register_methods"], "self_generic = S")],
        methods: vec![take_inner, fold, rev],
    }
}

// Round trip: the records written by an extraction run read back intact.
#[test]
fn serialize_then_parse_is_identity() {
    let records = extract_all(&vec![sample_block()]).unwrap();
    let text = serialize_registry(&records);
    let back = parse_registry(&text).unwrap();
    assert_eq!(format!("{:?}", records), format!("{:?}", back));
}

// Idempotence: two runs over unchanged input write byte-identical registries.
#[test]
fn serialization_is_byte_identical_across_runs() {
    let first = serialize_registry(&extract_all(&vec![sample_block()]).unwrap());
    let second = serialize_registry(&extract_all(&vec![sample_block()]).unwrap());
    assert_eq!(first, second);
}

// Round trip of recorded type strings: everything a run records still
// parses as a type expression after a pass through the registry file.
#[test]
fn recorded_types_still_parse_after_round_trip() {
    let records = extract_all(&vec![sample_block()]).unwrap();
    let text = serialize_registry(&records);
    let back = parse_registry(&text).unwrap();
    for b in &back {
        for m in &b.methods {
            for a in &m.args {
                assert!(syn::parse_str::<syn::Type>(&a.expected_type).is_ok());
                assert!(syn::parse_str::<syn::Ident>(&a.name).is_ok());
            }
            if let Some(t) = &m.return_type {
                assert!(syn::parse_str::<syn::Type>(t).is_ok());
            }
            assert!(syn::parse_str::<syn::Ident>(&m.name).is_ok());
        }
    }
}

#[test]
fn unknown_fields_are_skipped() {
    let records = extract_all(&vec![sample_block()]).unwrap();
    let text = serialize_registry(&records);
    // splice an unknown key/value pair right after the version header
    let with_extra = text.replacen("registry\n1\n", "registry\n1\nfuture_field\nsome value\n", 1);
    assert_ne!(with_extra, text);
    let back = parse_registry(&with_extra).unwrap();
    assert_eq!(format!("{:?}", records), format!("{:?}", back));
}

#[test]
fn missing_version_header_is_rejected() {
    let e = parse_registry("block\n\n").unwrap_err();
    assert!(matches!(e, RegistryError::BadVersion));
}

#[test]
fn wrong_version_is_rejected() {
    let e = parse_registry("registry\n2\n").unwrap_err();
    assert!(matches!(e, RegistryError::BadVersion));
}

#[test]
fn truncated_registry_is_rejected() {
    let records = extract_all(&vec![sample_block()]).unwrap();
    let text = serialize_registry(&records);
    let lines: Vec<&str> = text.lines().collect();
    let truncated = lines[..lines.len() - 2].join("\n") + "\n";
    let e = parse_registry(&truncated).unwrap_err();
    assert!(matches!(e, RegistryError::UnexpectedEnd | RegistryError::UnexpectedKey(_)));
}

#[test]
fn misplaced_field_is_named() {
    let text = "registry\n1\nblock\n\nself_generic\nS\nself_function\nf\nend_block\n\n";
    // self_generic before self_function violates the writing order
    let e = parse_registry(text).unwrap_err();
    assert!(matches!(e, RegistryError::UnexpectedKey(4)));
}

#[test]
fn empty_registry_parses_to_no_records() {
    let back = parse_registry("registry\n1\n").unwrap();
    assert_eq!(back.len(), 0);
}

#[test]
fn boolean_values_are_checked() {
    let records = extract_all(&vec![sample_block()]).unwrap();
    let text = serialize_registry(&records);
    let broken = text.replacen("literal_return\ntrue\n", "literal_return\nmaybe\n", 1);
    let e = parse_registry(&broken).unwrap_err();
    assert!(matches!(e, RegistryError::BadBool(_)));
}
