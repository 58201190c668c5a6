use method_registry::attr_list::{AttributeArg, AttributeArgsList, AttributeValue};

fn parse(s: &str) -> Result<AttributeArgsList, method_registry::attr_list::GrammarError> {
    AttributeArgsList::parse(s)
}

#[test]
fn parses_empty_directive() {
    let l = parse("").unwrap();
    assert_eq!(l.0.len(), 0);
}

#[test]
fn parses_bare_names() {
    let l = parse("alpha, beta").unwrap();
    assert_eq!(l.0.len(), 2);
    assert!(matches!(&l.0[0], AttributeArg::Arg(a) if a.value == "alpha"));
    assert!(matches!(&l.0[1], AttributeArg::Arg(a) if a.value == "beta"));
}

#[test]
fn parses_trailing_comma() {
    let l = parse("alpha,").unwrap();
    assert_eq!(l.0.len(), 1);
}

#[test]
fn parses_key_value_with_ident() {
    let l = parse("self_generic = S").unwrap();
    assert_eq!(l.0.len(), 1);
    match &l.0[0] {
        AttributeArg::KeyValueArg(kv) => {
            assert_eq!(kv.key, "self_generic");
            assert!(matches!(&kv.value, AttributeValue::Ident(v) if v == "S"));
        },
        other => panic!("expected a key/value argument, got {:?}", other),
    }
}

// Scenario: `(A, exclude=(x, y))` parses into one group containing a bare
// `A` and one `exclude = (x, y)` binding whose value groups two bare names.
#[test]
fn parses_group_with_exclusion() {
    let l = parse("(A, exclude=(x, y))").unwrap();
    assert_eq!(l.0.len(), 1);
    let group = match &l.0[0] {
        AttributeArg::Group(g) => &g.content,
        other => panic!("expected a group, got {:?}", other),
    };
    assert_eq!(group.0.len(), 2);
    assert!(matches!(&group.0[0], AttributeArg::Arg(a) if a.value == "A"));
    match &group.0[1] {
        AttributeArg::KeyValueArg(kv) => {
            assert_eq!(kv.key, "exclude");
            match &kv.value {
                AttributeValue::Group(inner) => {
                    assert_eq!(inner.content.0.len(), 2);
                    assert!(matches!(&inner.content.0[0], AttributeArg::Arg(a) if a.value == "x"));
                    assert!(matches!(&inner.content.0[1], AttributeArg::Arg(a) if a.value == "y"));
                },
                other => panic!("expected a group value, got {:?}", other),
            }
        },
        other => panic!("expected the exclude binding, got {:?}", other),
    }
}

#[test]
fn reports_offending_character() {
    let e = parse("a$b").unwrap_err();
    assert_eq!(e.pos, 1);
}

#[test]
fn reports_offending_token() {
    // the second comma starts a missing argument at offset 3
    let e = parse("a, ,").unwrap_err();
    assert_eq!(e.pos, 3);
}

#[test]
fn reports_unclosed_group() {
    let e = parse("(a, b").unwrap_err();
    assert_eq!(e.pos, 5);
}

#[test]
fn reports_missing_value() {
    let e = parse("key =").unwrap_err();
    assert_eq!(e.pos, 5);
}
