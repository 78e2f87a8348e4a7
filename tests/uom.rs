use std::collections::HashMap;
use ucre::attributes::Attributes;
use ucre::cli::{execution, NO_FILENAME, NO_SUBCOMMAND};
use ucre::context::Context;
use ucre::error::{NodeKind, NodeOperation, UcreError};
use ucre::file::File;
use ucre::node::{AnyNode, Heading, Node};

fn s(t: &str) -> String {
    t.to_string()
}

#[test]
fn init() {
    let c = Context::init().expect("Failed to initialize skia context");
    let _ = c.window;
}

#[test]
fn heading_has_no_children() {
    let mut h = Heading::new(s("Title"));
    assert!(h.children().is_none());
    let child = AnyNode::Heading(Heading::new(s("sub")));
    assert_eq!(
        h.set_children(vec![child]),
        Err(UcreError::UnsupportedNodeOperation {
            kind: NodeKind::Heading,
            operation: NodeOperation::SetChildren,
        })
    );
    assert!(h.children().is_none());
    assert_eq!(h.kind(), NodeKind::Heading);
}

#[test]
fn heading_attribute_overwrites() {
    let mut h = Heading::new(s("Title"));
    h.set_attr(s("k"), vec![s("a"), s("b")]);
    h.set_attr(s("k"), vec![s("c")]);
    assert_eq!(h.attr().get(&s("k")), Some(&vec![s("c")]));
    assert_eq!(h.attr().get(&s("other")), None);
}

#[test]
fn heading_text() {
    let mut h = Heading::new(s("Title"));
    assert_eq!(h.text(), Some("Title"));
    assert_eq!(h.set_text(s("New")), Ok(()));
    assert_eq!(h.text(), Some("New"));
}

#[test]
fn attributes_keep_value_order() {
    let mut a = Attributes::new();
    a.insert(s("x"), vec![s("2"), s("1")]);
    a.insert(s("y"), vec![]);
    assert_eq!(a.get(&s("x")), Some(&vec![s("2"), s("1")]));
    assert_eq!(a.get(&s("y")), Some(&vec![]));
}

#[test]
fn file_fields_are_replaced() {
    let mut f = File::new();
    assert!(f.meta_data().is_empty());
    assert_eq!(f.lua(), "");
    assert!(f.doc().is_empty());
    let mut m = HashMap::new();
    m.insert(s("author"), s("me"));
    f.set_meta_data(m);
    f.set_lua(s("print(1)"));
    f.set_doc(vec![AnyNode::Heading(Heading::new(s("a")))]);
    assert_eq!(f.meta_data().get("author"), Some(&s("me")));
    assert_eq!(f.lua(), "print(1)");
    assert_eq!(f.doc().len(), 1);
}

#[test]
fn command_line() {
    assert_eq!(execution(&vec![s("ucre")]), Err(UcreError::Str(NO_SUBCOMMAND)));
    assert_eq!(execution(&vec![s("ucre"), s("ucc")]), Err(UcreError::Str(NO_FILENAME)));
    assert_eq!(execution(&vec![s("ucre"), s("ucc"), s("doc.ucre")]), Ok(s("doc.ucre")));
    assert_eq!(
        execution(&vec![s("ucre"), s("run")]),
        Err(UcreError::String(s("run is not a valid subcommand")))
    );
}

#[test]
fn exit_codes_are_distinct() {
    let errs = [
        UcreError::String(s("x")),
        UcreError::Str("y"),
        UcreError::UnterminatedString { line: 1 },
        UcreError::InvalidUtf8,
        UcreError::NumberParseFailure,
        UcreError::InvalidRawBlockSyntax,
        UcreError::UnknownCharacter { character: '$', line: 1 },
        UcreError::UnexpectedEndOfInput,
        UcreError::UnsupportedNodeOperation { kind: NodeKind::Heading, operation: NodeOperation::SetText },
        UcreError::IoFailure(s("z")),
    ];
    let codes: Vec<i32> = errs.iter().map(|e| e.exit_code()).collect();
    for (i, a) in codes.iter().enumerate() {
        assert_ne!(*a, 0);
        for b in &codes[i + 1..] {
            assert_ne!(a, b);
        }
    }
    assert_eq!(UcreError::new(s("m")), UcreError::String(s("m")));
    assert_eq!(UcreError::from_str("m"), UcreError::Str("m"));
}

#[test]
fn any_node_dispatches_to_its_kind() {
    let mut n = AnyNode::Heading(Heading::new(s("T")));
    assert_eq!(n.kind(), NodeKind::Heading);
    assert_eq!(n.text(), Some("T"));
    n.set_attr(s("size"), vec![s("2")]);
    assert_eq!(n.attr().get(&s("size")), Some(&vec![s("2")]));
    assert!(n.children().is_none());
    assert!(n.set_children(vec![]).is_err());
}
