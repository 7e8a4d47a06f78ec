use lib::mc_literal::McConst;
use lib::mc_param::McParamValue;
use lib::node_value::{ArgRead, UnreadForm};
use lib::syntax::{NodeKind, SyntaxNode};

fn leaf(kind: NodeKind, text: &str) -> SyntaxNode {
    SyntaxNode { kind, text: text.to_string(), pos: 0, len: text.len() as u32, children: vec![] }
}

fn branch(kind: NodeKind, children: Vec<SyntaxNode>) -> SyntaxNode {
    SyntaxNode { kind, text: String::new(), pos: 0, len: 0, children }
}

fn value(n: &SyntaxNode) -> McParamValue {
    match McParamValue::from_node(n) {
        ArgRead::Value(v) => v,
        other => panic!("expected a value, got {:?}", other),
    }
}

fn dropped(n: &SyntaxNode) -> bool {
    matches!(McParamValue::from_node(n), ArgRead::Dropped)
}

#[test]
fn placeholder_and_not_connected() {
    assert!(matches!(value(&leaf(NodeKind::OpdUscore, "_")), McParamValue::NONE(ref s) if s == "_"));
    assert!(matches!(value(&leaf(NodeKind::OpdNc, "NC")), McParamValue::NC(ref s) if s == "NC"));
    let wrapped = branch(NodeKind::Param, vec![leaf(NodeKind::OpdUscore, "_")]);
    assert!(matches!(value(&wrapped), McParamValue::NONE(_)));
    assert!(dropped(&branch(NodeKind::Param, vec![])));
}

#[test]
fn literal_arguments() {
    assert!(matches!(value(&leaf(NodeKind::Int, "-42")), McParamValue::Int(ref i) if i.value == -42));
    assert!(dropped(&leaf(NodeKind::Int, "99999999999999999999")));
    match value(&leaf(NodeKind::Const, "HIGH")) {
        McParamValue::Const(McConst::Keyword(k)) => assert_eq!(k, "HIGH"),
        other => panic!("{:?}", other),
    }
    match value(&leaf(NodeKind::Str, "hello")) {
        McParamValue::String(s) => assert_eq!(s.value, "hello"),
        other => panic!("{:?}", other),
    }
    match value(&leaf(NodeKind::Float, "3.30")) {
        McParamValue::Float(t) => assert_eq!(t, "3.30"),
        other => panic!("{:?}", other),
    }
}

#[test]
fn hexadecimal_literals() {
    match value(&leaf(NodeKind::Hex, "0x1F")) {
        McParamValue::Hex(h) => {
            assert_eq!(h.value, 31);
            assert_eq!(h.hex_str, "0x1F");
        }
        other => panic!("{:?}", other),
    }
    match value(&leaf(NodeKind::Hex, "0XfF")) {
        McParamValue::Hex(h) => assert_eq!(h.value, 255),
        other => panic!("{:?}", other),
    }
    // Every leading prefix comes off before the digits are read.
    match value(&leaf(NodeKind::Hex, "0x0x10")) {
        McParamValue::Hex(h) => assert_eq!(h.value, 16),
        other => panic!("{:?}", other),
    }
    match value(&leaf(NodeKind::Hex, "0x7FFFFFFFFFFFFFFF")) {
        McParamValue::Hex(h) => assert_eq!(h.value, i64::MAX),
        other => panic!("{:?}", other),
    }
    assert!(dropped(&leaf(NodeKind::Hex, "0x8000000000000000")));
    assert!(dropped(&leaf(NodeKind::Hex, "0xG1")));
    assert!(dropped(&leaf(NodeKind::Hex, "0x")));
}

#[test]
fn decimal_fraction_texts() {
    for ok in ["1.5", "3.", ".5", "-2.5e-3", "1E9", "+inf", "NaN", "Infinity", "7"] {
        assert!(!dropped(&leaf(NodeKind::Float, ok)), "{ok}");
        assert_eq!(ok.parse::<f64>().is_ok(), true);
    }
    for bad in [".", "1.2.3", "1e", "e5", "", "1.5V", " 1.5", "in"] {
        assert!(dropped(&leaf(NodeKind::Float, bad)), "{bad}");
        assert_eq!(bad.parse::<f64>().is_ok(), false);
    }
}

#[test]
fn identifiers_and_square_vectors_stay_identifiers() {
    match value(&branch(NodeKind::Param, vec![branch(NodeKind::Opd, vec![leaf(NodeKind::Id, "V3V3")])])) {
        McParamValue::Ids(i) => assert_eq!(i.to_string(), "V3V3"),
        other => panic!("{:?}", other),
    }
    let vec_node = branch(NodeKind::SquareVec, vec![leaf(NodeKind::Id, "VDD"), leaf(NodeKind::Id, "GND")]);
    match value(&vec_node) {
        McParamValue::Ids(i) => assert_eq!(i.expand(), vec!["VDD", "GND"]),
        other => panic!("{:?}", other),
    }
    let wrapped = branch(NodeKind::Param, vec![branch(NodeKind::SquareVec, vec![leaf(NodeKind::Id, "A"), leaf(NodeKind::Id, "B")])]);
    match value(&wrapped) {
        McParamValue::Ids(i) => assert_eq!(i.expand(), vec!["A", "B"]),
        other => panic!("{:?}", other),
    }
    assert!(dropped(&leaf(NodeKind::Id, "")));
    assert!(dropped(&leaf(NodeKind::Expression, "a+b")));
}

#[test]
fn unit_value_declaration_gives_its_name() {
    let decl = branch(
        NodeKind::DeclareUv,
        vec![leaf(NodeKind::Id, "volt"), branch(NodeKind::Instance, vec![leaf(NodeKind::Id, "VBAT")])],
    );
    match value(&decl) {
        McParamValue::Ids(i) => assert_eq!(i.to_string(), "VBAT"),
        other => panic!("{:?}", other),
    }
    let no_instance = branch(NodeKind::DeclareUv, vec![leaf(NodeKind::Id, "volt"), leaf(NodeKind::Id, "VBAT")]);
    assert!(dropped(&no_instance));
}

#[test]
fn attribute_blocks_and_unit_values() {
    assert!(dropped(&branch(NodeKind::Body, vec![])));
    match value(&branch(NodeKind::Body, vec![leaf(NodeKind::Other, ";")])) {
        McParamValue::InlineAttrs(a) => assert!(a.is_empty()),
        other => panic!("{:?}", other),
    }
    let block = branch(NodeKind::Body, vec![branch(NodeKind::Attribute, vec![leaf(NodeKind::Id, "cap")])]);
    assert!(matches!(McParamValue::from_node(&block), ArgRead::Unread(UnreadForm::AttributeBlock)));
    for k in [NodeKind::UnitValue, NodeKind::UnitValueAt, NodeKind::RangePlusMinus, NodeKind::OpdTilde] {
        assert!(matches!(McParamValue::from_node(&leaf(k, "3.3V")), ArgRead::Unread(UnreadForm::UnitValue)));
    }
}
