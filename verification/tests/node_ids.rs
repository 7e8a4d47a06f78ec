use lib::mc_ids::McIds;
use lib::mc_literal::McInt;
use lib::mc_opd::McOpd;
use lib::syntax::{NodeKind, SyntaxNode};

fn leaf(kind: NodeKind, text: &str) -> SyntaxNode {
    SyntaxNode { kind, text: text.to_string(), pos: 0, len: text.len() as u32, children: vec![] }
}

fn branch(kind: NodeKind, children: Vec<SyntaxNode>) -> SyntaxNode {
    SyntaxNode { kind, text: String::new(), pos: 0, len: 0, children }
}

fn ids_text(n: &SyntaxNode) -> Option<String> {
    McIds::from_node(n).map(|i| i.to_string())
}

#[test]
fn plain_and_dotted_identifiers_from_nodes() {
    assert_eq!(ids_text(&leaf(NodeKind::Id, "U1")), Some("U1".to_string()));
    let dotted = branch(
        NodeKind::Ids,
        vec![leaf(NodeKind::Id, "U1"), branch(NodeKind::OpdDot, vec![leaf(NodeKind::Id, "VCC")])],
    );
    assert_eq!(ids_text(&dotted), Some("U1.VCC".to_string()));
    let indexed = branch(
        NodeKind::Ids,
        vec![leaf(NodeKind::Id, "TTL"), branch(NodeKind::OpdDot, vec![leaf(NodeKind::Int, "7400")])],
    );
    assert_eq!(ids_text(&indexed), Some("TTL.7400".to_string()));
    let wrapped = branch(NodeKind::Param, vec![branch(NodeKind::Opd, vec![leaf(NodeKind::Ida, "D[0:3]")])]);
    assert_eq!(ids_text(&wrapped), Some("D[0:3]".to_string()));
    assert_eq!(McIds::from_node(&wrapped).unwrap().expand(), vec!["D0", "D1", "D2", "D3"]);
}

#[test]
fn nodes_that_spell_no_identifier() {
    assert!(McIds::from_node(&leaf(NodeKind::Int, "5")).is_none());
    assert!(McIds::from_node(&branch(NodeKind::Ids, vec![])).is_none());
    assert!(McIds::from_node(&branch(NodeKind::Opd, vec![])).is_none());
    assert!(McIds::from_node(&leaf(NodeKind::Expression, "a+b")).is_none());
    let empty = McIds::from_node(&leaf(NodeKind::Id, "")).unwrap();
    assert!(empty.is_empty());
    assert!(McOpd::from_node(&leaf(NodeKind::Int, "5")).is_none());
}

#[test]
fn curly_groups_and_square_vectors_from_nodes() {
    let curly = branch(
        NodeKind::Ids,
        vec![
            leaf(NodeKind::Id, "D"),
            branch(
                NodeKind::OpdCurly,
                vec![
                    leaf(NodeKind::Int, "0"),
                    branch(NodeKind::OpdColon, vec![leaf(NodeKind::Int, "3"), leaf(NodeKind::Int, "1")]),
                    leaf(NodeKind::Other, "x"),
                ],
            ),
        ],
    );
    assert_eq!(ids_text(&curly), Some("D{0, 3:1}".to_string()));
    let square = branch(
        NodeKind::SquareVec,
        vec![
            branch(NodeKind::Opd, vec![leaf(NodeKind::Id, "VDD")]),
            leaf(NodeKind::Id, "GND"),
            leaf(NodeKind::Int, "24"),
            branch(NodeKind::OpdColon, vec![leaf(NodeKind::Int, "1"), leaf(NodeKind::Int, "2")]),
        ],
    );
    assert_eq!(ids_text(&square), Some("[VDD, GND, 24, 1:2]".to_string()));
    assert_eq!(ids_text(&branch(NodeKind::SquareVec, vec![])), Some(String::new()));
}

#[test]
fn keyword_operands_take_their_suffixes() {
    let this_member = branch(
        NodeKind::Param,
        vec![
            leaf(NodeKind::OpdThis, "this"),
            leaf(NodeKind::Id, "a"),
            branch(NodeKind::OpdDot, vec![leaf(NodeKind::Int, "2")]),
        ],
    );
    assert_eq!(ids_text(&this_member), Some("this.a.2".to_string()));
    let pins = branch(
        NodeKind::Opd,
        vec![leaf(NodeKind::OpdPins, "pins"), branch(NodeKind::OpdDot, vec![leaf(NodeKind::Int, "3")])],
    );
    assert_eq!(ids_text(&pins), Some("pins.3".to_string()));
    match McOpd::from_node(&pins) {
        Some(McOpd::Pins(i)) => assert_eq!(i.to_string(), "pins.3"),
        other => panic!("expected a pins operand, got {:?}", other),
    }
    assert_eq!(ids_text(&leaf(NodeKind::OpdThis, "this")), Some("this".to_string()));
}

#[test]
fn operands_from_nodes() {
    assert!(matches!(
        McOpd::from_node(&branch(NodeKind::Opd, vec![leaf(NodeKind::OpdUscore, "_")])),
        Some(McOpd::Uscore)
    ));
    let dotted = branch(
        NodeKind::Opd,
        vec![leaf(NodeKind::Id, "U1"), branch(NodeKind::OpdDot, vec![leaf(NodeKind::Id, "VCC")])],
    );
    match McOpd::from_node(&dotted) {
        Some(McOpd::Id(i)) => assert_eq!(i.to_string(), "U1.VCC"),
        other => panic!("expected an identifier operand, got {:?}", other),
    }
    let inst = branch(NodeKind::Instance, vec![branch(NodeKind::Opd, vec![leaf(NodeKind::Id, "R1")])]);
    match McOpd::from_node(&inst) {
        Some(McOpd::Id(i)) => assert_eq!(i.to_string(), "R1"),
        other => panic!("expected an instance operand, got {:?}", other),
    }
    let this_opd = branch(
        NodeKind::Opd,
        vec![leaf(NodeKind::OpdThis, "this"), branch(NodeKind::OpdDot, vec![leaf(NodeKind::Id, "out")])],
    );
    match McOpd::from_node(&this_opd) {
        Some(McOpd::This(i)) => assert_eq!(i.to_string(), "this.out"),
        other => panic!("expected a this operand, got {:?}", other),
    }
}

#[test]
fn integer_nodes() {
    assert_eq!(McInt::from_node(&leaf(NodeKind::Int, "-42")).map(|i| i.value), Some(-42));
    assert_eq!(McInt::from_node(&leaf(NodeKind::UnitInt, "  12 mA")).map(|i| i.value), Some(12));
    assert!(McInt::from_node(&leaf(NodeKind::Int, "12 mA")).is_none());
    assert!(McInt::from_node(&leaf(NodeKind::Int, "99999999999999999999")).is_none());
    assert!(McInt::from_node(&leaf(NodeKind::Id, "7")).is_none());
}

#[test]
fn identifier_nodes_read_like_their_text() {
    for t in ["U1", "D[0:3]", "A[c:a]", "n\\[x"] {
        let from_node = McIds::from_node(&leaf(NodeKind::Ida, t)).unwrap();
        let from_text = McIds::from(t);
        assert!(from_node == from_text);
        assert_eq!(from_node.to_string(), from_text.to_string());
    }
}

#[test]
fn suffix_nodes_append_to_an_identifier() {
    let kids = vec![
        branch(NodeKind::Ids, vec![leaf(NodeKind::Id, "TTL")]),
        branch(NodeKind::OpdDot, vec![leaf(NodeKind::Int, "7400")]),
    ];
    assert_eq!(McIds::new_with_dot(&kids, 0).map(|i| i.to_string()), Some("TTL.7400".to_string()));
    assert_eq!(McIds::new_with_dot(&kids, 1).map(|i| i.to_string()), None);
    let mut ids = McIds::from("U1");
    ids.append(&vec![
        branch(NodeKind::OpdDot, vec![leaf(NodeKind::Id, "VCC")]),
        leaf(NodeKind::Other, "x"),
        branch(NodeKind::OpdCurly, vec![leaf(NodeKind::Int, "1")]),
    ]);
    assert_eq!(ids.to_string(), "U1.VCC{1}");
}
