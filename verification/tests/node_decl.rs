use lib::enum_classes::EnumClasses;
use lib::mc_ids::McIds;
use lib::mc_param_type::{McParamType, McParamTypeKind};
use lib::mc_paramd::{McParamDeclare, McParamDeclareKind, McParamDeclares};
use lib::node_decl::DeclError;
use lib::syntax::{NodeKind, SyntaxNode};

fn leaf(kind: NodeKind, text: &str) -> SyntaxNode {
    SyntaxNode { kind, text: text.to_string(), pos: 0, len: text.len() as u32, children: vec![] }
}

fn branch(kind: NodeKind, children: Vec<SyntaxNode>) -> SyntaxNode {
    SyntaxNode { kind, text: String::new(), pos: 0, len: 0, children }
}

fn param(children: Vec<SyntaxNode>) -> SyntaxNode {
    branch(NodeKind::Param, children)
}

fn untyped() -> McParamType {
    McParamType::default()
}

fn cap_enums() -> EnumClasses {
    let mut e = EnumClasses::new();
    e.add("PKG", &["C0402", "X7R"]);
    e.add("CAP", &["X7R", "C0G"]);
    e
}

fn decl(node: &SyntaxNode, enclosing: Option<&McIds>, pt: McParamType) -> Result<McParamDeclare, DeclError> {
    McParamDeclare::from_node(node, enclosing, pt, &cap_enums())
}

#[test]
fn dotted_enum_default_makes_an_enum_class_formal() {
    let n = param(vec![
        leaf(NodeKind::Id, "diel"),
        branch(NodeKind::Ids, vec![leaf(NodeKind::Id, "CAP"), branch(NodeKind::OpdDot, vec![leaf(NodeKind::Id, "X7R")])]),
    ]);
    let d = decl(&n, None, untyped()).unwrap();
    match &d.kind {
        McParamDeclareKind::EnumClass(ec) => {
            assert_eq!(ec.name.to_string(), "diel");
            assert_eq!(ec.class_name, "CAP");
            assert_eq!(ec.default_val.as_deref(), Some("X7R"));
        }
        other => panic!("expected an enum-class formal, got {:?}", other),
    }
    match &d.param_type.kind {
        McParamTypeKind::EnumClassDefault { class_name, default } => {
            assert_eq!(class_name, "CAP");
            assert_eq!(default, "X7R");
        }
        other => panic!("expected an enum default type, got {:?}", other),
    }
    assert_eq!(d.default_val.as_deref(), Some("X7R"));
    assert!(!d.default_quoted);
}

#[test]
fn bare_enum_default_prefers_the_enclosing_enum() {
    let n = param(vec![leaf(NodeKind::Id, "diel"), leaf(NodeKind::Id, "X7R")]);
    let d = decl(&n, None, untyped()).unwrap();
    match &d.kind {
        McParamDeclareKind::EnumClass(ec) => assert_eq!(ec.class_name, "PKG"),
        other => panic!("expected an enum-class formal, got {:?}", other),
    }
    let cap = McIds::from("CAP");
    let d = decl(&n, Some(&cap), untyped()).unwrap();
    match &d.kind {
        McParamDeclareKind::EnumClass(ec) => {
            assert_eq!(ec.class_name, "CAP");
            assert_eq!(ec.default_val.as_deref(), Some("X7R"));
        }
        other => panic!("expected an enum-class formal, got {:?}", other),
    }
}

#[test]
fn plain_and_quoted_defaults_are_recorded_as_written() {
    let n = param(vec![leaf(NodeKind::Id, "sel"), leaf(NodeKind::Id, "FAST")]);
    let d = decl(&n, None, untyped()).unwrap();
    assert!(matches!(&d.kind, McParamDeclareKind::Single(i) if i.to_string() == "sel"));
    assert_eq!(d.default_val.as_deref(), Some("FAST"));
    assert!(!d.default_quoted);
    let q = param(vec![leaf(NodeKind::Id, "sel"), leaf(NodeKind::Str, "FAST")]);
    let d = decl(&q, None, untyped()).unwrap();
    assert_eq!(d.default_val.as_deref(), Some("FAST"));
    assert!(d.default_quoted);
    let bare = param(vec![leaf(NodeKind::Id, "sel")]);
    let d = decl(&bare, None, untyped()).unwrap();
    assert!(d.default_val.is_none());
}

#[test]
fn role_and_vector_formals_from_nodes() {
    let n = param(vec![
        leaf(NodeKind::Role, "role"),
        branch(NodeKind::Ids, vec![leaf(NodeKind::Id, "Controller")]),
    ]);
    let d = decl(&n, None, untyped()).unwrap();
    match &d.kind {
        McParamDeclareKind::Role { name, default_role } => {
            assert_eq!(name.to_string(), "role");
            assert_eq!(default_role.as_ref().map(|r| r.to_string()), Some("Controller".to_string()));
        }
        other => panic!("expected a role formal, got {:?}", other),
    }
    let v = param(vec![branch(
        NodeKind::SquareVec,
        vec![
            branch(NodeKind::Opd, vec![leaf(NodeKind::Id, "VDD1")]),
            branch(NodeKind::Opd, vec![leaf(NodeKind::Id, "GND1")]),
        ],
    )]);
    let d = decl(&v, None, untyped()).unwrap();
    match &d.kind {
        McParamDeclareKind::Multiple(ms) => {
            let names: Vec<String> = ms.iter().map(|m| m.to_string()).collect();
            assert_eq!(names, vec!["VDD1", "GND1"]);
        }
        other => panic!("expected a vector formal, got {:?}", other),
    }
}

#[test]
fn typed_declarations_from_nodes() {
    let vec_decl = param(vec![param(vec![branch(
        NodeKind::Declare,
        vec![
            branch(
                NodeKind::Instance,
                vec![branch(
                    NodeKind::Opd,
                    vec![branch(
                        NodeKind::SquareVec,
                        vec![leaf(NodeKind::Id, "V3V3"), leaf(NodeKind::Id, "GND")],
                    )],
                )],
            ),
            leaf(NodeKind::Other, "DC(3.3V)"),
        ],
    )])]);
    let pt = McParamType {
        kind: McParamTypeKind::Interface { class_name: "DC".to_string(), params: vec!["3.3V".to_string()] },
        direction: None,
    };
    let d = decl(&vec_decl, None, pt).unwrap();
    match &d.kind {
        McParamDeclareKind::Multiple(ms) => {
            let names: Vec<String> = ms.iter().map(|m| m.to_string()).collect();
            assert_eq!(names, vec!["V3V3", "GND"]);
        }
        other => panic!("expected a vector formal, got {:?}", other),
    }
    let enum_decl = param(vec![branch(
        NodeKind::Declare,
        vec![branch(
            NodeKind::Instance,
            vec![leaf(NodeKind::Id, "diel"), leaf(NodeKind::Expression, "X7R")],
        )],
    )]);
    let pt = McParamType { kind: McParamTypeKind::EnumClass { class_name: "CAP".to_string() }, direction: None };
    let d = decl(&enum_decl, None, pt).unwrap();
    match &d.kind {
        McParamDeclareKind::EnumClass(ec) => {
            assert_eq!(ec.name.to_string(), "diel");
            assert_eq!(ec.class_name, "CAP");
            assert_eq!(ec.default_val.as_deref(), Some("X7R"));
        }
        other => panic!("expected an enum-class formal, got {:?}", other),
    }
    let single = param(vec![branch(
        NodeKind::Declare,
        vec![branch(NodeKind::Instance, vec![leaf(NodeKind::Id, "usb")])],
    )]);
    let d = decl(&single, None, untyped()).unwrap();
    assert!(matches!(&d.kind, McParamDeclareKind::Single(i) if i.to_string() == "usb"));
}

#[test]
fn nodes_that_declare_nothing() {
    assert_eq!(decl(&param(vec![]), None, untyped()).err(), Some(DeclError::MissingNode));
    assert_eq!(decl(&param(vec![leaf(NodeKind::Int, "5")]), None, untyped()).err(), Some(DeclError::Unsupported));
    assert_eq!(
        decl(&param(vec![leaf(NodeKind::DeclareUv, "volt")]), None, untyped()).err(),
        Some(DeclError::UnitValue)
    );
    assert_eq!(
        decl(&param(vec![branch(NodeKind::SquareVec, vec![leaf(NodeKind::Int, "1")])]), None, untyped()).err(),
        Some(DeclError::EmptySet)
    );
    assert_eq!(
        decl(&param(vec![branch(NodeKind::Ids, vec![])]), None, untyped()).err(),
        Some(DeclError::InvalidName)
    );
    assert_eq!(
        decl(&param(vec![branch(NodeKind::Declare, vec![leaf(NodeKind::Other, "x")])]), None, untyped()).err(),
        Some(DeclError::NoInstance)
    );
}

#[test]
fn closure_formals_are_registered_with_their_span() {
    let mut ds = McParamDeclares::new();
    let mut ports = leaf(NodeKind::Id, "ports");
    ports.pos = 7;
    ds.push_closure_formal(&ports, untyped(), &cap_enums());
    assert_eq!(ds.declares.len(), 1);
    assert!(ds.find("ports").is_some());
    assert_eq!(ds.get_def_span("ports"), Some(7..12));
    ds.push_closure_formal(&leaf(NodeKind::Int, "5"), untyped(), &cap_enums());
    assert_eq!(ds.declares.len(), 1);
}
