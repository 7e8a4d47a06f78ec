use lib::mc_param_type::{McParamType, McParamTypeKind};
use lib::mc_paramd::{McParamDeclareKind, McParamDeclares};
use lib::enum_classes::EnumClasses;
use lib::syntax::{NodeKind, SyntaxNode};

fn at(kind: NodeKind, text: &str, pos: u32) -> SyntaxNode {
    SyntaxNode { kind, text: text.to_string(), pos, len: text.len() as u32, children: vec![] }
}

fn wrap(kind: NodeKind, pos: u32, len: u32, children: Vec<SyntaxNode>) -> SyntaxNode {
    SyntaxNode { kind, text: String::new(), pos, len, children }
}

fn untyped(n: usize) -> Vec<McParamType> {
    (0..n).map(|_| McParamType::default()).collect()
}

#[test]
fn a_parameter_list_declares_and_records_spans() {
    let params = vec![
        wrap(NodeKind::Param, 0, 3, vec![at(NodeKind::Id, "vin", 0)]),
        wrap(
            NodeKind::Param,
            4,
            10,
            vec![wrap(
                NodeKind::SquareVec,
                4,
                10,
                vec![
                    wrap(NodeKind::Opd, 5, 3, vec![at(NodeKind::Id, "VDD", 5)]),
                    wrap(NodeKind::Opd, 10, 3, vec![at(NodeKind::Id, "GND", 10)]),
                ],
            )],
        ),
        at(NodeKind::IoType, "in", 16),
        at(NodeKind::Id, "sig", 20),
        at(NodeKind::Id, "clk", 25),
    ];
    let mut ds = McParamDeclares::new();
    ds.parse(&params, &untyped(params.len()), &EnumClasses::new());
    assert_eq!(ds.len(), 4);
    assert!(matches!(&ds.declares[1].kind, McParamDeclareKind::Multiple(ms) if ms.len() == 2));
    assert_eq!(ds.get_def_span("vin"), Some(0..3));
    assert_eq!(ds.get_def_span("VDD"), Some(5..8));
    assert_eq!(ds.get_def_span("GND"), Some(10..13));
    assert_eq!(ds.get_def_span("sig"), Some(20..23));
    assert_eq!(ds.get_def_span("clk"), Some(25..28));
    assert!(ds.contains("vin"));
    assert!(ds.contains("sig"));
    assert!(ds.find("clk").is_some());
}

#[test]
fn typed_vector_parameters_get_member_and_bracket_spans() {
    let params = vec![wrap(
        NodeKind::Param,
        0,
        18,
        vec![wrap(
            NodeKind::Declare,
            0,
            18,
            vec![wrap(
                NodeKind::Instance,
                0,
                10,
                vec![wrap(
                    NodeKind::Opd,
                    0,
                    10,
                    vec![wrap(NodeKind::SquareVec, 0, 10, vec![at(NodeKind::Id, "V3V3", 1), at(NodeKind::Id, "GND", 7)])],
                )],
            )],
        )],
    )];
    let types = vec![McParamType {
        kind: McParamTypeKind::Interface { class_name: "DC".to_string(), params: vec!["3.3V".to_string()] },
        direction: None,
    }];
    let mut ds = McParamDeclares::new();
    ds.parse(&params, &types, &EnumClasses::new());
    assert_eq!(ds.len(), 1);
    assert_eq!(ds.get_def_span("V3V3"), Some(1..5));
    assert_eq!(ds.get_def_span("GND"), Some(7..10));
    assert_eq!(ds.get_def_span("[V3V3, GND]"), Some(0..10));
}

#[test]
fn a_typed_name_spans_the_text_before_its_declaration() {
    let params = vec![wrap(
        NodeKind::Declare,
        10,
        8,
        vec![wrap(NodeKind::Instance, 10, 3, vec![at(NodeKind::Id, "usb", 10)])],
    )];
    let mut ds = McParamDeclares::new();
    ds.parse(&params, &untyped(1), &EnumClasses::new());
    assert_eq!(ds.len(), 1);
    assert_eq!(ds.get_def_span("usb"), Some(5..8));
}
