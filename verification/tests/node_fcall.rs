use lib::node_fcall::{fcall_queries, register_choice};
use lib::syntax::{NodeKind, SyntaxNode};

fn at(kind: NodeKind, text: &str, pos: u32) -> SyntaxNode {
    SyntaxNode { kind, text: text.to_string(), pos, len: text.len() as u32, children: vec![] }
}

fn wrap(kind: NodeKind, pos: u32, len: u32, children: Vec<SyntaxNode>) -> SyntaxNode {
    SyntaxNode { kind, text: String::new(), pos, len, children }
}

fn regs(n: &SyntaxNode, inst_known: bool, class_known: bool) -> Vec<(String, (usize, usize))> {
    register_choice(n, inst_known, class_known).into_iter().map(|(i, s)| (i.to_string(), s)).collect()
}

#[test]
fn a_class_call_registers_its_class() {
    let call = wrap(NodeKind::Other, 0, 9, vec![wrap(NodeKind::Name, 0, 3, vec![at(NodeKind::Id, "CAP", 0)])]);
    assert_eq!(regs(&call, false, false), vec![("CAP".to_string(), (0, 3))]);
    assert_eq!(regs(&call, false, true), vec![]);
    assert_eq!(fcall_queries(&call), (None, Some("CAP".to_string())));
}

#[test]
fn a_dotted_class_or_a_method_call() {
    let call = wrap(
        NodeKind::Other,
        0,
        12,
        vec![
            wrap(NodeKind::Instance, 0, 3, vec![wrap(NodeKind::Opd, 0, 3, vec![at(NodeKind::Id, "DIO", 0)])]),
            wrap(NodeKind::Name, 4, 3, vec![at(NodeKind::Id, "ESD", 4)]),
        ],
    );
    assert_eq!(fcall_queries(&call), (Some("DIO".to_string()), Some("ESD".to_string())));
    assert_eq!(regs(&call, false, false), vec![("DIO.ESD".to_string(), (0, 7))]);
    assert_eq!(regs(&call, true, false), vec![]);
}

#[test]
fn a_chained_call_registers_the_inner_class() {
    let inner_call = wrap(NodeKind::Other, 0, 9, vec![wrap(NodeKind::Name, 0, 3, vec![at(NodeKind::Id, "RES", 0)])]);
    let call = wrap(
        NodeKind::Other,
        0,
        18,
        vec![
            wrap(NodeKind::Instance, 0, 9, vec![wrap(NodeKind::Opd, 0, 9, vec![inner_call])]),
            wrap(NodeKind::Name, 10, 6, vec![at(NodeKind::Id, "Pullup", 10)]),
        ],
    );
    assert_eq!(regs(&call, false, false), vec![("RES".to_string(), (0, 3))]);
    assert_eq!(fcall_queries(&call), (None, Some("Pullup".to_string())));
}
