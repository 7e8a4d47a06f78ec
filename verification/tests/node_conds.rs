use lib::mc_conds::{CondFamily, CondParam, JudgeOutcome, McCondOperand};
use lib::mc_ids::McIds;
use lib::node_conds::{condition_from_node, resolve_operand, select_branch, BranchChoice, McCond, McConds};
use lib::syntax::{NodeKind, SyntaxNode};

fn leaf(kind: NodeKind, text: &str) -> SyntaxNode {
    SyntaxNode { kind, text: text.to_string(), pos: 0, len: text.len() as u32, children: vec![] }
}

fn branch(kind: NodeKind, children: Vec<SyntaxNode>) -> SyntaxNode {
    SyntaxNode { kind, text: String::new(), pos: 0, len: 0, children }
}

fn cond_text(n: &SyntaxNode) -> Option<String> {
    condition_from_node(n).map(|c| c.to_string())
}

#[test]
fn comparisons_from_nodes() {
    let eq = branch(NodeKind::JudgeEq, vec![leaf(NodeKind::Id, "sel"), leaf(NodeKind::Str, "FAST")]);
    assert_eq!(cond_text(&eq), Some("sel == \"FAST\"".to_string()));
    let gt = branch(
        NodeKind::JudgeGt,
        vec![
            branch(NodeKind::Opd, vec![leaf(NodeKind::Id, "n")]),
            leaf(NodeKind::Other, "f(x)"),
            branch(NodeKind::Expression, vec![branch(NodeKind::OpdPlus, vec![leaf(NodeKind::Int, "2"), leaf(NodeKind::Int, "3")])]),
        ],
    );
    assert_eq!(cond_text(&gt), Some("n > (2 + 3)".to_string()));
    let hi = branch(NodeKind::JudgeNotEq, vec![leaf(NodeKind::Id, "lvl"), leaf(NodeKind::Const, "HIGH")]);
    assert_eq!(cond_text(&hi), Some("lvl != HIGH".to_string()));
    let one_side = branch(NodeKind::JudgeEq, vec![leaf(NodeKind::Id, "a"), leaf(NodeKind::Other, "?")]);
    assert_eq!(cond_text(&one_side), None);
    assert_eq!(cond_text(&leaf(NodeKind::Id, "a")), None);
}

#[test]
fn in_lists_from_nodes() {
    let arr = branch(
        NodeKind::JudgeEq,
        vec![
            leaf(NodeKind::Id, "mode"),
            branch(NodeKind::OpdSquareVec, vec![leaf(NodeKind::Id, "A"), leaf(NodeKind::Str, "b c"), leaf(NodeKind::Int, "3")]),
        ],
    );
    assert_eq!(cond_text(&arr), Some("mode in [A, \"b c\"]".to_string()));
    let inn = branch(
        NodeKind::JudgeIn,
        vec![
            branch(NodeKind::Opd, vec![leaf(NodeKind::Id, "n")]),
            branch(NodeKind::OpdSquareVec, vec![leaf(NodeKind::Int, "3"), leaf(NodeKind::Int, "4")]),
        ],
    );
    assert_eq!(cond_text(&inn), Some("n in [3, 4]".to_string()));
    let both = branch(
        NodeKind::JudgeAnd,
        vec![inn, branch(NodeKind::JudgeLt, vec![leaf(NodeKind::Id, "v"), leaf(NodeKind::UnitValue, "5V")])],
    );
    assert_eq!(cond_text(&both), Some("(n in [3, 4]) && (v < 5V)".to_string()));
}

#[test]
fn if_else_chains_from_nodes() {
    let judge = |v: &str| branch(NodeKind::JudgeEq, vec![leaf(NodeKind::Id, "sel"), leaf(NodeKind::Str, v)]);
    let chain = branch(
        NodeKind::CondIf,
        vec![
            judge("A"),
            leaf(NodeKind::CondBlock, "a"),
            branch(
                NodeKind::CondElse,
                vec![
                    judge("B"),
                    branch(NodeKind::Body, vec![leaf(NodeKind::AttributePin, "p")]),
                    branch(NodeKind::CondElse, vec![leaf(NodeKind::Net, "n")]),
                ],
            ),
        ],
    );
    let c = McConds::from_node(&chain).unwrap();
    assert_eq!(c.if_blocks.len(), 2);
    assert_eq!(c.if_blocks[0].condition.to_string(), "sel == \"A\"");
    assert_eq!(c.if_blocks[0].block, vec![1]);
    assert_eq!(c.if_blocks[1].condition.to_string(), "sel == \"B\"");
    assert_eq!(c.if_blocks[1].block, vec![2, 1, 0]);
    assert_eq!(c.else_block, Some(vec![2, 2, 0]));
    assert!(McConds::from_node(&leaf(NodeKind::Net, "x")).is_none());
    let no_block = branch(NodeKind::CondIf, vec![judge("A")]);
    let c = McConds::from_node(&no_block).unwrap();
    assert!(c.if_blocks.is_empty());
}

#[test]
fn the_first_holding_branch_wins() {
    let mism = || JudgeOutcome::FamilyMismatch { lhs: "a".to_string(), rhs: "b".to_string() };
    assert_eq!(
        select_branch(&vec![JudgeOutcome::Holds(false), mism(), JudgeOutcome::Holds(true)], true),
        (BranchChoice::Branch(2), None)
    );
    assert_eq!(
        select_branch(&vec![JudgeOutcome::Holds(false), mism(), JudgeOutcome::EngineFailed], true),
        (BranchChoice::Else, Some(1))
    );
    assert_eq!(select_branch(&vec![JudgeOutcome::Holds(false)], false), (BranchChoice::NoBranch, None));
    assert_eq!(select_branch(&vec![], true), (BranchChoice::Else, None));
}

#[test]
fn operands_resolve_through_the_parameters() {
    let params = vec![CondParam { name: McIds::from("sel"), text: "FAST".to_string(), family: CondFamily::Quoted }];
    let sel = McCondOperand::Ident(McIds::from("sel"));
    assert_eq!(resolve_operand(&sel, &params, None), Some(("FAST".to_string(), CondFamily::Quoted)));
    let other = McCondOperand::Ident(McIds::from("mode"));
    assert_eq!(resolve_operand(&other, &params, None), Some(("mode".to_string(), CondFamily::Bare)));
    let def = vec![("mode".to_string(), "SLOW".to_string())];
    assert_eq!(resolve_operand(&other, &params, Some(&def)), Some(("SLOW".to_string(), CondFamily::Def)));
    assert_eq!(
        resolve_operand(&McCondOperand::Literal("2".to_string()), &params, None),
        Some(("2".to_string(), CondFamily::Numeric))
    );
    assert_eq!(
        resolve_operand(&McCondOperand::Word("HIGH".to_string()), &params, None),
        Some(("HIGH".to_string(), CondFamily::Bare))
    );
    let e = McCondOperand::Expr {
        op: lib::mc_conds::CondArithOp::Add,
        left: Box::new(McCondOperand::Literal("1".to_string())),
        right: Box::new(McCondOperand::Literal("2".to_string())),
    };
    assert_eq!(resolve_operand(&e, &params, None), None);
}

#[test]
fn evaluate_picks_the_block_and_the_failure_to_report() {
    let chain = McConds {
        if_blocks: vec![
            McCond { condition: condition_from_node(&branch(NodeKind::JudgeEq, vec![leaf(NodeKind::Id, "a"), leaf(NodeKind::Int, "1")])).unwrap(), block: vec![1] },
            McCond { condition: condition_from_node(&branch(NodeKind::JudgeEq, vec![leaf(NodeKind::Id, "a"), leaf(NodeKind::Int, "2")])).unwrap(), block: vec![2, 1] },
        ],
        else_block: Some(vec![3]),
    };
    let (b, f) = chain.evaluate(&vec![JudgeOutcome::EngineFailed, JudgeOutcome::Holds(true)]);
    assert_eq!(b, Some(vec![2, 1]));
    assert_eq!(f, None);
    let (b, f) = chain.evaluate(&vec![JudgeOutcome::Holds(false), JudgeOutcome::EngineFailed]);
    assert_eq!(b, Some(vec![3]));
    assert_eq!(f, Some(1));
    let no_else = McConds { if_blocks: vec![], else_block: None };
    assert_eq!(no_else.evaluate(&vec![]), (None, None));
}
