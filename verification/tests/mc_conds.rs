use lib::mc_conds::{
    bitwise_judge, families_meet_exec, in_judge, logic_step, CondArithOp, CondFamily, InMember,
    JudgeOutcome, LeafAnswer, LogicStep, McCondOperand, McCondition,
};
use lib::mc_ids::McIds;

#[test]
fn condition_texts() {
    let c = McCondition::Eq {
        left: McCondOperand::Ident(McIds::from("sel")),
        right: McCondOperand::StrLit("FAST".to_string()),
    };
    assert_eq!(c.to_string(), "sel == \"FAST\"");
    let e = McCondOperand::Expr {
        op: CondArithOp::Add,
        left: Box::new(McCondOperand::Literal("2".to_string())),
        right: Box::new(McCondOperand::Literal("3".to_string())),
    };
    assert_eq!(e.to_string(), "(2 + 3)");
    let within = McCondition::In {
        left: McCondOperand::Ident(McIds::from("mode")),
        values: vec![
            InMember {
                text: "A".to_string(),
                family: CondFamily::Bare,
            },
            InMember {
                text: "b c".to_string(),
                family: CondFamily::Quoted,
            },
        ],
    };
    assert_eq!(within.to_string(), "mode in [A, \"b c\"]");
    let both = McCondition::And {
        left: Box::new(McCondition::Gt {
            left: McCondOperand::Ident(McIds::from("n")),
            right: McCondOperand::Literal("3".to_string()),
        }),
        right: Box::new(within),
    };
    assert_eq!(both.to_string(), "(n > 3) && (mode in [A, \"b c\"])");
    assert!(both.references_param(&["n".to_string()]));
    assert!(!both.references_param(&["x".to_string()]));
}

#[test]
fn family_labels() {
    assert_eq!(CondFamily::Bare.label("FAST"), "bare word 'FAST'");
    assert_eq!(CondFamily::Quoted.label("FAST"), "text 'FAST'");
    assert_eq!(CondFamily::Numeric.label("2"), "number '2'");
    assert_eq!(CondFamily::Def.label("x"), "definition text 'x'");
    assert!(CondFamily::Bare.is_word_family());
    assert!(!CondFamily::Def.is_word_family());
}

#[test]
fn word_families_meet_only_themselves() {
    assert!(!families_meet_exec(CondFamily::Bare, CondFamily::Quoted));
    assert!(!families_meet_exec(CondFamily::Quoted, CondFamily::Bare));
    assert!(families_meet_exec(CondFamily::Bare, CondFamily::Bare));
    assert!(families_meet_exec(CondFamily::Quoted, CondFamily::Numeric));
    assert!(families_meet_exec(CondFamily::Def, CondFamily::Bare));
}

#[test]
fn logic_composition_short_circuits() {
    assert_eq!(logic_step(true, false), LogicStep::Decided(false));
    assert_eq!(logic_step(true, true), LogicStep::ReadRight);
    assert_eq!(logic_step(false, true), LogicStep::Decided(true));
    assert_eq!(logic_step(false, false), LogicStep::ReadRight);
}

#[test]
fn bitwise_and_in_judges() {
    assert!(bitwise_judge(true, 0b101, 0x01));
    assert!(!bitwise_judge(true, 0b100, 0x01));
    assert!(bitwise_judge(false, 0, 0x01));
    assert!(!bitwise_judge(false, 0, 0));
    let fams = vec![CondFamily::Quoted, CondFamily::Bare, CondFamily::Bare];
    assert_eq!(in_judge(CondFamily::Bare, &fams, &vec![Some(true), Some(false), Some(true)]), Some(true));
    assert_eq!(in_judge(CondFamily::Bare, &fams, &vec![Some(true), Some(false), Some(false)]), Some(false));
    assert_eq!(in_judge(CondFamily::Bare, &fams, &vec![None, None, Some(true)]), None);
    assert_eq!(in_judge(CondFamily::Quoted, &fams, &vec![Some(true), None, None]), Some(true));
    assert_eq!(in_judge(CondFamily::Bare, &vec![], &vec![]), Some(false));
}

fn eq_judge() -> McCondition {
    McCondition::Eq {
        left: McCondOperand::Ident(McIds::from("sel")),
        right: McCondOperand::StrLit("FAST".to_string()),
    }
}

fn cmp(lt: &str, lf: CondFamily, rt: &str, rf: CondFamily, holds: Option<bool>) -> LeafAnswer {
    LeafAnswer::Compare {
        left_text: lt.to_string(),
        left_family: lf,
        right_text: rt.to_string(),
        right_family: rf,
        holds,
    }
}

#[test]
fn judging_a_comparison_applies_the_family_gate() {
    let c = eq_judge();
    match c.judge(&vec![cmp("FAST", CondFamily::Bare, "FAST", CondFamily::Quoted, Some(true))]) {
        JudgeOutcome::FamilyMismatch { lhs, rhs } => {
            assert_eq!(lhs, "bare word 'FAST'");
            assert_eq!(rhs, "text 'FAST'");
        }
        other => panic!("expected a family mismatch, got {:?}", other),
    }
    assert!(matches!(
        c.judge(&vec![cmp("FAST", CondFamily::Quoted, "FAST", CondFamily::Quoted, Some(true))]),
        JudgeOutcome::Holds(true)
    ));
    assert!(matches!(
        c.judge(&vec![cmp("2", CondFamily::Numeric, "x", CondFamily::Quoted, None)]),
        JudgeOutcome::EngineFailed
    ));
    assert!(matches!(c.judge(&vec![]), JudgeOutcome::EngineFailed));
    assert!(matches!(c.judge(&vec![LeafAnswer::Bits(Some(None))]), JudgeOutcome::EngineFailed));
}

#[test]
fn judging_composition_short_circuits() {
    let and = McCondition::And { left: Box::new(eq_judge()), right: Box::new(eq_judge()) };
    let no = cmp("A", CondFamily::Quoted, "B", CondFamily::Quoted, Some(false));
    let yes = cmp("A", CondFamily::Quoted, "A", CondFamily::Quoted, Some(true));
    let bad = cmp("A", CondFamily::Bare, "A", CondFamily::Quoted, Some(true));
    assert!(matches!(and.judge(&vec![no, bad]), JudgeOutcome::Holds(false)));
    let no = cmp("A", CondFamily::Quoted, "B", CondFamily::Quoted, Some(false));
    let yes2 = cmp("A", CondFamily::Quoted, "A", CondFamily::Quoted, Some(true));
    assert!(matches!(and.judge(&vec![yes, no]), JudgeOutcome::Holds(false)));
    let bad = cmp("A", CondFamily::Bare, "A", CondFamily::Quoted, Some(true));
    assert!(matches!(and.judge(&vec![yes2, bad]), JudgeOutcome::FamilyMismatch { .. }));
    let or = McCondition::Or { left: Box::new(eq_judge()), right: Box::new(eq_judge()) };
    let yes = cmp("A", CondFamily::Quoted, "A", CondFamily::Quoted, Some(true));
    assert!(matches!(or.judge(&vec![yes]), JudgeOutcome::Holds(true)));
}

#[test]
fn judging_bitwise_and_in_lists() {
    let bit = McCondition::BitAnd {
        left: McCondOperand::Ident(McIds::from("address")),
        right: McCondOperand::Literal("0x01".to_string()),
    };
    assert!(matches!(bit.judge(&vec![LeafAnswer::Bits(Some(Some((5, 1))))]), JudgeOutcome::Holds(true)));
    assert!(matches!(bit.judge(&vec![LeafAnswer::Bits(Some(Some((4, 1))))]), JudgeOutcome::Holds(false)));
    assert!(matches!(bit.judge(&vec![LeafAnswer::Bits(Some(None))]), JudgeOutcome::Holds(false)));
    assert!(matches!(bit.judge(&vec![LeafAnswer::Bits(None)]), JudgeOutcome::EngineFailed));
    let inn = McCondition::In {
        left: McCondOperand::Ident(McIds::from("sel")),
        values: vec![
            InMember { text: "FAST".to_string(), family: CondFamily::Quoted },
            InMember { text: "FAST".to_string(), family: CondFamily::Bare },
        ],
    };
    let ans = |equal: Vec<Option<bool>>| vec![LeafAnswer::Member { left_family: Some(CondFamily::Bare), equal }];
    assert!(matches!(inn.judge(&ans(vec![Some(true), Some(true)])), JudgeOutcome::Holds(true)));
    assert!(matches!(inn.judge(&ans(vec![Some(true), Some(false)])), JudgeOutcome::Holds(false)));
    assert!(matches!(inn.judge(&ans(vec![None, None])), JudgeOutcome::EngineFailed));
    assert!(matches!(inn.judge(&ans(vec![Some(true)])), JudgeOutcome::EngineFailed));
    assert!(matches!(
        inn.judge(&vec![LeafAnswer::Member { left_family: None, equal: vec![Some(true), Some(true)] }]),
        JudgeOutcome::EngineFailed
    ));
}

#[test]
fn check_condition_reads_failures_as_not_holding() {
    let c = eq_judge();
    assert!(c.check_condition(&vec![cmp("FAST", CondFamily::Quoted, "FAST", CondFamily::Quoted, Some(true))]));
    assert!(!c.check_condition(&vec![cmp("FAST", CondFamily::Quoted, "SLOW", CondFamily::Quoted, Some(false))]));
    assert!(!c.check_condition(&vec![cmp("FAST", CondFamily::Bare, "FAST", CondFamily::Quoted, Some(true))]));
    assert!(!c.check_condition(&vec![]));
}
