use lib::mc_fcall::{fold_pre_param, fold_prefix_into_uscore, param_contains_uscore};
use lib::mc_ids::McIds;
use lib::mc_literal::McInt;
use lib::mc_opd::McOpd;
use lib::mc_param::McParamValue;
use lib::mc_param_type::{McParamType, McParamTypeKind};
use lib::mc_paramd::{McEnumClassDeclare, McParamDeclare, McParamDeclareKind, WrittenDefault};

fn id(s: &str) -> McParamValue {
    McParamValue::Ids(McIds::from(s))
}

#[test]
fn prefix_fills_the_first_placeholder_in_a_list() {
    let args = McParamValue::List(vec![
        McParamValue::NONE("_".to_string()),
        id("VDD"),
        McParamValue::Opd(McOpd::Uscore),
    ]);
    assert!(param_contains_uscore(&args));
    let (filled, done) = fold_prefix_into_uscore(&args, &id("I2C0"));
    assert!(done);
    assert_eq!(filled.to_string(), "[I2C0, VDD, _]");
}

#[test]
fn prefix_without_placeholder_keeps_the_argument() {
    let args = McParamValue::List(vec![id("VDD"), McParamValue::Int(McInt { value: 3 })]);
    assert!(!param_contains_uscore(&args));
    let (same, done) = fold_prefix_into_uscore(&args, &id("I2C0"));
    assert!(!done);
    assert_eq!(same.to_string(), "[VDD, 3]");
    let (bare, done2) = fold_prefix_into_uscore(&McParamValue::NONE("_".to_string()), &id("X"));
    assert!(done2);
    assert_eq!(bare.to_string(), "X");
}

#[test]
fn recorded_prefers_the_carried_default() {
    let ec = McParamDeclareKind::EnumClass(McEnumClassDeclare {
        name: McIds::from("diel"),
        class_name: "CAP".to_string(),
        default_val: Some("X7R".to_string()),
    });
    let d = McParamDeclare::recorded(
        ec,
        McParamType::default(),
        Some(WrittenDefault {
            text: "C0G".to_string(),
            quoted: true,
        }),
    );
    assert_eq!(d.default_val, Some("X7R".to_string()));
    assert!(!d.default_quoted);

    let plain = McParamDeclare::recorded(
        McParamDeclareKind::Single(McIds::from("sel")),
        McParamType {
            kind: McParamTypeKind::Unknown,
            direction: None,
        },
        Some(WrittenDefault {
            text: "FAST".to_string(),
            quoted: true,
        }),
    );
    assert_eq!(plain.default_val, Some("FAST".to_string()));
    assert!(plain.default_quoted);

    let typed = McParamDeclare::recorded(
        McParamDeclareKind::Single(McIds::from("volt")),
        McParamType {
            kind: McParamTypeKind::UnitValueDefault {
                unit: lib::attr_keys::McUnit::Volt,
                default: "5V".to_string(),
            },
            direction: None,
        },
        None,
    );
    let (n, dv) = typed.name_and_default().expect("carries a default");
    assert_eq!(n.to_string(), "volt");
    assert_eq!(dv, "5V");
}

fn texts(v: &[McParamValue]) -> Vec<String> {
    v.iter().map(|p| p.to_string()).collect()
}

#[test]
fn prefix_fold_rules() {
    let uscore = || McParamValue::NONE("_".to_string());
    let pre = id("I2C0");
    assert_eq!(texts(&fold_pre_param(&vec![uscore(), McParamValue::Opd(McOpd::Uscore)], &pre)), vec!["I2C0"]);
    assert_eq!(texts(&fold_pre_param(&vec![uscore(), id("VDD")], &pre)), vec!["I2C0", "VDD"]);
    assert_eq!(texts(&fold_pre_param(&vec![id("x"), uscore(), uscore()], &pre)), vec!["x", "I2C0", "_"]);
    let set = McParamValue::List(vec![uscore(), id("VDD")]);
    let folded = fold_pre_param(&vec![set], &pre);
    assert_eq!(folded.len(), 1);
    assert!(matches!(&folded[0], McParamValue::List(vs) if texts(vs) == vec!["I2C0", "VDD"]));
    assert_eq!(texts(&fold_pre_param(&vec![id("a"), id("b")], &pre)), vec!["I2C0", "a", "b"]);
    assert_eq!(texts(&fold_pre_param(&vec![], &pre)), vec!["I2C0"]);
}
