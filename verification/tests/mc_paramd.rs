use lib::mc_conds::{guess_family, CondFamily, CondParam};
use lib::mc_ids::McIds;
use lib::mc_param_type::{McParamType, McParamTypeKind};
use lib::mc_paramd::{McParamDeclare, McParamDeclareKind, McParamDeclares};

fn single(name: &str, kind: McParamTypeKind, default_val: Option<&str>) -> McParamDeclare {
    McParamDeclare {
        kind: McParamDeclareKind::Single(McIds::from(name)),
        default_quoted: false,
        param_type: McParamType {
            kind,
            direction: None,
        },
        default_val: default_val.map(|s| s.to_string()),
    }
}

#[test]
fn sem_paramd__def_spans_persist_after_port_filter() {
    let mut params = McParamDeclares::new();
    params.store_def_span("rs", 0..2);
    params.store_def_span("dc24v", 10..15);

    assert!(params.get_def_span("rs").is_some());
    assert!(params.contains("rs"));

    params.declares.push(McParamDeclare {
        kind: McParamDeclareKind::Single(McIds::from("rs")),
        default_quoted: false,
        param_type: McParamType {
            kind: McParamTypeKind::BareNumeric,
            direction: None,
        },
        default_val: None,
    });
    params.declares.push(McParamDeclare {
        kind: McParamDeclareKind::Single(McIds::from("dc24v")),
        default_quoted: false,
        param_type: McParamType {
            kind: McParamTypeKind::Label,
            direction: None,
        },
        default_val: None,
    });

    params.filter_port_spans();

    assert!(
        params.get_def_span("rs").is_some(),
        "rs should remain in def_spans"
    );
    assert!(params.get_def_span("dc24v").is_some());
    assert!(
        !params.port_spans.iter().any(|l| l.name == "rs"),
        "rs removed from port_spans"
    );
    assert!(params.port_spans.iter().any(|l| l.name == "dc24v"));
    assert!(params.is_defined("rs"));
    assert!(!params.contains("rs"));
}

#[test]
fn sem_paramd__record_net_ref_uses_def_spans() {
    let mut params = McParamDeclares::new();
    params.store_def_span("rs", 0..2);
    params.declares.push(McParamDeclare {
        kind: McParamDeclareKind::Single(McIds::from("rs")),
        param_type: McParamType {
            kind: McParamTypeKind::BareNumeric,
            direction: None,
        },
        default_val: None,
        default_quoted: false,
    });
    params.filter_port_spans();

    params.record_net_ref(50..52, "rs", "test");
    assert_eq!(params.net_ref_spans.len(), 1);
    assert_eq!(params.net_ref_spans[0].1, "rs");
}

#[test]
fn paramd_def_span_is_the_first_recorded() {
    let mut params = McParamDeclares::new();
    params.store_def_span("a", 7..9);
    params.store_def_span("a", 1..3);
    assert_eq!(params.get_def_span("a"), Some(7..9));
    assert_eq!(params.get_def_span("b"), None);
}

#[test]
fn paramd_defs_with_span_come_in_source_order() {
    let mut params = McParamDeclares::new();
    params.store_def_span("z", 20..21);
    params.store_def_span("a", 5..6);
    params.store_def_span("z", 1..2);
    let v = params.iter_defs_with_span();
    assert_eq!(
        v,
        vec![
            ("z".to_string(), 1..2),
            ("a".to_string(), 5..6),
            ("z".to_string(), 20..21)
        ]
    );
}

#[test]
fn paramd_defaults_skip_params_without_one() {
    let mut params = McParamDeclares::new();
    params
        .declares
        .push(single("cap", McParamTypeKind::BareNumeric, Some("10")));
    params
        .declares
        .push(single("volt", McParamTypeKind::BareNumeric, None));
    params.declares.push(McParamDeclare {
        kind: McParamDeclareKind::Multiple(vec![McIds::from("VDD"), McIds::from("GND")]),
        default_quoted: false,
        param_type: McParamType {
            kind: McParamTypeKind::Label,
            direction: None,
        },
        default_val: Some("x".to_string()),
    });
    let d = params.get_params_with_defaults();
    assert_eq!(d.len(), 1);
    assert_eq!(d[0].0.to_string(), "cap");
    assert_eq!(d[0].1, "10");
}

#[test]
fn paramd_names_full_annotated_shows_the_interface() {
    let mut params = McParamDeclares::new();
    params.declares.push(single(
        "V3V3",
        McParamTypeKind::Interface {
            class_name: "DC".to_string(),
            params: vec!["3.3V".to_string()],
        },
        None,
    ));
    params.declares.push(McParamDeclare {
        kind: McParamDeclareKind::Multiple(vec![McIds::from("VDD"), McIds::from("GND")]),
        default_quoted: false,
        param_type: McParamType {
            kind: McParamTypeKind::Interface {
                class_name: "DC".to_string(),
                params: vec![],
            },
            direction: None,
        },
        default_val: None,
    });
    params
        .declares
        .push(single("rs", McParamTypeKind::BareNumeric, None));
    assert_eq!(
        params.names_full_annotated(),
        vec![
            "V3V3::DC(3.3V)".to_string(),
            "[VDD, GND]::DC".to_string(),
            "rs".to_string()
        ]
    );
    assert_eq!(
        params.names_full(),
        vec!["V3V3".to_string(), "[VDD, GND]".to_string(), "rs".to_string()]
    );
    assert_eq!(params.names(), vec!["V3V3".to_string(), "rs".to_string()]);
}

#[test]
fn paramd_port_name_and_members_for_a_vector_port() {
    let d = McParamDeclare {
        kind: McParamDeclareKind::Multiple(vec![McIds::from("VDD_3V3"), McIds::from("GND")]),
        default_quoted: false,
        param_type: McParamType {
            kind: McParamTypeKind::Interface {
                class_name: "DC".to_string(),
                params: vec!["3.3V".to_string()],
            },
            direction: None,
        },
        default_val: None,
    };
    assert_eq!(
        d.to_port_name_and_members(),
        Some((
            "[VDD_3V3, GND]".to_string(),
            vec!["VDD_3V3".to_string(), "GND".to_string()]
        ))
    );
    let n = single("rs", McParamTypeKind::BareNumeric, None);
    assert_eq!(n.to_port_name_and_members(), None);
}

#[test]
fn paramd_cond_defaults_carry_their_family() {
    let mut params = McParamDeclares::new();
    params.declares.push(single("mode", McParamTypeKind::Label, Some("FAST")));
    params.declares.push(single("n", McParamTypeKind::BareNumeric, Some("42")));
    params.declares.push(single("vin", McParamTypeKind::BareNumeric, Some("5V")));
    params.declares.push(single("bus", McParamTypeKind::Label, None));
    let mut quoted = single("tag", McParamTypeKind::Label, Some("FAST"));
    quoted.default_quoted = true;
    params.declares.push(quoted);
    let units = vec![false, false, true, false, false];
    let c = params.get_cond_params_with_defaults(&units);
    assert_eq!(c.len(), 4);
    assert_eq!(c[0].name.to_string(), "mode");
    assert_eq!(c[0].text, "FAST");
    assert_eq!(c[0].family, CondFamily::Bare);
    assert_eq!(c[1].family, CondFamily::Numeric);
    assert_eq!(c[2].name.to_string(), "vin");
    assert_eq!(c[2].family, CondFamily::Numeric);
    assert_eq!(c[3].name.to_string(), "tag");
    assert_eq!(c[3].family, CondFamily::Quoted);
    assert!(params.declares[3].get_cond_default(false).is_none());
}

#[test]
fn paramd_guessed_families() {
    assert_eq!(guess_family("\"x\"", false), CondFamily::Quoted);
    assert_eq!(guess_family("'x'", true), CondFamily::Quoted);
    assert_eq!(guess_family("-17", false), CondFamily::Numeric);
    assert_eq!(guess_family("3.3V", true), CondFamily::Numeric);
    assert_eq!(guess_family("3.3V", false), CondFamily::Bare);
    assert_eq!(guess_family("HIGH", false), CondFamily::Bare);
    let p = CondParam::guessed(McIds::from("sel"), "7".to_string(), false);
    assert_eq!(p.family, CondFamily::Numeric);
    assert_eq!(p.text, "7");
}
