use lib::rules::{
    assembly_gate_blocking_tags, assembly_gate_rules, declaration_rules, doc_lock_placeholders,
    find_rule, flat_erc_rules, gate_for, gate_rule_by_tag, gate_severity, lock_ledger,
    post_parse_rules, query_rules, rule_count, rules_in_scope, Acceptance, Cadence, CheckSeverity,
    FixKind, RuleDomain, RuleFilter, RuleMeta, RulePlane, RuleScope, RuleSink,
};

use lib::errcodes::{
    ABSTRACT_PART_UNSELECTED, NET_BACKFEED_RISK, NET_BIDIR_UNCONNECTED, NET_DANGLING_ENDPOINT,
    NET_INPUT_UNCONNECTED, NET_INSTANCE_UNCONNECTED, NET_MODULE_PORT_UNCONNECTED,
    NET_MULTI_DRIVE, NET_NC_CONNECTED, NET_NO_DRIVER, NET_OUTPUTS_NO_INPUT,
    NET_OUTPUT_UNDRIVEN, NET_PARTIAL_CONNECTION, NET_POWER_NET_COUNT, NET_VOLTAGE_MISMATCH,
    PIN_CONFLICTING_OPTIONS, PIN_UNCONNECTED, PULLUP_DEGENERATE,
};

const FLAT_ERC_ORDER: [u32; 16] = [
    NET_MULTI_DRIVE,
    NET_NO_DRIVER,
    NET_INPUT_UNCONNECTED,
    NET_NC_CONNECTED,
    NET_OUTPUT_UNDRIVEN,
    NET_BACKFEED_RISK,
    NET_INSTANCE_UNCONNECTED,
    NET_VOLTAGE_MISMATCH,
    NET_OUTPUTS_NO_INPUT,
    NET_POWER_NET_COUNT,
    NET_MODULE_PORT_UNCONNECTED,
    NET_DANGLING_ENDPOINT,
    NET_PARTIAL_CONNECTION,
    ABSTRACT_PART_UNSELECTED,
    NET_BIDIR_UNCONNECTED,
    PULLUP_DEGENERATE,
];

const GATE_ORDER: [&str; 15] = [
    "R01", "R02", "R03", "R03a", "R04", "R05", "R06", "R07", "R08", "R09", "R10", "R11", "R12",
    "R14", "R15",
];

const DECL_ORDER: [u32; 2] = [PIN_UNCONNECTED, PIN_CONFLICTING_OPTIONS];

const POSTPARSE_ORDER: [u32; 93] = [
    lib::errcodes::DUP_CMIE_CROSS_FILE,
    lib::errcodes::DUP_WITHIN,
    lib::errcodes::DUP_ENUM_VALUE,
    lib::errcodes::ENUM_DUPLICATE_VALUE,
    lib::errcodes::ENUM_MEMBER_DOT,
    lib::errcodes::ENUM_MEMBER_LEADING_DIGIT,
    lib::errcodes::ENUM_MEMBER_RESERVED,
    lib::errcodes::ATTR_SELF_REFERENTIAL,
    lib::errcodes::RANGE_REVERSED,
    lib::errcodes::ATTR_RESERVED_KEYWORD,
    lib::errcodes::ROLE_EMPTY_BODY,
    lib::errcodes::ATTR_NESTING_TOO_DEEP,
    lib::errcodes::ATTR_PIN_GROUP_UNDEFINED,
    lib::errcodes::PINS_PLUS_AND_PINS_CONFLICT,
    lib::errcodes::COND_EMPTY_BODY,
    lib::errcodes::COND_IF_WITHOUT_ELSE,
    lib::errcodes::COND_DUPLICATE,
    lib::errcodes::PIN_NC_COMPONENT_LEVEL,
    lib::errcodes::PIN_IO_MIX_IN_OUT,
    lib::errcodes::PIN_IO_MIX_OUTPUT_POWER,
    lib::errcodes::PIN_IO_MIX_ANALOG_POWER,
    lib::errcodes::PARAM_PIN_NAME_SHADOW,
    lib::errcodes::MODULE_STUB,
    lib::errcodes::DEF_AMBIGUOUS_NAME,
    lib::errcodes::DEF_REF_NOT_LOADED,
    lib::errcodes::COMPONENT_INT_SUFFIX,
    lib::errcodes::ENUM_INT_SUFFIX,
    lib::errcodes::USE_SELF_IMPORT,
    lib::errcodes::USE_ALIAS_COLLISION,
    lib::errcodes::USE_VERSIONED_TARGET_NOT_FOUND,
    lib::errcodes::USE_IMPORT_SYMBOL_NOT_FOUND,
    lib::errcodes::USE_REEXPORT_SYMBOL_NOT_FOUND,
    lib::errcodes::IFACE_PINS_NOT_ALL_BOUND,
    lib::errcodes::IFACE_ROLE_NOT_FOUND,
    lib::errcodes::IFACE_NOT_LOADED,
    lib::errcodes::IFACE_DEPRECATED_CMIE,
    lib::errcodes::NAME_COMPONENT_LOWERCASE,
    lib::errcodes::NAME_PIN_MIXED_CONVENTION,
    lib::errcodes::NAME_INSTANCE_SINGLE_CHAR,
    lib::errcodes::NAME_PORT_INST_SHADOWS_CMIE,
    lib::errcodes::NAME_PARAM_SHADOWS_CMIE,
    lib::errcodes::PORT_DUPLICATE_NAME,
    lib::errcodes::NAME_PARAM_AND_INSTANCE,
    lib::errcodes::INST_DECLARED_MULTIPLE,
    lib::errcodes::FUNC_PARAMS_NO_BODY,
    lib::errcodes::REF_INTEGRITY,
    lib::errcodes::SPEC_KEY_UNDECLARED_PARAM,
    lib::errcodes::EXPR_THIS_TOP_LEVEL,
    lib::errcodes::EXPR_PLACEHOLDER_ONLY,
    lib::errcodes::ATTR_LARGE_INT,
    lib::errcodes::ATTR_INFINITE_FLOAT,
    lib::errcodes::RANGE_SINGLE_ELEMENT,
    lib::errcodes::IDX_MULTIPLE_SLICE_SPEC,
    lib::errcodes::NAME_PORT_SHADOWS_CMIE,
    lib::errcodes::ENUM_SINGLE_VALUE,
    lib::errcodes::FUNC_EMPTY_BODY,
    lib::errcodes::IFACE_PIN_COUNT_MISMATCH,
    lib::errcodes::COMPONENT_EMPTY,
    lib::errcodes::COMPONENT_NO_PINS,
    lib::errcodes::INTERFACE_EMPTY,
    lib::errcodes::PARAM_INT_DEFAULT_STRING,
    lib::errcodes::PARAM_STRING_DEFAULT_NUMERIC,
    lib::errcodes::PARAM_UV_DEFAULT_NO_UNIT,
    lib::errcodes::DEFINE_NO_ATTRS,
    lib::errcodes::DEFINE_NON_ATTR_CLAUSE,
    lib::errcodes::INST_CLASS_NOT_LOADED,
    lib::errcodes::BUS_DUPLICATE_MEMBER,
    lib::errcodes::COMPONENT_MIXED_CASE,
    lib::errcodes::PARAM_RESERVED_KEYWORD,
    lib::errcodes::FUNC_SHARES_NAME_WITH_PORT,
    lib::errcodes::PARAM_NEGATIVE_DEFAULT,
    lib::errcodes::PARAM_FLOAT_DEFAULT_INVALID,
    lib::errcodes::SPEC_KEY_DUPLICATE,
    lib::errcodes::FUNC_FLOATING_LABEL,
    lib::errcodes::SINGLE_USE_INLINE_NET,
    lib::errcodes::INST_ARG_COUNT_MISMATCH,
    lib::errcodes::ROLE_NAME_SHADOWS,
    lib::errcodes::USE_MIXED_PATH_SEPARATORS,
    lib::errcodes::INST_THIS_TYPE,
    lib::errcodes::COND_SINGLE_BINARY,
    lib::errcodes::MODULE_PORT_UNUSED,
    lib::errcodes::POWER_PIN_NO_VOLTAGE,
    lib::errcodes::HW_PIN_NUMBER_GAP,
    lib::errcodes::HW_PIN_COUNT_HIGH,
    lib::errcodes::HW_ZERO_PINS_WITH_PARAMS,
    lib::errcodes::HW_IFACE_ROLE_UNBOUND,
    lib::errcodes::HW_ALL_SAME_IO_TYPE,
    lib::errcodes::HW_FUNC_PARAM_SHADOWS_PIN,
    lib::errcodes::TYPE_INCOMPATIBLE,
    lib::errcodes::VARIANT_BASE_NON_ABSTRACT,
    lib::errcodes::ADOPTS_NON_CAPABILITY,
    lib::errcodes::ADOPTED_FUNC_AMBIGUOUS,
    lib::errcodes::CAPABILITY_SIGNAL_MISSING,
];

#[test]
fn flat_erc_first_rule_is_e4101_pilot() {
    let r = &flat_erc_rules()[0].meta;
    assert_eq!(r.code, NET_MULTI_DRIVE);
    assert_eq!(r.name, "driver-conflict");
    assert_eq!(r.severity, CheckSeverity::Error);
    assert_eq!(r.scope, RuleScope::FlatErc);
    assert_eq!(r.domain, RuleDomain::Connectivity);
    assert_eq!(r.family, Some("A"));
    assert!(!r.overridable);
}

#[test]
fn declaration_order_is_execution_order() {
    let codes: Vec<u32> = flat_erc_rules().iter().map(|r| r.meta.code).collect();
    assert_eq!(codes, FLAT_ERC_ORDER);
}

#[test]
fn catalog_queries_work() {
    assert_eq!(
        rule_count(),
        FLAT_ERC_ORDER.len() + DECL_ORDER.len() + GATE_ORDER.len() + POSTPARSE_ORDER.len()
    );
    assert_eq!(flat_erc_rules().len(), FLAT_ERC_ORDER.len());
    assert_eq!(declaration_rules().len(), DECL_ORDER.len());
    assert_eq!(assembly_gate_rules().len(), GATE_ORDER.len());
    assert_eq!(post_parse_rules().len(), POSTPARSE_ORDER.len());
    assert!(find_rule(NET_MULTI_DRIVE).is_some());
    assert!(find_rule(NET_VOLTAGE_MISMATCH).is_some());
    assert!(find_rule(PIN_UNCONNECTED).is_some());
    assert!(find_rule(0xFFFF).is_none());
    assert_eq!(
        rules_in_scope(RuleScope::FlatErc).len(),
        FLAT_ERC_ORDER.len()
    );
    assert_eq!(
        rules_in_scope(RuleScope::Declaration).len(),
        DECL_ORDER.len()
    );
    assert_eq!(
        rules_in_scope(RuleScope::AssemblyGate).len(),
        GATE_ORDER.len()
    );
    assert_eq!(
        rules_in_scope(RuleScope::PostParse).len(),
        POSTPARSE_ORDER.len()
    );
    let r = find_rule(NET_MULTI_DRIVE).expect("E4101 pilot is registered");
    assert_eq!(r.scope, RuleScope::FlatErc);
    assert_eq!(r.sink, RuleSink::Envelope);
    assert_eq!(r.plane, RulePlane::CoreMechanism);
    assert_eq!(r.acceptance, Acceptance::Legal);
    assert_eq!(r.cadence, Cadence::PerCircuit);
    let p = find_rule(lib::errcodes::TYPE_INCOMPATIBLE).expect("PostParse code registered");
    assert_eq!(p.scope, RuleScope::PostParse);
    assert_eq!(p.sink, RuleSink::Envelope);
}

#[test]
fn declaration_rules_reproduce_the_pin_check_sequence() {
    let codes: Vec<u32> = declaration_rules().iter().map(|r| r.meta.code).collect();
    assert_eq!(codes, DECL_ORDER);
    let names: Vec<&str> = declaration_rules().iter().map(|r| r.meta.name).collect();
    assert_eq!(names, ["unused-pin", "conflicting-pin-options"]);
    for r in declaration_rules().iter() {
        assert_eq!(r.meta.scope, RuleScope::Declaration);
        assert_eq!(r.meta.domain, RuleDomain::PinDecl);
        assert_eq!(r.meta.plane, RulePlane::CoreMechanism);
        assert_eq!(r.meta.acceptance, Acceptance::Legal);
        assert_eq!(r.meta.sink, RuleSink::Envelope);
        assert_eq!(r.meta.cadence, Cadence::PerCircuit);
        assert_eq!(r.meta.gate, gate_for(r.meta.severity));
        assert!(!r.meta.overridable);
    }
    assert_eq!(declaration_rules()[0].meta.severity, CheckSeverity::Warning);
    assert_eq!(declaration_rules()[1].meta.severity, CheckSeverity::Warning);
    assert_eq!(declaration_rules()[0].owner, "check_unused_pins");
    assert_eq!(declaration_rules()[1].owner, "check_conflicting_pins");
}

#[test]
fn flat_erc_governance_defaults_match_severity() {
    for r in flat_erc_rules().iter() {
        assert_eq!(r.meta.plane, RulePlane::CoreMechanism);
        assert_eq!(r.meta.acceptance, Acceptance::Legal);
        assert_eq!(r.meta.sink, RuleSink::Envelope);
        assert_eq!(r.meta.cadence, Cadence::PerCircuit);
        assert_eq!(r.meta.gate, gate_for(r.meta.severity));
    }
}

#[test]
fn gate_rules_reproduce_the_report_row_set() {
    let tags: Vec<&str> = assembly_gate_rules().iter().map(|g| g.meta.name).collect();
    assert_eq!(tags, GATE_ORDER);
    for g in assembly_gate_rules().iter() {
        assert_eq!(g.meta.scope, RuleScope::AssemblyGate);
        assert_eq!(g.meta.sink, RuleSink::GateReport);
        assert_eq!(g.meta.plane, RulePlane::CoreMechanism);
        assert_eq!(g.meta.acceptance, Acceptance::Legal);
        assert!(!g.meta.overridable);
        assert_eq!(g.meta.gate, gate_for(g.meta.severity));
    }
}

#[test]
fn gate_report_levels_match_the_preregistry_levels() {
    let expect: Vec<(CheckSeverity, u32)> = vec![
        (CheckSeverity::Error, lib::errcodes::GATE_LITERAL_POINT),
        (CheckSeverity::Error, lib::errcodes::GATE_SHORT_PASSIVE),
        (CheckSeverity::Error, lib::errcodes::GATE_SHORT_RAIL),
        (CheckSeverity::Info, lib::errcodes::GATE_RAIL_ALIAS),
        (CheckSeverity::Error, lib::errcodes::GATE_SHORT_LANE),
        (CheckSeverity::Error, lib::errcodes::GATE_UNRESOLVED_UNIT),
        (CheckSeverity::Warning, lib::errcodes::GATE_MEGANET),
        (CheckSeverity::Error, lib::errcodes::GATE_GHOST_INSTANCE),
        (CheckSeverity::Error, lib::errcodes::GATE_PHANTOM_PATH),
        (
            CheckSeverity::Warning,
            lib::errcodes::GATE_FLOATING_POWER_PIN,
        ),
        (
            CheckSeverity::Error,
            lib::errcodes::GATE_SYMBOL_CONSERVATION,
        ),
        (CheckSeverity::Error, lib::errcodes::GATE_SPLIT_RAIL),
        (CheckSeverity::Info, lib::errcodes::GATE_DANGLING_PORT),
        (
            CheckSeverity::Warning,
            lib::errcodes::GATE_ORPHAN_INSTANCE,
        ),
        (CheckSeverity::Warning, lib::errcodes::GATE_SYNTHETIC_PIN),
    ];
    for (sev, code) in expect {
        let g = find_rule(code).expect("gate code registered");
        assert_eq!(g.severity, sev, "severity for code {code}");
    }
}

#[test]
fn assembly_gate_blocking_set_is_the_error_rows() {
    let blocking = assembly_gate_blocking_tags();
    assert_eq!(blocking.len(), 9);
    for tag in [
        "R01", "R02", "R03", "R04", "R05", "R07", "R08", "R10", "R11",
    ] {
        assert!(blocking.contains(&tag), "missing blocking tag {tag}");
    }
    for tag in ["R03a", "R06", "R09", "R12", "R14", "R15"] {
        assert!(!blocking.contains(&tag), "{tag} must stay advisory");
    }
}

#[test]
fn gate_tag_lookup_and_severity_query_work() {
    assert_eq!(
        gate_rule_by_tag("R02").map(|g| g.label),
        Some("R02 SHORT_PASSIVE")
    );
    assert_eq!(
        gate_rule_by_tag("R12").map(|g| g.label),
        Some("R12 DANGLING_PORT")
    );
    assert_eq!(gate_severity("R02"), Some(CheckSeverity::Error));
    assert_eq!(gate_severity("R14"), Some(CheckSeverity::Warning));
    assert_eq!(gate_severity("R99"), None);
    assert!(gate_rule_by_tag("R99").is_none());
}

#[test]
fn codes_and_names_unique_across_every_scope() {
    let flat = flat_erc_rules();
    let decl = declaration_rules();
    let gate = assembly_gate_rules();
    let post = post_parse_rules();
    let all_meta: Vec<&RuleMeta> = flat
        .iter()
        .map(|r| &r.meta)
        .chain(decl.iter().map(|r| &r.meta))
        .chain(gate.iter().map(|g| &g.meta))
        .chain(post.iter().map(|p| &p.meta))
        .collect();
    let mut codes: Vec<u32> = all_meta.iter().map(|r| r.code).collect();
    codes.sort_unstable();
    assert!(codes.windows(2).all(|w| w[0] != w[1]));
    let mut names: Vec<&str> = all_meta.iter().map(|r| r.name).collect();
    names.sort_unstable();
    assert!(names.windows(2).all(|w| w[0] != w[1]));
}

#[test]
fn post_parse_rules_reproduce_the_registration_order() {
    let codes: Vec<u32> = post_parse_rules().iter().map(|r| r.meta.code).collect();
    assert_eq!(codes, POSTPARSE_ORDER);
    let first_host = post_parse_rules()[0].host;
    assert_eq!(first_host, "duplicate");
    let last_host = post_parse_rules()[POSTPARSE_ORDER.len() - 1].host;
    assert_eq!(last_host, "adopt");
}

#[test]
fn post_parse_governance_defaults_match_the_semantic_layer() {
    for p in post_parse_rules().iter() {
        assert_eq!(p.meta.scope, RuleScope::PostParse);
        assert_eq!(p.meta.plane, RulePlane::CoreMechanism);
        assert_eq!(p.meta.acceptance, Acceptance::Legal);
        assert_eq!(p.meta.sink, RuleSink::Envelope);
        assert_eq!(p.meta.cadence, Cadence::PerCircuit);
        assert_eq!(p.meta.gate, gate_for(p.meta.severity));
        assert!(!p.meta.overridable);
        assert!(!p.host.is_empty(), "every PostParse row names its host");
    }
    let errors = post_parse_rules()
        .iter()
        .filter(|p| p.meta.severity == CheckSeverity::Error)
        .count();
    assert!(
        errors >= 10,
        "language-base errors stay blocking: got {errors}"
    );
}

#[test]
fn every_rule_names_its_owner_severity_and_family_consistently() {
    for r in flat_erc_rules().iter() {
        assert_eq!(r.meta.scope, RuleScope::FlatErc);
        assert!(!r.meta.overridable);
        assert!(r.meta.family.is_none() || r.meta.code == NET_MULTI_DRIVE);
    }
}

#[test]
fn lock_ledger_projects_every_numeric_code_exactly_once() {
    let entries = lock_ledger();
    assert!(entries.iter().all(|e| !e.codes.is_empty()));
    assert_eq!(
        entries.len(),
        entries
            .iter()
            .map(|e| &e.lock)
            .collect::<std::collections::HashSet<_>>()
            .len()
    );
    let total: usize = entries.iter().map(|e| e.codes.len()).sum();
    assert_eq!(total, rule_count());
    let mut codes: Vec<u32> = entries
        .iter()
        .flat_map(|e| e.codes.iter().copied())
        .collect();
    codes.sort_unstable();
    codes.dedup();
    assert_eq!(codes.len(), rule_count());
    assert!(entries.windows(2).all(|w| w[0].lock < w[1].lock));
}

#[test]
fn lock_ledger_anchors_are_strong_or_documented_and_pinned() {
    let mut strong = 0usize;
    let doc = 0usize;
    let mut note = 0usize;
    for e in lock_ledger() {
        if e.lock.starts_with("tests/") {
            strong += e.codes.len();
        } else if e.lock == doc_lock_placeholders()[0] {
            note += e.codes.len();
        } else {
            panic!(
                "anchor '{}' is neither a tests/ file nor a documented placeholder",
                e.lock
            );
        }
    }
    assert_eq!((strong, doc, note), (123, 0, 3));
    assert_eq!(strong + doc + note, rule_count());
}

#[test]
fn query_rules_filters_axes_and_preserves_table_order() {
    let all = query_rules(&RuleFilter::default());
    assert_eq!(all.len(), rule_count());
    let order = [
        flat_erc_rules().len(),
        declaration_rules().len(),
        assembly_gate_rules().len(),
        post_parse_rules().len(),
    ];
    let boundary_checks = [
        0usize,
        order[0],
        order[0] + order[1],
        order[0] + order[1] + order[2],
    ];
    for (i, &b) in boundary_checks.iter().enumerate() {
        let expected_scope = match i {
            0 => RuleScope::FlatErc,
            1 => RuleScope::Declaration,
            2 => RuleScope::AssemblyGate,
            _ => RuleScope::PostParse,
        };
        assert_eq!(all[b].scope, expected_scope, "table boundary at {b}");
    }

    for (scope, len) in [
        (RuleScope::FlatErc, order[0]),
        (RuleScope::Declaration, order[1]),
        (RuleScope::AssemblyGate, order[2]),
        (RuleScope::PostParse, order[3]),
    ] {
        let f = RuleFilter {
            scope: Some(scope),
            ..Default::default()
        };
        assert_eq!(query_rules(&f).len(), len, "{scope:?}");
    }

    let ov = query_rules(&RuleFilter {
        overridable: Some(true),
        ..Default::default()
    });
    assert!(ov.is_empty());
    let errs = query_rules(&RuleFilter {
        severity: Some(CheckSeverity::Error),
        ..Default::default()
    });
    assert!(!errs.is_empty());
    assert!(errs.iter().all(|m| m.severity == CheckSeverity::Error));

    let fixes = query_rules(&RuleFilter {
        fix: Some(FixKind::NoFix),
        ..Default::default()
    });
    assert_eq!(fixes.len(), rule_count());
}
