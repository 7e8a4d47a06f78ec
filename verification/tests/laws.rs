use lib::equivalent::{are_equivalent, canonical_single, member_set, member_set_from_str};
use lib::mc_ida::McIda;
use lib::mc_ids::{curly_base_members, expand_char_slice, expand_numeric_slice, IdsSegment, McIds};
use lib::mc_opd::McOpd;
use lib::mc_param::{attr_key_matches, ParamBindError};
use lib::attr_keys::{arity_of, AttrKeyArity};
use lib::rules::{
    find_rule, lock_ledger, query_rules, rule_count, rules_in_scope, str_less, Cadence,
    FixKind, GateKind, RuleDomain, RuleFilter, RuleScope,
};
use lib::text::{char_of_code, is_white, lower_char_exec, nat_string, trim_str, utf8_len_exec};

fn strings(v: &[&str]) -> Vec<String> {
    v.iter().map(|s| s.to_string()).collect()
}

#[test]
fn dot_member_is_the_same_member_set_as_curly() {
    assert_eq!(member_set_from_str("A.m"), Some(strings(&["A.m"])));
    assert_eq!(member_set_from_str("A{m}"), Some(strings(&["A.m"])));
    assert_eq!(member_set_from_str("A.1"), member_set_from_str("A{1}"));
}

#[test]
fn index_and_concatenation_spell_the_same_member() {
    assert!(are_equivalent(&McIds::from("res[4]"), &McIds::from("res4")));
    assert!(are_equivalent(&McIds::from("c[1:2]"), &McIds::from("c[1:2]")));
    assert!(!are_equivalent(&McIds::from("c[1:2]"), &McIds::from("c[2:1]")));
}

#[test]
fn canonical_single_is_the_one_bare_member() {
    assert_eq!(canonical_single(&McIds::from("gnd")), Some("gnd".to_string()));
    assert_eq!(member_set(&McIds::from("gnd")), Some(strings(&["gnd"])));
    assert_eq!(canonical_single(&McIds::from("c[1:2]")), None);
}

#[test]
fn curly_escape_and_spaces_in_member_sets() {
    assert_eq!(member_set_from_str("X{ A , B }"), Some(strings(&["X.A", "X.B"])));
    assert_eq!(member_set_from_str("dc{}"), None);
}

#[test]
fn slices_keep_declaration_order() {
    assert_eq!(expand_numeric_slice(1, 4), vec![1, 2, 3, 4]);
    assert_eq!(expand_numeric_slice(4, 1), vec![4, 3, 2, 1]);
    assert_eq!(expand_numeric_slice(-1, 1), vec![-1, 0, 1]);
    assert_eq!(expand_numeric_slice(7, 7), vec![7]);
    assert_eq!(expand_char_slice('a', 'c'), vec!['a', 'b', 'c']);
    assert_eq!(expand_char_slice('C', 'A'), vec!['C', 'B', 'A']);
}

#[test]
fn curly_base_members_splits_the_trailing_group() {
    assert_eq!(
        curly_base_members("vin{POWER_SYS, GND}"),
        Some(("vin".to_string(), strings(&["POWER_SYS", "GND"])))
    );
    assert_eq!(
        curly_base_members("IO{0:2}"),
        Some(("IO".to_string(), strings(&["0", "1", "2"])))
    );
    assert_eq!(curly_base_members("vin"), None);
    assert_eq!(curly_base_members("vin{}"), None);
}

#[test]
fn letter_ranges_expand_in_square_brackets() {
    assert_eq!(McIda::from("A[a:c]").expand(), strings(&["Aa", "Ab", "Ac"]));
    assert_eq!(McIda::from("R[1:3]").expand(), strings(&["R1", "R2", "R3"]));
}

#[test]
fn ids_expand_and_count() {
    let ids = McIds::from("S[1:2][L,R]");
    assert_eq!(ids.expand(), strings(&["S1L", "S1R", "S2L", "S2R"]));
    assert_eq!(ids.count(), 4);
    assert_eq!(McIds::from("gnd").to_string(), "gnd");
}

#[test]
fn opd_from_text_expands_like_ids() {
    let o = McOpd::from("c[1:2]");
    assert_eq!(o.expand(), strings(&["c1", "c2"]));
    assert!(o.match_name("c2"));
    assert!(!o.match_name("c[1:2]"));
    assert_eq!(o.to_string(), "c[1:2]");
}

#[test]
fn rule_axis_names_round_trip() {
    for s in [
        RuleScope::PostParse,
        RuleScope::AssemblyGate,
        RuleScope::FlatErc,
        RuleScope::Declaration,
        RuleScope::VizLayout,
    ] {
        assert_eq!(RuleScope::from_name(s.as_str()), Some(s));
    }
    assert_eq!(RuleScope::from_name("  FLAT-ERC "), Some(RuleScope::FlatErc));
    assert_eq!(RuleScope::from_name("flaterc"), Some(RuleScope::FlatErc));
    assert_eq!(RuleScope::from_name("flat erc"), None);
    assert_eq!(GateKind::from_name(GateKind::Blocking.as_str()), Some(GateKind::Blocking));
    assert_eq!(Cadence::from_name(Cadence::Incremental.as_str()), Some(Cadence::Incremental));
    assert_eq!(FixKind::from_name(FixKind::NoFix.as_str()), Some(FixKind::NoFix));
    assert_eq!(RuleDomain::from_name("\tPin-Decl\n"), Some(RuleDomain::PinDecl));
}

#[test]
fn catalog_lookup_by_code() {
    let first = find_rule(4101).expect("pilot code");
    assert_eq!(first.code, 4101);
    assert!(find_rule(1).is_none());
    assert!(rule_count() > 0);
}

#[test]
fn lock_ledger_codes_are_ordered_and_disjoint() {
    let ledger = lock_ledger();
    let mut seen: Vec<u32> = Vec::new();
    for e in &ledger {
        for w in e.codes.windows(2) {
            assert!(w[0] < w[1]);
        }
        for c in &e.codes {
            assert!(!seen.contains(c));
            seen.push(*c);
        }
    }
    for w in ledger.windows(2) {
        assert!(str_less(w[0].lock, w[1].lock));
    }
}

#[test]
fn bind_error_messages() {
    assert_eq!(
        ParamBindError::TooManyArguments { expected: 2, got: 3 }.to_string(),
        "Too many arguments: expected 2, got 3"
    );
    assert_eq!(
        ParamBindError::MissingRequired {
            name: "cap".to_string()
        }
        .to_string(),
        "Missing required parameter: cap"
    );
    assert_eq!(
        ParamBindError::TypeMismatch {
            param_name: "diel".to_string(),
            expected: "CAP".to_string(),
            got: "ZZZ".to_string()
        }
        .to_string(),
        "Type mismatch for parameter 'diel': expected CAP, got ZZZ"
    );
    assert_eq!(
        ParamBindError::UnknownParameter {
            name: "nope".to_string()
        }
        .to_string(),
        "Unknown parameter: no formal parameter named 'nope'"
    );
}

#[test]
fn text_helpers_use_the_char_classes() {
    assert_eq!(trim_str(" \t ab c \n"), vec!['a', 'b', ' ', 'c']);
    assert_eq!(trim_str("\u{2003}x\u{2003}"), vec!['x']);
    assert_eq!(lower_char_exec('Q'), 'q');
    assert_eq!(lower_char_exec('q'), 'q');
    assert_eq!(lower_char_exec('7'), '7');
    assert_eq!(char_of_code(0x41), 'A');
    assert_eq!(nat_string(120), "120");
    assert_eq!(nat_string(0), "0");
    assert_eq!(utf8_len_exec("aé€😀"), 1 + 2 + 3 + 4);
}

#[test]
fn dotted_member_equals_its_curly_group() {
    use_segments();
}

fn use_segments() {
    let dotted = McIds {
        segments: vec![
            IdsSegment::Ida(Box::new(McIda::from("DC2"))),
            IdsSegment::DotIda(Box::new(McIda::from("VDD"))),
        ],
    };
    let curly = McIds {
        segments: vec![
            IdsSegment::Ida(Box::new(McIda::from("DC2"))),
            IdsSegment::Curly(vec![IdsSegment::Ida(Box::new(McIda::from("VDD")))]),
        ],
    };
    let other = McIds {
        segments: vec![
            IdsSegment::Ida(Box::new(McIda::from("DC2"))),
            IdsSegment::DotIda(Box::new(McIda::from("GND"))),
        ],
    };
    assert!(dotted == curly);
    assert!(curly == dotted);
    assert!(dotted != other);
    assert!(McIds::from("res4") == McIds::from("res4"));
    assert!(McIds::from("res4") != McIds::from("res5"));
    assert_eq!(dotted.normalized_eq_hash().len(), 2);
}

#[test]
fn descending_square_ranges_keep_declaration_order() {
    assert_eq!(McIda::from("c[3:1]").expand(), strings(&["c3", "c2", "c1"]));
    assert_eq!(McIda::from("A[c:a]").expand(), strings(&["Ac", "Ab", "Aa"]));
    assert_eq!(McIds::from("c[2:1]").expand(), strings(&["c2", "c1"]));
    assert_eq!(member_set(&McIds::from("c[3:1]")), Some(strings(&["c3", "c2", "c1"])));
}

#[test]
fn indexed_attribute_keys_answer_to_their_root() {
    assert!(attr_key_matches(&McIds::from("pins[6:9]"), "PINS"));
    assert!(attr_key_matches(&McIds::from("Cap"), "cap"));
    assert!(!attr_key_matches(&McIds::from("cap"), "volt"));
    assert!(!attr_key_matches(&McIds::from("pins[6:9]"), "pin"));
}

#[test]
fn scope_queries_answer_each_table() {
    assert_eq!(rules_in_scope(RuleScope::FlatErc).len(), 16);
    assert_eq!(rules_in_scope(RuleScope::Declaration).len(), 2);
    assert_eq!(rules_in_scope(RuleScope::AssemblyGate).len(), 15);
    assert_eq!(rules_in_scope(RuleScope::PostParse).len(), 93);
    assert_eq!(rules_in_scope(RuleScope::VizLayout).len(), 0);
    let open = query_rules(&RuleFilter::default());
    assert_eq!(open.len(), rule_count());
    assert_eq!(open.len(), 126);
    let mut f = RuleFilter::default();
    f.overridable = Some(true);
    assert!(query_rules(&f).is_empty());
    f.scope = Some(RuleScope::FlatErc);
    assert!(query_rules(&f).is_empty());
}

#[test]
fn axis_names_read_the_same_after_normalising() {
    for t in ["  Flat-ERC ", "decl", "viz", "\u{2003}POST-PARSE\u{3000}", "Assembly Gate", ""] {
        let n: String = t.trim().to_ascii_lowercase();
        assert_eq!(RuleScope::from_name(t), RuleScope::from_name(&n));
    }
    assert_eq!(RuleScope::from_name("  Flat-ERC "), Some(RuleScope::FlatErc));
    assert_eq!(RuleScope::from_name("decl"), Some(RuleScope::Declaration));
    assert_eq!(RuleScope::from_name("viz"), None);
    assert_eq!(RuleScope::from_name("\u{2003}POST-PARSE\u{3000}"), Some(RuleScope::PostParse));
    assert_eq!(RuleScope::from_name("\u{200B}post-parse"), None);
}

#[test]
fn every_attribute_key_is_single() {
    for k in ["capacitance", "spec.capacitance", "no_such_key", "", "PINS"] {
        assert_eq!(arity_of(k), AttrKeyArity::Single);
    }
}

#[test]
fn white_space_is_the_std_white_space() {
    for u in 0u32..0x3100 {
        if let Some(c) = char::from_u32(u) {
            assert_eq!(is_white(c), c.is_whitespace(), "code {u:#x}");
        }
    }
    for u in [0xFEFFu32, 0x1_0000, 0xE000, 0x10FFFF] {
        let c = char::from_u32(u).unwrap();
        assert_eq!(is_white(c), c.is_whitespace());
    }
}
