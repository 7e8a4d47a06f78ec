use lib::equivalent::{are_equivalent, canonical_single, member_set, member_set_from_str};
use lib::mc_ids::{parse_display, IdsSegment, McIds};


#[test]
fn sem_equiv__member_set_single_index_vector() {
    assert_eq!(
        member_set(&McIds::from("c[1:2]")),
        Some(vec!["c1".into(), "c2".into()])
    );
}

#[test]
fn sem_equiv__member_set_single_member_is_set_of_one() {
    assert_eq!(
        member_set(&McIds::from("res[4]")),
        Some(vec!["res4".into()])
    );
}

#[test]
fn sem_equiv__member_set_embedded_member_slice() {
    assert_eq!(
        member_set(&McIds::from("XTAL.X[1:2]")),
        Some(vec!["XTAL.X1".into(), "XTAL.X2".into()])
    );
}

#[test]
fn sem_equiv__member_set_matrix_row_major() {
    assert_eq!(
        member_set(&McIds::from("S[1:2][L,R]")),
        Some(vec!["S1L".into(), "S1R".into(), "S2L".into(), "S2R".into()])
    );
}

#[test]
fn sem_equiv__member_set_plain_name_is_singleton() {
    assert_eq!(member_set(&McIds::from("gnd")), Some(vec!["gnd".into()]));
}

#[test]
fn sem_equiv__member_set_from_str_curly_pipe() {
    assert_eq!(
        member_set_from_str("Q1{S|D}"),
        Some(vec!["Q1.S".into(), "Q1.D".into()])
    );
}

#[test]
fn sem_equiv__member_set_from_str_curly_mixed_separators() {
    assert_eq!(
        member_set_from_str("X{SPI,MIC|DAC_OUT}"),
        Some(vec!["X.SPI".into(), "X.MIC".into(), "X.DAC_OUT".into()])
    );
}

#[test]
fn sem_equiv__member_set_from_str_escaped_member() {
    assert_eq!(
        member_set_from_str("usbsock.USB.D\\+"),
        Some(vec!["usbsock.USB.D+".into()])
    );
}

#[test]
fn sem_equiv__member_set_from_str_curly_slice_expands_range() {
    assert_eq!(
        member_set_from_str("IO0{0:7}"),
        Some(vec![
            "IO0.0".into(),
            "IO0.1".into(),
            "IO0.2".into(),
            "IO0.3".into(),
            "IO0.4".into(),
            "IO0.5".into(),
            "IO0.6".into(),
            "IO0.7".into(),
        ])
    );
}

#[test]
fn sem_equiv__member_set_from_str_curly_slice_descending() {
    assert_eq!(
        member_set_from_str("X{4:1}"),
        Some(vec!["X.4".into(), "X.3".into(), "X.2".into(), "X.1".into(),])
    );
}

#[test]
fn sem_equiv__member_set_from_str_curly_slice_mixed_with_enum() {
    assert_eq!(
        member_set_from_str("P{1,3:5}"),
        Some(vec!["P.1".into(), "P.3".into(), "P.4".into(), "P.5".into(),])
    );
}

#[test]
fn sem_equiv__parse_display_curly_is_structural() {
    let ids = parse_display("Q1{S|D}");
    assert_eq!(ids.segments.len(), 2);
    assert!(matches!(
        &ids.segments[0],
        IdsSegment::Ida(_)
    ));
    match &ids.segments[1] {
        IdsSegment::Curly(members) => {
            assert_eq!(members.len(), 2);
        }
        other => panic!("expected a Curly member group, got {other:?}"),
    }
    assert_eq!(
        member_set_from_str("Q1{S|D}"),
        Some(vec!["Q1.S".into(), "Q1.D".into()])
    );
}

#[test]
fn sem_equiv__parse_display_curly_slice_is_slice_segment() {
    let ids = parse_display("IO0{0:7}");
    match &ids.segments[1] {
        IdsSegment::Curly(members) => {
            assert!(matches!(
                &members[0],
                IdsSegment::Slice { .. }
            ));
        }
        other => panic!("expected a Curly member group, got {other:?}"),
    }
    assert_eq!(
        member_set_from_str("IO0{0:7}"),
        Some(vec![
            "IO0.0".into(),
            "IO0.1".into(),
            "IO0.2".into(),
            "IO0.3".into(),
            "IO0.4".into(),
            "IO0.5".into(),
            "IO0.6".into(),
            "IO0.7".into(),
        ])
    );
}

#[test]
fn sem_equiv__parse_display_empty_curly_yields_no_members() {
    assert_eq!(member_set_from_str("dc{}"), None);
}

#[test]
fn sem_equiv__parse_display_escaped_brace_stays_literal() {
    assert_eq!(
        member_set_from_str("A\\{X}"),
        Some(vec!["A{X}".to_string()])
    );
}

#[test]
fn sem_equiv__canonical_single_bare_only() {
    assert_eq!(canonical_single(&McIds::from("gnd")), Some("gnd".into()));
    assert_eq!(canonical_single(&McIds::from("A.m")), None);
    assert_eq!(canonical_single(&McIds::from("c[1:2]")), None);
}

#[test]
fn sem_equiv__are_equivalent_compares_member_sets() {
    assert!(are_equivalent(&McIds::from("c[1:2]"), &McIds::from("c1,c2")) == false);
    assert!(are_equivalent(&McIds::from("res[4]"), &McIds::from("res4")));
}
