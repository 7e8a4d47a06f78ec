use lib::mc_bus::{IoSide, McBus, McList, McNode};


#[test]
fn synthetic_io_declares_its_side() {
    let left = McBus::synthetic_io("uC", IoSide::In);
    assert!(left.is_synthetic());
    assert_eq!(left.synthetic_side(), Some(IoSide::In));
    assert_eq!(left.name(), "uC.in");

    let right = McBus::synthetic_io("uC", IoSide::Out);
    assert_eq!(right.synthetic_side(), Some(IoSide::Out));
    assert_eq!(right.name(), "uC.out");
}

#[test]
fn provenance_is_not_identity() {
    let sentinel = McBus::synthetic_io("uC", IoSide::In);
    let plain = McBus::new("uC.in");
    assert_eq!(sentinel, plain);
    assert!(!plain.is_synthetic());
}

#[test]
fn provenance_survives_the_hand_offs() {
    let sentinel = McBus::synthetic_io("uC", IoSide::Out);
    for carrier in [
        Vec::from(&sentinel),
        Vec::from(sentinel.clone()),
        vec![sentinel.clone()],
    ] {
        assert!(
            carrier
                .iter()
                .all(|b| b.synthetic_side() == Some(IoSide::Out)),
            "provenance lost in hand-off: {carrier:?}"
        );
    }
}

#[test]
fn bus_list_and_node_texts() {
    let b = McBus::new_with_members("uC", vec!["SDA".to_string(), "SCL".to_string()]);
    assert_eq!(b.to_string(), "uC{SDA,SCL}");
    assert_eq!(b.debug_text(), "uC{SDA, SCL}");
    let plain = McBus::new("VDD");
    assert_eq!(plain.debug_text(), "VDD");
    let l = McList::new_with_members("pair", vec!["A".to_string(), "B".to_string()]);
    assert_eq!(l.debug_text(), "pair[A, B]");
    let n = McNode::new(plain, b);
    assert_eq!(n.debug_text(), "VDD ~ uC{SDA, SCL}");
}
