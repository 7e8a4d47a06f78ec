use lib::attr_keys::{
    class_words, element_of_key, element_of_spec_key, exposed_words, faces_iface, faces_spec,
    is_reserved, is_table_namespace, is_voltage_key, lookup, nature_words, noise_words,
    protect_words, role_words, value_kind, vocab_of, AttrContract, AttrFace, AttrValueKind,
    AttrVocab, ElementClass, McUnit, KEY_BIND_ROLE, KEY_CLASS, KEY_EXPOSED, KEY_NATURE, KEY_NOISE,
    KEY_PROTECT, KEY_RETURN, KEY_ROLE, KEY_STAR,
};


#[test]
fn attrkeys__spec_key_carries_its_unit() {
    assert_eq!(
        value_kind("spec.capacitance"),
        Some(AttrValueKind::Quantity(McUnit::Cap))
    );
    assert_eq!(
        value_kind("spec.tolerance"),
        Some(AttrValueKind::Quantity(McUnit::Percent))
    );
    assert_eq!(value_kind("spec.polarized"), Some(AttrValueKind::Text));
    assert_eq!(
        value_kind("spec.input_req"),
        Some(AttrValueKind::Quantity(McUnit::Volt))
    );
}

#[test]
fn attrkeys__standalone_key_carries_its_kind() {
    assert_eq!(value_kind("name"), Some(AttrValueKind::Text));
    assert_eq!(
        value_kind("voltage"),
        Some(AttrValueKind::Quantity(McUnit::Volt))
    );
}

#[test]
fn attrkeys__lookup_is_exact_and_whole() {
    assert_eq!(value_kind("spec.Capacitance"), None);
    assert_eq!(value_kind("spec.Voltage"), None);
    assert_eq!(value_kind("capacitance"), None);
    assert_eq!(value_kind("resistance"), None);
    assert_eq!(
        value_kind("spec.HBM"),
        Some(AttrValueKind::Quantity(McUnit::Volt))
    );
}

#[test]
fn attrkeys__face_decides_which_namespace_answers() {
    assert!(is_voltage_key("voltage", AttrFace::Body));
    assert!(is_voltage_key("voltage", AttrFace::PinRow));
    assert!(is_voltage_key("voltage", AttrFace::Interface));
    assert!(is_voltage_key("volt", AttrFace::PinRow));
    assert!(!is_voltage_key("volt", AttrFace::Body));
    assert_eq!(lookup("output").map(|d| d.faces), Some(faces_iface()));
    assert_eq!(lookup("spec.output").map(|d| d.faces), Some(faces_spec()));
    assert!(!lookup("spec.output").is_some_and(|d| d.faces.contains(&AttrFace::Interface)));
    assert_eq!(lookup("diff_pair").map(|d| d.faces), Some(faces_iface()));
}

#[test]
fn attrkeys__contract_half_pairs_demand_with_supply() {
    assert_eq!(
        lookup("spec.input_req").map(|d| d.contract),
        Some(AttrContract::Demand)
    );
    assert_eq!(
        lookup("spec.output").map(|d| d.contract),
        Some(AttrContract::Supply)
    );
    assert_eq!(
        lookup("receiver").map(|d| d.contract),
        Some(AttrContract::Demand)
    );
    assert_eq!(
        lookup("output").map(|d| d.contract),
        Some(AttrContract::Supply)
    );
    assert_eq!(
        lookup("spec.voltage").map(|d| d.contract),
        Some(AttrContract::Plain)
    );
}

#[test]
fn attrkeys__clipped_spec_key_is_not_registered() {
    assert_eq!(value_kind("spec.r"), None);
    assert_eq!(value_kind("spec.v"), None);
    assert_eq!(value_kind("spec.c"), None);
    assert_eq!(value_kind("spec.l"), None);
    assert_eq!(value_kind("spec.i"), None);
    assert_eq!(value_kind("spec.f"), None);
    assert_eq!(value_kind("spec.t"), None);
    assert_eq!(value_kind("spec.p"), None);
    assert_eq!(value_kind("spec.volt"), None);
    assert_eq!(value_kind("spec.cap"), None);
    assert_eq!(value_kind("spec.freq"), None);
    assert_eq!(value_kind("spec.temp"), None);
    assert_eq!(value_kind("spec.len"), None);
    assert_eq!(value_kind("spec.part"), None);
    assert_eq!(value_kind("spec.tol"), None);
    assert_eq!(
        value_kind("spec.resistance"),
        Some(AttrValueKind::Quantity(McUnit::Ohm))
    );
}

#[test]
fn attrkeys__bom_field_has_no_spec_row() {
    assert_eq!(value_kind("spec.partno"), None);
    assert_eq!(value_kind("spec.name"), None);
    assert_eq!(value_kind("spec.package"), None);
    assert_eq!(value_kind("partno"), Some(AttrValueKind::Text));
}

#[test]
fn attrkeys__unregistered_device_key_is_silent() {
    assert_eq!(value_kind("spec.Rdson"), None);
    assert_eq!(value_kind("spec.Vgs"), None);
    assert!(!is_reserved("spec.Rdson"));
}

#[test]
fn attrkeys__registered_spec_key_is_not_reserved() {
    assert!(!is_reserved("spec.capacitance"));
    assert!(is_reserved("this"));
    assert!(!is_voltage_key("spec.voltage", AttrFace::Spec));
    assert!(is_voltage_key("vcc", AttrFace::Body));
}

#[test]
fn attrkeys__element_column_marks_the_keys_that_decide_the_class() {
    assert_eq!(
        element_of_key("spec.capacitance"),
        Some(ElementClass::Capacitive)
    );
    assert_eq!(
        element_of_key("spec.resistance"),
        Some(ElementClass::Resistive)
    );
    assert_eq!(
        element_of_key("spec.inductance"),
        Some(ElementClass::Magnetic)
    );
    assert_eq!(
        element_of_key("spec.impedance"),
        Some(ElementClass::Magnetic)
    );
    assert_eq!(element_of_key("spec.esr"), None);
    assert_eq!(element_of_key("spec.dcr"), None);
    assert_eq!(element_of_key("spec.tolerance"), None);
    assert_eq!(element_of_key("voltage"), None);
    assert_eq!(element_of_key("name"), None);
}

#[test]
fn attrkeys__element_lookup_is_whole_and_exact() {
    assert_eq!(element_of_key("capacitance"), None);
    assert_eq!(
        element_of_spec_key("capacitance"),
        Some(ElementClass::Capacitive)
    );
    assert_eq!(element_of_spec_key("Capacitance"), None);
    assert_eq!(element_of_spec_key("spec.capacitance"), None);
    assert_eq!(element_of_spec_key("load_capacitance"), None);
}

#[test]
fn attrkeys__vocab_column_registers_the_closed_word_sets() {
    assert_eq!(
        vocab_of(KEY_ROLE),
        Some(AttrVocab::Words(role_words())),
        "role takes the canon's five identity words"
    );
    assert_eq!(vocab_of(KEY_CLASS), Some(AttrVocab::Words(class_words())));
    assert_eq!(vocab_of(KEY_NATURE), Some(AttrVocab::Words(nature_words())));
    assert_eq!(vocab_of(KEY_NOISE), Some(AttrVocab::Words(noise_words())));
    assert_eq!(vocab_of(KEY_EXPOSED), Some(AttrVocab::Words(exposed_words())));
    assert_eq!(vocab_of(KEY_PROTECT), Some(AttrVocab::Words(protect_words())));
    assert_eq!(vocab_of(KEY_BIND_ROLE), Some(AttrVocab::Words(role_words())));
    assert_eq!(vocab_of(KEY_STAR), Some(AttrVocab::Flag));
}

#[test]
fn attrkeys__vocab_is_absent_where_values_are_open() {
    assert_eq!(vocab_of(KEY_RETURN), None);
    assert_eq!(vocab_of("voltage"), None);
    assert_eq!(vocab_of("spec.dielectric"), None);
    assert_eq!(vocab_of("coil_voltage"), None);
    assert!(is_reserved(KEY_ROLE));
    assert!(!is_reserved(KEY_CLASS));
    assert!(vocab_of(KEY_CLASS).is_some());
}

#[test]
fn attrkeys__spec_namespace_is_derived_from_the_rows() {
    assert!(is_table_namespace("spec"));
    assert!(!is_table_namespace("name"));
    assert!(!is_table_namespace("voltage"));
    assert!(!is_table_namespace("spec.capacitance"));
}
