use lib::enum_classes::EnumClasses;
use lib::mc_ida::McIda;
use lib::mc_ids::{IdsSegment, McIds};
use lib::mc_literal::{McInt, McString};
use lib::mc_opd::McOpd;
use lib::mc_param::{
    bind_slots, reset_r05_counter, ArgRef, McParamBindings, McParamValue, McUnitValue, NamedArg,
    ParamBindError, UnresolvedUnits,
};
use lib::attr_keys::McUnit;
use lib::mc_param_type::{McParamType, McParamTypeKind};
use lib::mc_paramd::{McEnumClassDeclare, McParamDeclare, McParamDeclareKind, McParamDeclares};

fn no_enums() -> EnumClasses {
    EnumClasses::new()
}

fn cap_enum() -> EnumClasses {
    let mut e = EnumClasses::new();
    e.add("CAP", &["X7R", "C0G"]);
    e
}

fn typed_single(name: &str, kind: McParamTypeKind) -> McParamDeclare {
    McParamDeclare {
        kind: McParamDeclareKind::Single(McIds::from(name)),
        param_type: McParamType {
            kind,
            direction: None,
        },
        default_val: None,
        default_quoted: false,
    }
}

fn single_declare(name: &str) -> McParamDeclare {
    McParamDeclare {
        kind: McParamDeclareKind::Single(McIds::from(name)),
        param_type: McParamType::default(),
        default_val: None,
        default_quoted: false,
    }
}

fn diel_declare() -> McParamDeclare {
    McParamDeclare {
        kind: McParamDeclareKind::EnumClass(McEnumClassDeclare {
            name: McIds::from("diel"),
            class_name: String::from("CAP"),
            default_val: None,
        }),
        param_type: McParamType::default(),
        default_val: None,
        default_quoted: false,
    }
}

fn attr_int(name: &str, value: i64) -> NamedArg {
    NamedArg {
        id: McIds::from(name),
        values: vec![McParamValue::Int(McInt { value })],
        text: format!("{name} = {value}"),
    }
}

fn dotted(parts: &[&str]) -> McIds {
    McIds {
        segments: parts
            .iter()
            .enumerate()
            .map(|(i, p)| {
                if i == 0 {
                    IdsSegment::Ida(Box::new(McIda::from(*p)))
                } else {
                    IdsSegment::DotIda(Box::new(McIda::from(*p)))
                }
            })
            .collect(),
    }
}

#[test]
fn test_nc_stripped_from_instance_method_arity() {
    let mut declares = McParamDeclares::new();
    declares.declares.push(McParamDeclare {
        kind: McParamDeclareKind::Single(McIds::from("GND")),
        param_type: McParamType {
            kind: McParamTypeKind::Unknown,
            direction: None,
        },
        default_val: None,
        default_quoted: false,
    });

    let values = vec![
        McParamValue::Ids(McIds::from("GND")),
        McParamValue::NC("NC".into()),
    ];

    let result = McParamBindings::bind(&declares, &values, &no_enums());
    assert!(
        result.is_ok(),
        "X6.setup(GND, NC) should succeed with NC stripped, got: {:?}",
        result.err()
    );
}

#[test]
fn test_nc_named_array_does_not_trigger_too_many_args() {
    let mut declares = McParamDeclares::new();
    declares.declares.push(typed_single("partno", McParamTypeKind::Unknown));
    declares.declares.push(typed_single("rating", McParamTypeKind::Unknown));

    let values = vec![
        McParamValue::String(McString {
            value: "ESD9B5V-2/TR".to_string(),
        }),
        McParamValue::NC("NC".into()),
    ];

    let result = McParamBindings::bind_quiet(&declares, &values, &no_enums());
    match result {
        Ok(_) => {}
        Err(ParamBindError::MissingRequired { .. }) => {}
        Err(e) => panic!("Unexpected error: {:?}", e),
    }
}

#[test]
fn test_nc_anonymous_inline_same_as_named_array() {
    let mut declares = McParamDeclares::new();
    declares.declares.push(typed_single("partno", McParamTypeKind::Unknown));
    declares.declares.push(typed_single("rating", McParamTypeKind::Unknown));

    let values = vec![
        McParamValue::String(McString {
            value: "ESD9B5V-2/TR".to_string(),
        }),
        McParamValue::NC("NC".into()),
    ];

    let result = McParamBindings::bind_quiet(&declares, &values, &no_enums());
    match result {
        Ok(_) => {}
        Err(ParamBindError::MissingRequired { .. }) => {}
        Err(e) => panic!("Unexpected error: {:?}", e),
    }
}

#[test]
fn test_named_args_bind_by_name_case_insensitive() {
    let mut declares = McParamDeclares::new();
    declares.declares.push(single_declare("cap"));
    declares.declares.push(single_declare("volt"));

    let values = vec![McParamValue::InlineAttrs(vec![
        attr_int("CAP", 10),
        attr_int("volt", 25),
    ])];

    let bindings = McParamBindings::bind(&declares, &values, &no_enums())
        .expect("named args should bind by name");
    let cap = bindings.find("cap").expect("cap should be bound");
    assert!(matches!(cap.get_value(), Some(McParamValue::Int(i)) if i.value == 10));
    let volt = bindings.find("volt").expect("volt should be bound");
    assert!(matches!(volt.get_value(), Some(McParamValue::Int(i)) if i.value == 25));
}

#[test]
fn test_named_args_out_of_order_bind_by_name() {
    let mut declares = McParamDeclares::new();
    declares.declares.push(single_declare("cap"));
    declares.declares.push(single_declare("volt"));

    let values = vec![McParamValue::InlineAttrs(vec![
        attr_int("volt", 25),
        attr_int("cap", 10),
    ])];

    let bindings = McParamBindings::bind(&declares, &values, &no_enums())
        .expect("reversed named args should still bind");
    let cap = bindings.find("cap").expect("cap should be bound");
    assert!(matches!(cap.get_value(), Some(McParamValue::Int(i)) if i.value == 10));
    let volt = bindings.find("volt").expect("volt should be bound");
    assert!(matches!(volt.get_value(), Some(McParamValue::Int(i)) if i.value == 25));
}

#[test]
fn test_orphan_named_arg_is_error() {
    let mut declares = McParamDeclares::new();
    declares.declares.push(single_declare("cap"));

    let values = vec![McParamValue::InlineAttrs(vec![attr_int("nope", 5)])];

    match McParamBindings::bind(&declares, &values, &no_enums()) {
        Err(ParamBindError::UnknownParameter { name }) => assert_eq!(name, "nope"),
        other => panic!("expected UnknownParameter, got {:?}", other),
    }
}

#[test]
fn test_named_arg_plus_positional_fill_remaining() {
    let mut declares = McParamDeclares::new();
    declares.declares.push(single_declare("cap"));
    declares.declares.push(single_declare("volt"));

    let values = vec![
        McParamValue::InlineAttrs(vec![attr_int("volt", 25)]),
        McParamValue::Int(McInt { value: 10 }),
    ];

    let bindings = McParamBindings::bind(&declares, &values, &no_enums())
        .expect("named + positional should bind");
    let cap = bindings.find("cap").expect("cap should be bound");
    assert!(matches!(cap.get_value(), Some(McParamValue::Int(i)) if i.value == 10));
    let volt = bindings.find("volt").expect("volt should be bound");
    assert!(matches!(volt.get_value(), Some(McParamValue::Int(i)) if i.value == 25));
}

#[test]
fn test_named_claim_causing_positional_overflow() {
    let mut declares = McParamDeclares::new();
    declares.declares.push(single_declare("cap"));
    declares.declares.push(single_declare("volt"));

    let values = vec![
        McParamValue::InlineAttrs(vec![attr_int("cap", 10)]),
        McParamValue::Int(McInt { value: 25 }),
        McParamValue::Int(McInt { value: 99 }),
    ];

    match McParamBindings::bind(&declares, &values, &no_enums()) {
        Err(ParamBindError::TooManyArguments { .. }) => {}
        other => panic!("expected TooManyArguments, got {:?}", other),
    }
}

#[test]
fn test_bare_enum_member_claims_enum_class_slot() {
    let mut declares = McParamDeclares::new();
    declares.declares.push(diel_declare());

    let values = vec![McParamValue::Ids(McIds::from("X7R"))];
    let bindings = McParamBindings::bind(&declares, &values, &cap_enum())
        .expect("bare enum member should claim the enum-class slot");
    let diel = bindings.find("diel").expect("diel should be bound");
    assert_eq!(diel.get_value().unwrap().to_string(), "X7R");
}

#[test]
fn test_dotted_enum_member_opd_claims_enum_class_slot() {
    let mut declares = McParamDeclares::new();
    declares.declares.push(diel_declare());

    let values = vec![McParamValue::Opd(McOpd::Id(dotted(&["CAP", "X7R"])))];
    let bindings = McParamBindings::bind(&declares, &values, &cap_enum())
        .expect("dotted CAP.X7R should claim the enum-class slot");
    let diel = bindings.find("diel").expect("diel should be bound");
    assert_eq!(diel.get_value().unwrap().to_string(), "CAP.X7R");
}

#[test]
fn test_enum_member_without_enum_slot_is_error() {
    let mut declares = McParamDeclares::new();
    declares.declares.push(single_declare("volt"));

    let values = vec![McParamValue::Ids(McIds::from("X7R"))];
    match McParamBindings::bind(&declares, &values, &cap_enum()) {
        Err(ParamBindError::TypeMismatch { .. }) => {}
        other => panic!("expected TypeMismatch, got {:?}", other),
    }
}

#[test]
fn test_invalid_enum_member_value_is_error() {
    let mut declares = McParamDeclares::new();
    declares.declares.push(diel_declare());

    let values = vec![McParamValue::Ids(McIds::from("ZZZ"))];
    match McParamBindings::bind(&declares, &values, &cap_enum()) {
        Err(ParamBindError::TypeMismatch { got, .. }) => assert_eq!(got, "ZZZ"),
        other => panic!("expected TypeMismatch, got {:?}", other),
    }
}

#[test]
fn test_interface_member_claims_interface_slot() {
    let mut declares = McParamDeclares::new();
    declares.declares.push(typed_single(
        "dc24v",
        McParamTypeKind::Interface {
            class_name: String::from("DC"),
            params: vec![String::from("24V")],
        },
    ));

    let values = vec![McParamValue::Opd(McOpd::Id(dotted(&["DC", "IVCC5"])))];
    let bindings = McParamBindings::bind(&declares, &values, &no_enums())
        .expect("DC.IVCC5 should claim the DC interface slot");
    let dc24v = bindings.find("dc24v").expect("dc24v should be bound");
    assert_eq!(dc24v.get_value().unwrap().to_string(), "DC.IVCC5");
}

#[test]
fn test_dotted_net_ref_falls_through_to_positional() {
    let mut declares = McParamDeclares::new();
    declares.declares.push(single_declare("bus"));

    let values = vec![McParamValue::Opd(McOpd::Id(dotted(&["uC", "I2C0"])))];
    let bindings = McParamBindings::bind(&declares, &values, &no_enums())
        .expect("uC.I2C0 should bind positionally");
    let bus = bindings.find("bus").expect("bus should be bound");
    assert_eq!(bus.get_value().unwrap().to_string(), "uC.I2C0");
}

#[test]
fn bind_unit_value_claims_the_slot_of_its_unit() {
    let mut declares = McParamDeclares::new();
    declares.declares.push(typed_single("name", McParamTypeKind::Unknown));
    declares
        .declares
        .push(typed_single("volt", McParamTypeKind::UnitValue { unit: McUnit::Volt }));
    let values = vec![
        McParamValue::UValue(McUnitValue {
            unit: McUnit::Volt,
            text: "5V".to_string(),
        }),
        McParamValue::Ids(McIds::from("R1")),
    ];
    let b = McParamBindings::bind(&declares, &values, &no_enums()).expect("binds");
    assert_eq!(b.len(), 2);
    assert_eq!(b.find("volt").unwrap().get_value().unwrap().to_string(), "5V");
    assert_eq!(b.find("name").unwrap().get_value().unwrap().to_string(), "R1");
    let params = b.to_params_for_eval();
    assert_eq!(params.len(), 2);
    assert_eq!(params[0].0.to_string(), "name");
    assert_eq!(params[0].1, "R1");
    assert_eq!(params[1].1, "5V");
}

#[test]
fn bind_unit_value_without_a_slot_is_a_mismatch() {
    let mut declares = McParamDeclares::new();
    declares
        .declares
        .push(typed_single("volt", McParamTypeKind::UnitValue { unit: McUnit::Volt }));
    let values = vec![McParamValue::UValue(McUnitValue {
        unit: McUnit::Ohm,
        text: "10k".to_string(),
    })];
    match McParamBindings::bind(&declares, &values, &no_enums()) {
        Err(e) => assert_eq!(
            e.to_string(),
            "Type mismatch for parameter '10k': expected a parameter declared with unit Ohm, got no matching unit declaration"
        ),
        Ok(_) => panic!("expected a mismatch"),
    }
}

#[test]
fn bind_errors_for_arity() {
    let mut declares = McParamDeclares::new();
    declares.declares.push(single_declare("a"));
    declares.declares.push(single_declare("b"));
    let three = vec![
        McParamValue::Int(McInt { value: 1 }),
        McParamValue::Int(McInt { value: 2 }),
        McParamValue::Int(McInt { value: 3 }),
    ];
    match McParamBindings::bind(&declares, &three, &no_enums()) {
        Err(ParamBindError::TooManyArguments { expected, got }) => {
            assert_eq!((expected, got), (2, 3))
        }
        other => panic!("expected TooManyArguments, got {:?}", other),
    }
    let one = vec![McParamValue::Int(McInt { value: 1 })];
    match McParamBindings::bind(&declares, &one, &no_enums()) {
        Err(ParamBindError::MissingRequired { name }) => assert_eq!(name, "b"),
        other => panic!("expected MissingRequired, got {:?}", other),
    }
}

#[test]
fn bind_open_formals_stay_default() {
    let mut declares = McParamDeclares::new();
    declares.declares.push(single_declare("a"));
    declares.declares.push(McParamDeclare {
        kind: McParamDeclareKind::Single(McIds::from("b")),
        param_type: McParamType::default(),
        default_val: Some("7".to_string()),
        default_quoted: false,
    });
    let values = vec![McParamValue::Int(McInt { value: 1 })];
    let b = McParamBindings::bind(&declares, &values, &no_enums()).expect("binds");
    let bb = b.find("b").unwrap();
    assert!(bb.is_default);
    assert!(bb.get_value().is_none());
    assert_eq!(b.find("a").unwrap().as_int_binding(), Some(("a".to_string(), 1)));
    assert!(b.find_member_value("a").is_none());
}

#[test]
fn enum_catalog_lookups() {
    let e = cap_enum();
    assert!(e.is_enum_class_name("CAP"));
    assert!(!e.is_enum_class_name("X7R"));
    assert_eq!(e.resolve_bare_enum_value("C0G"), Some("CAP".to_string()));
    assert_eq!(e.resolve_bare_enum_value("ZZZ"), None);
    assert!(e.is_enum_member("CAP", "X7R"));
    assert!(!e.is_enum_member("CAP", "ZZZ"));
    let d = McEnumClassDeclare {
        name: McIds::from("diel"),
        class_name: "CAP".to_string(),
        default_val: None,
    };
    assert!(d.is_valid_value(&e, "X7R"));
    assert!(!d.is_valid_value(&e, "x7r"));
}

#[test]
fn value_texts_of_lists() {
    let v = McParamValue::List(vec![
        McParamValue::Int(McInt { value: -3 }),
        McParamValue::NONE("_".to_string()),
        McParamValue::NC("NC".to_string()),
    ]);
    assert_eq!(v.to_string(), "[-3, _, NC]");
    assert_eq!(v.copy().to_string(), "[-3, _, NC]");
    let a = McParamValue::InlineAttrs(vec![attr_int("cap", 10)]);
    assert!(a.is_named_param());
    assert_eq!(a.get_param_name(), Some("cap".to_string()));
    assert_eq!(a.to_string(), "[cap = 10]");
}

#[test]
fn bind_trailing_nc_changes_nothing() {
    let mut declares = McParamDeclares::new();
    declares.declares.push(single_declare("a"));
    declares.declares.push(single_declare("b"));
    let plain = vec![
        McParamValue::Int(McInt { value: 1 }),
        McParamValue::Int(McInt { value: 2 }),
    ];
    let with_nc = vec![
        McParamValue::Int(McInt { value: 1 }),
        McParamValue::Int(McInt { value: 2 }),
        McParamValue::NC("NC".to_string()),
    ];
    let a = McParamBindings::bind(&declares, &plain, &no_enums()).expect("binds");
    let b = McParamBindings::bind(&declares, &with_nc, &no_enums()).expect("binds");
    assert_eq!(a.to_params_for_eval().len(), b.to_params_for_eval().len());
    for (x, y) in a.to_params_for_eval().iter().zip(b.to_params_for_eval().iter()) {
        assert_eq!(x.0.to_string(), y.0.to_string());
        assert_eq!(x.1, y.1);
    }
}

#[test]
fn bind_places_every_argument_once() {
    let mut declares = McParamDeclares::new();
    declares.declares.push(single_declare("a"));
    declares.declares.push(single_declare("b"));
    declares
        .declares
        .push(typed_single("v", McParamTypeKind::UnitValue { unit: McUnit::Volt }));
    let values = vec![
        McParamValue::Int(McInt { value: 1 }),
        McParamValue::UValue(McUnitValue {
            unit: McUnit::Volt,
            text: "3V3".to_string(),
        }),
        McParamValue::InlineAttrs(vec![attr_int("b", 2)]),
    ];
    let slots = bind_slots(&declares, &values, &no_enums()).expect("binds");
    assert_eq!(
        slots,
        vec![
            Some(ArgRef::Positional(0)),
            Some(ArgRef::Named(2, 0)),
            Some(ArgRef::Positional(1))
        ]
    );
}

#[test]
fn bind_checks_an_enum_default_against_its_class() {
    let mut declares = McParamDeclares::new();
    declares.declares.push(McParamDeclare {
        kind: McParamDeclareKind::EnumClass(McEnumClassDeclare {
            name: McIds::from("diel"),
            class_name: String::from("CAP"),
            default_val: Some("ZZZ".to_string()),
        }),
        param_type: McParamType::default(),
        default_val: Some("ZZZ".to_string()),
        default_quoted: false,
    });
    let values: Vec<McParamValue> = vec![];
    match McParamBindings::bind(&declares, &values, &cap_enum()) {
        Err(e) => assert_eq!(
            e.to_string(),
            "Type mismatch for parameter 'diel': expected a valid member of enum CAP, got ZZZ"
        ),
        Ok(_) => panic!("expected a mismatch"),
    }
}

#[test]
fn unresolved_unit_arguments_are_counted() {
    let mut declares = McParamDeclares::new();
    declares
        .declares
        .push(typed_single("volt", McParamTypeKind::UnitValue { unit: McUnit::Volt }));
    let ohm = vec![McParamValue::UValue(McUnitValue { unit: McUnit::Ohm, text: "10k".to_string() })];
    let volt = vec![McParamValue::UValue(McUnitValue { unit: McUnit::Volt, text: "5V".to_string() })];
    let too_many = vec![McParamValue::Ids(McIds::from("a")), McParamValue::Ids(McIds::from("b"))];
    let mut counter = UnresolvedUnits::new();
    assert!(McParamBindings::bind_counted(&declares, &ohm, &no_enums(), &mut counter).is_err());
    assert_eq!(counter.count, 1);
    assert!(McParamBindings::bind_counted(&declares, &volt, &no_enums(), &mut counter).is_ok());
    assert_eq!(counter.count, 1);
    assert!(McParamBindings::bind_counted(&declares, &too_many, &no_enums(), &mut counter).is_err());
    assert_eq!(counter.count, 1);
    assert!(McParamBindings::bind_counted(&declares, &ohm, &no_enums(), &mut counter).is_err());
    assert_eq!(counter.count, 2);
    reset_r05_counter(&mut counter);
    assert_eq!(counter.count, 0);
}
