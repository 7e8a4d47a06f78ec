use lib::mc_ids::display_base_members;
use lib::mc_ids::McIds;
use std::cmp::Ordering;


#[test]
fn sem_mcids__display_base_members_scalar() {
    assert_eq!(
        display_base_members("vin"),
        ("vin".to_string(), Vec::<String>::new())
    );
    assert_eq!(
        display_base_members("@0"),
        ("@0".to_string(), Vec::<String>::new())
    );
}

#[test]
fn sem_mcids__display_base_members_curly_group() {
    assert_eq!(
        display_base_members("vin{POWER_SYS, GND}"),
        (
            "vin".to_string(),
            vec!["POWER_SYS".to_string(), "GND".to_string()]
        )
    );
    assert_eq!(
        display_base_members("dc{VDD_3V3, GND}"),
        (
            "dc".to_string(),
            vec!["VDD_3V3".to_string(), "GND".to_string()]
        )
    );
}

#[test]
fn sem_mcids__display_base_members_square_group() {
    assert_eq!(
        display_base_members("[VDD_3V3, GND]"),
        (
            String::new(),
            vec!["VDD_3V3".to_string(), "GND".to_string()]
        )
    );
    assert_eq!(
        display_base_members("PWR_[VDD2, GND2]"),
        (
            "PWR_".to_string(),
            vec!["VDD2".to_string(), "GND2".to_string()]
        )
    );
}

#[test]
fn sem_mcids__display_base_members_slice_token_is_single_member() {
    assert_eq!(
        display_base_members("[1:2]"),
        (String::new(), vec!["1:2".to_string()])
    );
}

#[test]
fn sem_mcids__display_base_members_empty_group_keeps_base() {
    assert_eq!(
        display_base_members("vin{}"),
        ("vin".to_string(), Vec::<String>::new())
    );
}

#[test]
fn sem_mcids__display_base_members_bare_curly() {
    assert_eq!(
        display_base_members("{A, B}"),
        (String::new(), vec!["A".to_string(), "B".to_string()])
    );
}

#[test]
fn identifiers_order_by_display_text() {
    assert_eq!(McIds::from("A").cmp(&McIds::from("B")), Ordering::Less);
    assert_eq!(McIds::from("AB").cmp(&McIds::from("A")), Ordering::Greater);
    assert_eq!(McIds::from("D[0:1]").cmp(&McIds::from("D[0:1]")), Ordering::Equal);
    assert_eq!(McIds::from("Z").cmp(&McIds::from("a")), Ordering::Less);
    let mut v = vec![McIds::from("VDD"), McIds::from("GND"), McIds::from("CLK")];
    v.sort_by(|a, b| a.cmp(b));
    let names: Vec<String> = v.iter().map(|i| i.to_string()).collect();
    assert_eq!(names, vec!["CLK", "GND", "VDD"]);
}
