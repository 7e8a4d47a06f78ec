use lib::form::{classify, reference_parts, Form};
use lib::mc_ida::McIda;
use lib::mc_ids::{IdsSegment, McIds};
use lib::mc_literal::McInt;


fn ids(segments: Vec<IdsSegment>) -> McIds {
    McIds { segments }
}
fn ida(s: &str) -> Box<McIda> {
    Box::new(McIda::from(s))
}
fn int_box(v: i64) -> Box<McInt> {
    Box::new(McInt { value: v })
}
fn square(inner: Vec<IdsSegment>) -> IdsSegment {
    IdsSegment::Square(inner)
}
fn curly(inner: Vec<IdsSegment>) -> IdsSegment {
    IdsSegment::Curly(inner)
}
fn slice(from: i64, to: i64) -> IdsSegment {
    IdsSegment::Slice {
        from: int_box(from),
        to: int_box(to),
    }
}

#[test]
fn sem_form__bare_single_identifiers() {
    assert_eq!(classify(&McIds::from("GPIO")), Form::Bare);
    assert_eq!(classify(&McIds::from("VCC")), Form::Bare);
}

#[test]
fn sem_form__dotted_dot_chains() {
    assert_eq!(
        classify(&ids(vec![
            IdsSegment::Ida(ida("A")),
            IdsSegment::DotIda(ida("B")),
        ])),
        Form::Dotted
    );
    assert_eq!(
        classify(&ids(vec![
            IdsSegment::Ida(ida("A")),
            IdsSegment::DotIda(ida("B")),
            IdsSegment::DotIda(ida("C")),
        ])),
        Form::Dotted
    );
    assert_eq!(
        classify(&ids(vec![
            IdsSegment::Ida(ida("K")),
            IdsSegment::DotInt(int_box(45))
        ])),
        Form::Dotted
    );
}

#[test]
fn sem_form__list_pure_and_embedded_square() {
    assert_eq!(
        classify(&ids(vec![square(vec![
            IdsSegment::Ida(ida("A")),
            IdsSegment::Ida(ida("B")),
        ])])),
        Form::List
    );
    assert_eq!(classify(&McIds::from("PDM[CLK,DATA]")), Form::List);
}

#[test]
fn sem_form__array_prefix_range() {
    assert_eq!(
        classify(&ids(vec![
            IdsSegment::Ida(ida("GPIO")),
            square(vec![slice(1, 2)])
        ])),
        Form::Array
    );
    assert_eq!(classify(&McIds::from("res[1:2]")), Form::Array);
}

#[test]
fn sem_form__indexed_prefix_single() {
    assert_eq!(
        classify(&ids(vec![
            IdsSegment::Ida(ida("res")),
            square(vec![IdsSegment::Int(int_box(4))])
        ])),
        Form::Indexed
    );
    assert_eq!(classify(&McIds::from("res[4]")), Form::Indexed);
}

#[test]
fn sem_form__curly_bus_and_component_member() {
    assert_eq!(
        classify(&ids(vec![
            IdsSegment::Ida(ida("DC2")),
            curly(vec![
                IdsSegment::Ida(ida("VDD")),
                IdsSegment::Ida(ida("GND"))
            ]),
        ])),
        Form::Curly
    );
    assert_eq!(
        classify(&ids(vec![
            IdsSegment::Ida(ida("uC")),
            IdsSegment::DotIda(ida("ADC")),
            curly(vec![IdsSegment::Ida(ida("P")), IdsSegment::Ida(ida("N"))]),
        ])),
        Form::Curly
    );
}

#[test]
fn sem_form__mixed_matrices_and_combos() {
    assert_eq!(classify(&McIds::from("R[1:2]C[1:3]")), Form::Mixed);
    assert_eq!(
        classify(&ids(vec![
            IdsSegment::Ida(ida("A")),
            square(vec![slice(1, 2)]),
            square(vec![slice(3, 4)]),
        ])),
        Form::Mixed
    );
    assert_eq!(
        classify(&ids(vec![
            IdsSegment::Ida(ida("A")),
            square(vec![IdsSegment::Ida(ida("B")), IdsSegment::Ida(ida("C"))]),
            curly(vec![IdsSegment::Ida(ida("D"))]),
        ])),
        Form::Mixed
    );
    assert_eq!(
        classify(&ids(vec![
            IdsSegment::Ida(ida("res")),
            square(vec![IdsSegment::Int(int_box(4))]),
            IdsSegment::DotIda(ida("B")),
        ])),
        Form::Mixed
    );
}

#[test]
fn sem_form__reference_parts_base_and_member() {
    let dotted = ids(vec![
        IdsSegment::Ida(ida("uC")),
        IdsSegment::DotIda(ida("ADC")),
        IdsSegment::DotIda(ida("P")),
    ]);
    assert_eq!(
        reference_parts(&dotted, Form::Dotted),
        ("uC".to_string(), Some("ADC.P".to_string()))
    );
    let curly = ids(vec![
        IdsSegment::Ida(ida("DC2")),
        curly(vec![
            IdsSegment::Ida(ida("VDD")),
            IdsSegment::Ida(ida("GND")),
        ]),
    ]);
    assert_eq!(
        reference_parts(&curly, Form::Curly),
        ("DC2".to_string(), None)
    );
    let arr = ids(vec![IdsSegment::Ida(ida("res")), square(vec![slice(1, 2)])]);
    assert_eq!(
        reference_parts(&arr, Form::Array),
        ("res".to_string(), None)
    );
}

#[test]
fn sem_form__from_dot_pair_roundtrips_text() {
    let pair = McIds::from_dot_pair("MISSING", "PIN");
    assert_eq!(classify(&pair), Form::Dotted);
    assert_eq!(pair.to_string(), "MISSING.PIN");
    assert_eq!(
        reference_parts(&pair, Form::Dotted),
        ("MISSING".to_string(), Some("PIN".to_string()))
    );
}
