//! Attribute key registry: the data dictionary behind every attribute
//! decision. A key is registered by the path it is written at: a first-level
//! key (`voltage`) or a key of the `spec` value table (`spec.capacitance`).
//! One row says which namespaces the key may be written in, which kind of
//! value it holds (unit included), which words its value may be written
//! with where the vocabulary is closed, which half of a demand/supply
//! contract it states, and whether it may be a general attribute key at all.
//! A key with no row is legal everywhere and carries no registered meaning.
//! Lookup is exact and whole: no case folding, and a `spec` key answers to
//! its path, never to its last segment alone.
use vstd::prelude::*;
use crate::text::{chars_of, push_str, str_eq};

verus! {

/// Unit a physical quantity is measured in.
#[derive(Debug, Clone, Copy, PartialEq, Eq, Structural)]
pub enum McUnit {
    /// Volts.
    Volt,
    /// Watts.
    Wat,
    /// Ohms.
    Ohm,
    /// Farads.
    Cap,
    /// Henries.
    Ind,
    /// Amperes.
    Amp,
    /// Hertz.
    Hz,
    /// Charge (ampere-hours).
    Charge,
    /// Percent.
    Percent,
    /// Degrees Celsius.
    Temp,
    /// Time.
    Time,
    /// Length.
    Len,
}

/// A namespace an attribute key can be written in.
#[derive(Debug, Clone, Copy, PartialEq, Eq, Structural)]
pub enum AttrFace {
    /// A component or module body (`voltage = "3.3V"`).
    Body,
    /// An interface body (`output = ±5V`).
    Interface,
    /// A key of the `spec` value table, under its path (`spec.capacitance`).
    Spec,
    /// A value key on a pin row (`volt: 1.2V`).
    PinRow,
}

/// Semantic kind of the values stored under a key.
#[derive(Debug, Clone, Copy, PartialEq, Eq, Structural)]
pub enum AttrValueKind {
    /// A physical quantity; the unit is part of what the key means.
    Quantity(McUnit),
    /// A name or a classification word.
    Text,
    /// A counted number (registered for no key today).
    Count,
}

/// What an element is, as its own `spec` table declares it.
#[derive(Debug, Clone, Copy, PartialEq, Eq, Structural)]
pub enum ElementClass {
    /// It stores charge across its two legs (`spec.capacitance`).
    Capacitive,
    /// It resists a change of current, or presents a frequency-dependent
    /// impedance (`spec.inductance`, `spec.impedance`).
    Magnetic,
    /// It dissipates in a declared resistance (`spec.resistance`).
    Resistive,
}

/// Which half of a demand/supply contract a key states.
#[derive(Debug, Clone, Copy, PartialEq, Eq, Structural)]
pub enum AttrContract {
    /// Neither half.
    Plain,
    /// What the writer needs from outside.
    Demand,
    /// What the writer guarantees to the outside.
    Supply,
}

/// How many declarations of one key a single attribute list may hold.
#[derive(Debug, Clone, Copy, PartialEq, Eq, Structural)]
pub enum AttrKeyArity {
    /// One declaration; a second one in the same list is a duplicate.
    Single,
    /// The declarations accumulate (claimed by no row today).
    Repeated,
}

/// The closed value set of a key.
#[derive(Debug, Clone, Copy, PartialEq, Eq)]
pub enum AttrVocab {
    /// One of these words, written exactly.
    Words(&'static [&'static str]),
    /// No value at all: the key is live by being there.
    Flag,
}

/// Model of an [`AttrVocab`].
pub enum VocabModel {
    Words(Seq<&'static str>),
    Flag,
}

impl View for AttrVocab {
    type V = VocabModel;

    open spec fn view(&self) -> VocabModel {
        match self {
            AttrVocab::Words(w) => VocabModel::Words(w@),
            AttrVocab::Flag => VocabModel::Flag,
        }
    }
}

/// One row of the dictionary: a key path and its columns.
#[derive(Debug, Clone, Copy)]
pub struct AttrKeyDef {
    pub key: &'static str,
    /// The namespaces the key is written in.
    pub faces: &'static [AttrFace],
    /// May the key be used as a general attribute key (`key = ...`)?
    pub general: bool,
    /// Kind of value the key holds, unit included.
    pub value: Option<AttrValueKind>,
    /// The words the key's value is written with, where they are a closed set.
    pub vocab: Option<AttrVocab>,
    /// Which half of a demand/supply contract the key states.
    pub contract: AttrContract,
    /// Does the key name the supply voltage of the thing it is written on?
    pub supply_voltage: bool,
    /// How many declarations of this key one attribute list may hold.
    pub arity: AttrKeyArity,
    /// The element class this key's presence marks, where it marks one.
    pub element: Option<ElementClass>,
}

/// Model of a dictionary row.
pub struct KeyModel {
    pub key: Seq<char>,
    pub faces: Seq<AttrFace>,
    pub general: bool,
    pub value: Option<AttrValueKind>,
    pub vocab: Option<VocabModel>,
    pub contract: AttrContract,
    pub supply_voltage: bool,
    pub arity: AttrKeyArity,
    pub element: Option<ElementClass>,
}

impl View for AttrKeyDef {
    type V = KeyModel;

    open spec fn view(&self) -> KeyModel {
        KeyModel {
            key: self.key@,
            faces: self.faces@,
            general: self.general,
            value: self.value,
            vocab: match self.vocab {
                Some(v) => Some(v@),
                None => None,
            },
            contract: self.contract,
            supply_voltage: self.supply_voltage,
            arity: self.arity,
            element: self.element,
        }
    }
}

/// The models of a list of rows.
pub open spec fn key_models(v: Seq<AttrKeyDef>) -> Seq<KeyModel> {
    v.map_values(|d: AttrKeyDef| d@)
}

// ---------------------------------------------------------------------------
// Face sets and word sets
// ---------------------------------------------------------------------------

pub open spec fn faces_body_m() -> Seq<AttrFace> {
    seq![AttrFace::Body]
}

pub open spec fn faces_pin_m() -> Seq<AttrFace> {
    seq![AttrFace::PinRow]
}

pub open spec fn faces_body_pin_m() -> Seq<AttrFace> {
    seq![AttrFace::Body, AttrFace::PinRow]
}

pub open spec fn faces_iface_m() -> Seq<AttrFace> {
    seq![AttrFace::Interface]
}

pub open spec fn faces_spec_m() -> Seq<AttrFace> {
    seq![AttrFace::Spec]
}

pub open spec fn faces_body_pin_iface_m() -> Seq<AttrFace> {
    seq![AttrFace::Body, AttrFace::PinRow, AttrFace::Interface]
}

/// A component or module body.
pub fn faces_body() -> (r: &'static [AttrFace])
    ensures
        r@ == faces_body_m(),
{
    &[AttrFace::Body]
}

/// A pin row.
pub fn faces_pin() -> (r: &'static [AttrFace])
    ensures
        r@ == faces_pin_m(),
{
    &[AttrFace::PinRow]
}

/// A body conduit row and a component pin row (`role`, `class`).
pub fn faces_body_pin() -> (r: &'static [AttrFace])
    ensures
        r@ == faces_body_pin_m(),
{
    &[AttrFace::Body, AttrFace::PinRow]
}

/// An interface body.
pub fn faces_iface() -> (r: &'static [AttrFace])
    ensures
        r@ == faces_iface_m(),
{
    &[AttrFace::Interface]
}

/// The `spec` value table.
pub fn faces_spec() -> (r: &'static [AttrFace])
    ensures
        r@ == faces_spec_m(),
{
    &[AttrFace::Spec]
}

/// A body, a pin row and an interface body (`voltage`).
pub fn faces_body_pin_iface() -> (r: &'static [AttrFace])
    ensures
        r@ == faces_body_pin_iface_m(),
{
    &[AttrFace::Body, AttrFace::PinRow, AttrFace::Interface]
}

pub const KEY_ROLE: &'static str = "role";
pub const KEY_CLASS: &'static str = "class";
pub const KEY_NATURE: &'static str = "nature";
pub const KEY_NOISE: &'static str = "noise";
pub const KEY_EXPOSED: &'static str = "exposed";
pub const KEY_BIND_ROLE: &'static str = "bind_role";
pub const KEY_RETURN: &'static str = "return";
pub const KEY_STAR: &'static str = "star";
pub const KEY_PROTECT: &'static str = "protect";

pub const WORD_MAIN: &'static str = "main";
pub const WORD_QUIET: &'static str = "quiet";
pub const WORD_PROTECTIVE: &'static str = "protective";
pub const WORD_EARTH: &'static str = "earth";
pub const WORD_ISOLATED: &'static str = "isolated";
pub const WORD_DIGITAL: &'static str = "digital";
pub const WORD_ANALOG: &'static str = "analog";
pub const WORD_NOISY: &'static str = "noisy";
pub const WORD_SENSITIVE: &'static str = "sensitive";
pub const WORD_AC: &'static str = "ac";
pub const WORD_DC: &'static str = "dc";
pub const WORD_SHUNT: &'static str = "shunt";
pub const WORD_SERIES: &'static str = "series";
pub const WORD_ESD_CONTACT: &'static str = "esd_contact";
pub const WORD_ESD_AIR: &'static str = "esd_air";
pub const WORD_EFT: &'static str = "eft";
pub const WORD_SURGE: &'static str = "surge";
pub const WORD_LIGHTNING: &'static str = "lightning";

/// The component spec-table attribute.
pub const SPEC_TABLE_KEY: &'static str = "spec";

pub open spec fn role_words_m() -> Seq<&'static str> {
    seq![WORD_MAIN, WORD_QUIET, WORD_PROTECTIVE, WORD_EARTH, WORD_ISOLATED]
}

pub open spec fn class_words_m() -> Seq<&'static str> {
    seq![WORD_DIGITAL, WORD_ANALOG]
}

pub open spec fn nature_words_m() -> Seq<&'static str> {
    seq![WORD_AC, WORD_DC]
}

pub open spec fn noise_words_m() -> Seq<&'static str> {
    seq![WORD_NOISY, WORD_QUIET, WORD_SENSITIVE]
}

pub open spec fn exposed_words_m() -> Seq<&'static str> {
    seq![WORD_ESD_CONTACT, WORD_ESD_AIR, WORD_EFT, WORD_SURGE, WORD_LIGHTNING]
}

pub open spec fn protect_words_m() -> Seq<&'static str> {
    seq![WORD_SHUNT, WORD_SERIES]
}

/// The five identity words (`role`, `bind_role`).
pub fn role_words() -> (r: &'static [&'static str])
    ensures
        r@ == role_words_m(),
{
    &[WORD_MAIN, WORD_QUIET, WORD_PROTECTIVE, WORD_EARTH, WORD_ISOLATED]
}

/// The signal classes (`class`).
pub fn class_words() -> (r: &'static [&'static str])
    ensures
        r@ == class_words_m(),
{
    &[WORD_DIGITAL, WORD_ANALOG]
}

/// The current natures (`nature`).
pub fn nature_words() -> (r: &'static [&'static str])
    ensures
        r@ == nature_words_m(),
{
    &[WORD_AC, WORD_DC]
}

/// The noise characters (`noise`).
pub fn noise_words() -> (r: &'static [&'static str])
    ensures
        r@ == noise_words_m(),
{
    &[WORD_NOISY, WORD_QUIET, WORD_SENSITIVE]
}

/// The exposure threats (`exposed`).
pub fn exposed_words() -> (r: &'static [&'static str])
    ensures
        r@ == exposed_words_m(),
{
    &[WORD_ESD_CONTACT, WORD_ESD_AIR, WORD_EFT, WORD_SURGE, WORD_LIGHTNING]
}

/// The protection placements (`protect`).
pub fn protect_words() -> (r: &'static [&'static str])
    ensures
        r@ == protect_words_m(),
{
    &[WORD_SHUNT, WORD_SERIES]
}

// ---------------------------------------------------------------------------
// Row constructors
// ---------------------------------------------------------------------------

/// A key with no value kind, vocabulary or class.
pub open spec fn row_m(key: Seq<char>, faces: Seq<AttrFace>, general: bool) -> KeyModel {
    KeyModel {
        key,
        faces,
        general,
        value: None,
        vocab: None,
        contract: AttrContract::Plain,
        supply_voltage: false,
        arity: AttrKeyArity::Single,
        element: None,
    }
}

/// A key whose values come from a closed set.
pub open spec fn vocab_row_m(key: Seq<char>, faces: Seq<AttrFace>, general: bool, vocab: VocabModel) -> KeyModel {
    KeyModel { vocab: Some(vocab), ..row_m(key, faces, general) }
}

/// A general key holding a kind of value.
pub open spec fn value_row_m(key: Seq<char>, faces: Seq<AttrFace>, value: AttrValueKind) -> KeyModel {
    KeyModel { value: Some(value), ..row_m(key, faces, true) }
}

/// A general key whose presence marks what an element is.
pub open spec fn element_row_m(
    key: Seq<char>,
    faces: Seq<AttrFace>,
    value: AttrValueKind,
    element: ElementClass,
) -> KeyModel {
    KeyModel { value: Some(value), element: Some(element), ..row_m(key, faces, true) }
}

/// A general key naming a supply voltage.
pub open spec fn voltage_row_m(key: Seq<char>, faces: Seq<AttrFace>, value: Option<AttrValueKind>) -> KeyModel {
    KeyModel { value, supply_voltage: true, ..row_m(key, faces, true) }
}

/// A general key stating one half of a demand/supply contract.
pub open spec fn contract_row_m(
    key: Seq<char>,
    faces: Seq<AttrFace>,
    value: AttrValueKind,
    contract: AttrContract,
) -> KeyModel {
    KeyModel { value: Some(value), contract, ..row_m(key, faces, true) }
}

fn row(key: &'static str, faces: &'static [AttrFace], general: bool) -> (r: AttrKeyDef)
    ensures
        r@ == row_m(key@, faces@, general),
{
    AttrKeyDef {
        key,
        faces,
        general,
        value: None,
        vocab: None,
        contract: AttrContract::Plain,
        supply_voltage: false,
        arity: AttrKeyArity::Single,
        element: None,
    }
}

fn vocab_row(key: &'static str, faces: &'static [AttrFace], general: bool, vocab: AttrVocab) -> (r: AttrKeyDef)
    ensures
        r@ == vocab_row_m(key@, faces@, general, vocab@),
{
    AttrKeyDef {
        key,
        faces,
        general,
        value: None,
        vocab: Some(vocab),
        contract: AttrContract::Plain,
        supply_voltage: false,
        arity: AttrKeyArity::Single,
        element: None,
    }
}

fn value_row(key: &'static str, faces: &'static [AttrFace], value: AttrValueKind) -> (r: AttrKeyDef)
    ensures
        r@ == value_row_m(key@, faces@, value),
{
    AttrKeyDef {
        key,
        faces,
        general: true,
        value: Some(value),
        vocab: None,
        contract: AttrContract::Plain,
        supply_voltage: false,
        arity: AttrKeyArity::Single,
        element: None,
    }
}

fn element_row(
    key: &'static str,
    faces: &'static [AttrFace],
    value: AttrValueKind,
    element: ElementClass,
) -> (r: AttrKeyDef)
    ensures
        r@ == element_row_m(key@, faces@, value, element),
{
    AttrKeyDef {
        key,
        faces,
        general: true,
        value: Some(value),
        vocab: None,
        contract: AttrContract::Plain,
        supply_voltage: false,
        arity: AttrKeyArity::Single,
        element: Some(element),
    }
}

fn voltage_row(key: &'static str, faces: &'static [AttrFace], value: Option<AttrValueKind>) -> (r: AttrKeyDef)
    ensures
        r@ == voltage_row_m(key@, faces@, value),
{
    AttrKeyDef {
        key,
        faces,
        general: true,
        value,
        vocab: None,
        contract: AttrContract::Plain,
        supply_voltage: true,
        arity: AttrKeyArity::Single,
        element: None,
    }
}

fn contract_row(
    key: &'static str,
    faces: &'static [AttrFace],
    value: AttrValueKind,
    contract: AttrContract,
) -> (r: AttrKeyDef)
    ensures
        r@ == contract_row_m(key@, faces@, value, contract),
{
    AttrKeyDef {
        key,
        faces,
        general: true,
        value: Some(value),
        vocab: None,
        contract,
        supply_voltage: false,
        arity: AttrKeyArity::Single,
        element: None,
    }
}

// ---------------------------------------------------------------------------
// The dictionary
// ---------------------------------------------------------------------------

/// The dictionary, row by row.
pub open spec fn attr_table() -> Seq<KeyModel> {
    seq![
        row_m("this"@, faces_body_m(), false),
        row_m("pins"@, faces_body_m(), false),
        vocab_row_m(KEY_ROLE@, faces_body_pin_m(), false, VocabModel::Words(role_words_m())),
        row_m("func"@, faces_body_m(), false),
        row_m(KEY_RETURN@, faces_body_m(), false),
        row_m("in"@, faces_body_m(), false),
        row_m("out"@, faces_body_m(), false),
        row_m("io"@, faces_body_m(), false),
        row_m("psrc"@, faces_body_m(), false),
        row_m("psnk"@, faces_body_m(), false),
        row_m("psbi"@, faces_body_m(), false),
        row_m("nc"@, faces_body_m(), false),
        row_m("if"@, faces_body_m(), false),
        row_m("else"@, faces_body_m(), false),
        row_m("spec"@, faces_body_m(), true),
        value_row_m("name"@, faces_body_m(), AttrValueKind::Text),
        value_row_m("description"@, faces_body_m(), AttrValueKind::Text),
        value_row_m("partno"@, faces_body_m(), AttrValueKind::Text),
        value_row_m("package"@, faces_body_m(), AttrValueKind::Text),
        value_row_m("manufacturer"@, faces_body_m(), AttrValueKind::Text),
        vocab_row_m(KEY_CLASS@, faces_body_pin_m(), true, VocabModel::Words(class_words_m())),
        vocab_row_m(KEY_NATURE@, faces_body_m(), true, VocabModel::Words(nature_words_m())),
        vocab_row_m(KEY_NOISE@, faces_body_m(), true, VocabModel::Words(noise_words_m())),
        vocab_row_m(KEY_EXPOSED@, faces_body_m(), true, VocabModel::Words(exposed_words_m())),
        vocab_row_m(KEY_BIND_ROLE@, faces_body_m(), true, VocabModel::Words(role_words_m())),
        vocab_row_m(KEY_STAR@, faces_body_m(), true, VocabModel::Flag),
        vocab_row_m(KEY_PROTECT@, faces_body_m(), true, VocabModel::Words(protect_words_m())),
        voltage_row_m("voltage"@, faces_body_pin_iface_m(), Some(AttrValueKind::Quantity(McUnit::Volt))),
        voltage_row_m("volt"@, faces_pin_m(), Some(AttrValueKind::Quantity(McUnit::Volt))),
        voltage_row_m("power"@, faces_body_m(), Some(AttrValueKind::Quantity(McUnit::Wat))),
        voltage_row_m("vcc"@, faces_body_m(), None),
        voltage_row_m("vdd"@, faces_body_m(), None),
        voltage_row_m("vss"@, faces_body_m(), None),
        voltage_row_m("supply"@, faces_body_m(), None),
        voltage_row_m("operating_voltage"@, faces_body_m(), None),
        voltage_row_m("input_voltage"@, faces_body_m(), None),
        voltage_row_m("output_voltage"@, faces_body_m(), None),
        voltage_row_m("vrange"@, faces_body_m(), None),
        element_row_m("spec.resistance"@, faces_spec_m(), AttrValueKind::Quantity(McUnit::Ohm), ElementClass::Resistive),
        element_row_m("spec.impedance"@, faces_spec_m(), AttrValueKind::Quantity(McUnit::Ohm), ElementClass::Magnetic),
        value_row_m("spec.esr"@, faces_spec_m(), AttrValueKind::Quantity(McUnit::Ohm)),
        value_row_m("spec.voltage"@, faces_spec_m(), AttrValueKind::Quantity(McUnit::Volt)),
        value_row_m("spec.HBM"@, faces_spec_m(), AttrValueKind::Quantity(McUnit::Volt)),
        element_row_m("spec.capacitance"@, faces_spec_m(), AttrValueKind::Quantity(McUnit::Cap), ElementClass::Capacitive),
        element_row_m("spec.inductance"@, faces_spec_m(), AttrValueKind::Quantity(McUnit::Ind), ElementClass::Magnetic),
        value_row_m("spec.current"@, faces_spec_m(), AttrValueKind::Quantity(McUnit::Amp)),
        value_row_m("spec.rated_current"@, faces_spec_m(), AttrValueKind::Quantity(McUnit::Amp)),
        value_row_m("spec.sat_current"@, faces_spec_m(), AttrValueKind::Quantity(McUnit::Amp)),
        value_row_m("spec.ripple_rated"@, faces_spec_m(), AttrValueKind::Quantity(McUnit::Amp)),
        value_row_m("spec.frequency"@, faces_spec_m(), AttrValueKind::Quantity(McUnit::Hz)),
        value_row_m("spec.test_frequency"@, faces_spec_m(), AttrValueKind::Quantity(McUnit::Hz)),
        value_row_m("spec.power"@, faces_spec_m(), AttrValueKind::Quantity(McUnit::Wat)),
        value_row_m("spec.power_rated"@, faces_spec_m(), AttrValueKind::Quantity(McUnit::Wat)),
        value_row_m("spec.capacity"@, faces_spec_m(), AttrValueKind::Quantity(McUnit::Charge)),
        value_row_m("spec.tolerance"@, faces_spec_m(), AttrValueKind::Quantity(McUnit::Percent)),
        value_row_m("spec.accuracy"@, faces_spec_m(), AttrValueKind::Quantity(McUnit::Percent)),
        value_row_m("spec.temp_min"@, faces_spec_m(), AttrValueKind::Quantity(McUnit::Temp)),
        value_row_m("spec.temp_max"@, faces_spec_m(), AttrValueKind::Quantity(McUnit::Temp)),
        value_row_m("spec.life_hours"@, faces_spec_m(), AttrValueKind::Quantity(McUnit::Time)),
        value_row_m("spec.length"@, faces_spec_m(), AttrValueKind::Quantity(McUnit::Len)),
        value_row_m("spec.dielectric"@, faces_spec_m(), AttrValueKind::Text),
        value_row_m("spec.construction"@, faces_spec_m(), AttrValueKind::Text),
        value_row_m("spec.polarized"@, faces_spec_m(), AttrValueKind::Text),
        value_row_m("spec.safety_class"@, faces_spec_m(), AttrValueKind::Text),
        value_row_m("spec.rohs"@, faces_spec_m(), AttrValueKind::Text),
        value_row_m("spec.derating_note"@, faces_spec_m(), AttrValueKind::Text),
        contract_row_m("spec.input_req"@, faces_spec_m(), AttrValueKind::Quantity(McUnit::Volt), AttrContract::Demand),
        contract_row_m("spec.output"@, faces_spec_m(), AttrValueKind::Quantity(McUnit::Volt), AttrContract::Supply),
        contract_row_m("receiver"@, faces_iface_m(), AttrValueKind::Quantity(McUnit::Volt), AttrContract::Demand),
        contract_row_m("output"@, faces_iface_m(), AttrValueKind::Quantity(McUnit::Volt), AttrContract::Supply),
        value_row_m("diff_pair"@, faces_iface_m(), AttrValueKind::Text),
    ]
}

/// The dictionary rows, in table order.
pub fn attr_keys() -> (r: Vec<AttrKeyDef>)
    ensures
        key_models(r@) == attr_table(),
{
    let v: Vec<AttrKeyDef> = vec![
        row("this", faces_body(), false),
        row("pins", faces_body(), false),
        vocab_row(KEY_ROLE, faces_body_pin(), false, AttrVocab::Words(role_words())),
        row("func", faces_body(), false),
        row(KEY_RETURN, faces_body(), false),
        row("in", faces_body(), false),
        row("out", faces_body(), false),
        row("io", faces_body(), false),
        row("psrc", faces_body(), false),
        row("psnk", faces_body(), false),
        row("psbi", faces_body(), false),
        row("nc", faces_body(), false),
        row("if", faces_body(), false),
        row("else", faces_body(), false),
        row("spec", faces_body(), true),
        value_row("name", faces_body(), AttrValueKind::Text),
        value_row("description", faces_body(), AttrValueKind::Text),
        value_row("partno", faces_body(), AttrValueKind::Text),
        value_row("package", faces_body(), AttrValueKind::Text),
        value_row("manufacturer", faces_body(), AttrValueKind::Text),
        vocab_row(KEY_CLASS, faces_body_pin(), true, AttrVocab::Words(class_words())),
        vocab_row(KEY_NATURE, faces_body(), true, AttrVocab::Words(nature_words())),
        vocab_row(KEY_NOISE, faces_body(), true, AttrVocab::Words(noise_words())),
        vocab_row(KEY_EXPOSED, faces_body(), true, AttrVocab::Words(exposed_words())),
        vocab_row(KEY_BIND_ROLE, faces_body(), true, AttrVocab::Words(role_words())),
        vocab_row(KEY_STAR, faces_body(), true, AttrVocab::Flag),
        vocab_row(KEY_PROTECT, faces_body(), true, AttrVocab::Words(protect_words())),
        voltage_row("voltage", faces_body_pin_iface(), Some(AttrValueKind::Quantity(McUnit::Volt))),
        voltage_row("volt", faces_pin(), Some(AttrValueKind::Quantity(McUnit::Volt))),
        voltage_row("power", faces_body(), Some(AttrValueKind::Quantity(McUnit::Wat))),
        voltage_row("vcc", faces_body(), None),
        voltage_row("vdd", faces_body(), None),
        voltage_row("vss", faces_body(), None),
        voltage_row("supply", faces_body(), None),
        voltage_row("operating_voltage", faces_body(), None),
        voltage_row("input_voltage", faces_body(), None),
        voltage_row("output_voltage", faces_body(), None),
        voltage_row("vrange", faces_body(), None),
        element_row("spec.resistance", faces_spec(), AttrValueKind::Quantity(McUnit::Ohm), ElementClass::Resistive),
        element_row("spec.impedance", faces_spec(), AttrValueKind::Quantity(McUnit::Ohm), ElementClass::Magnetic),
        value_row("spec.esr", faces_spec(), AttrValueKind::Quantity(McUnit::Ohm)),
        value_row("spec.voltage", faces_spec(), AttrValueKind::Quantity(McUnit::Volt)),
        value_row("spec.HBM", faces_spec(), AttrValueKind::Quantity(McUnit::Volt)),
        element_row("spec.capacitance", faces_spec(), AttrValueKind::Quantity(McUnit::Cap), ElementClass::Capacitive),
        element_row("spec.inductance", faces_spec(), AttrValueKind::Quantity(McUnit::Ind), ElementClass::Magnetic),
        value_row("spec.current", faces_spec(), AttrValueKind::Quantity(McUnit::Amp)),
        value_row("spec.rated_current", faces_spec(), AttrValueKind::Quantity(McUnit::Amp)),
        value_row("spec.sat_current", faces_spec(), AttrValueKind::Quantity(McUnit::Amp)),
        value_row("spec.ripple_rated", faces_spec(), AttrValueKind::Quantity(McUnit::Amp)),
        value_row("spec.frequency", faces_spec(), AttrValueKind::Quantity(McUnit::Hz)),
        value_row("spec.test_frequency", faces_spec(), AttrValueKind::Quantity(McUnit::Hz)),
        value_row("spec.power", faces_spec(), AttrValueKind::Quantity(McUnit::Wat)),
        value_row("spec.power_rated", faces_spec(), AttrValueKind::Quantity(McUnit::Wat)),
        value_row("spec.capacity", faces_spec(), AttrValueKind::Quantity(McUnit::Charge)),
        value_row("spec.tolerance", faces_spec(), AttrValueKind::Quantity(McUnit::Percent)),
        value_row("spec.accuracy", faces_spec(), AttrValueKind::Quantity(McUnit::Percent)),
        value_row("spec.temp_min", faces_spec(), AttrValueKind::Quantity(McUnit::Temp)),
        value_row("spec.temp_max", faces_spec(), AttrValueKind::Quantity(McUnit::Temp)),
        value_row("spec.life_hours", faces_spec(), AttrValueKind::Quantity(McUnit::Time)),
        value_row("spec.length", faces_spec(), AttrValueKind::Quantity(McUnit::Len)),
        value_row("spec.dielectric", faces_spec(), AttrValueKind::Text),
        value_row("spec.construction", faces_spec(), AttrValueKind::Text),
        value_row("spec.polarized", faces_spec(), AttrValueKind::Text),
        value_row("spec.safety_class", faces_spec(), AttrValueKind::Text),
        value_row("spec.rohs", faces_spec(), AttrValueKind::Text),
        value_row("spec.derating_note", faces_spec(), AttrValueKind::Text),
        contract_row("spec.input_req", faces_spec(), AttrValueKind::Quantity(McUnit::Volt), AttrContract::Demand),
        contract_row("spec.output", faces_spec(), AttrValueKind::Quantity(McUnit::Volt), AttrContract::Supply),
        contract_row("receiver", faces_iface(), AttrValueKind::Quantity(McUnit::Volt), AttrContract::Demand),
        contract_row("output", faces_iface(), AttrValueKind::Quantity(McUnit::Volt), AttrContract::Supply),
        value_row("diff_pair", faces_iface(), AttrValueKind::Text),
    ];
    assert(key_models(v@) =~= attr_table());
    v
}


// ---------------------------------------------------------------------------
// Readers
// ---------------------------------------------------------------------------

/// The first row of `t` registered under exactly `key`.
pub open spec fn first_key(t: Seq<KeyModel>, key: Seq<char>) -> Option<KeyModel>
    decreases t.len(),
{
    if t.len() == 0 {
        None
    } else if t[0].key == key {
        Some(t[0])
    } else {
        first_key(t.drop_first(), key)
    }
}

/// The row registered under exactly `key`.
pub open spec fn row_of(key: Seq<char>) -> Option<KeyModel> {
    first_key(attr_table(), key)
}

/// Look up one key in the dictionary: exact and whole, no case folding.
pub fn lookup(key: &str) -> (r: Option<AttrKeyDef>)
    ensures
        match r {
            Some(d) => row_of(key@) == Some(d@),
            None => row_of(key@) is None,
        },
{
    let t = attr_keys();
    let mut i: usize = 0;
    assert(key_models(t@).skip(0) =~= key_models(t@));
    while i < t.len()
        invariant
            0 <= i <= t@.len(),
            key_models(t@) == attr_table(),
            row_of(key@) == first_key(key_models(t@).skip(i as int), key@),
        decreases t@.len() - i,
    {
        assert(key_models(t@).skip(i as int).drop_first() =~= key_models(t@).skip(i + 1));
        assert(key_models(t@).skip(i as int)[0] == t@[i as int]@);
        if str_eq(t[i].key, key) {
            return Some(t[i]);
        }
        i += 1;
    }
    None
}

/// Which kind of value does `key` hold? `None` for a key with no row or
/// no registered kind.
pub fn value_kind(key: &str) -> (r: Option<AttrValueKind>)
    ensures
        r == (match row_of(key@) {
            Some(m) => m.value,
            None => None,
        }),
{
    match lookup(key) {
        Some(d) => d.value,
        None => None,
    }
}

/// How many declarations of `key` one attribute list may hold; an
/// unregistered key is single, and so is every registered one.
pub fn arity_of(key: &str) -> (r: AttrKeyArity)
    ensures
        r == (match row_of(key@) {
            Some(m) => m.arity,
            None => AttrKeyArity::Single,
        }),
        r == AttrKeyArity::Single,
{
    proof {
        lemma_every_key_is_single(key@);
    }
    match lookup(key) {
        Some(d) => d.arity,
        None => AttrKeyArity::Single,
    }
}

/// What does this key's presence mark the element as?
pub fn element_of_key(key: &str) -> (r: Option<ElementClass>)
    ensures
        r == (match row_of(key@) {
            Some(m) => m.element,
            None => None,
        }),
{
    match lookup(key) {
        Some(d) => d.element,
        None => None,
    }
}

/// [`element_of_key`] asked with a `spec` sub-key as the body writes it
/// (`capacitance`): the registered path `spec.<sub>` is built here.
pub fn element_of_spec_key(sub: &str) -> (r: Option<ElementClass>)
    ensures
        r == (match row_of("spec."@ + sub@) {
            Some(m) => m.element,
            None => None,
        }),
{
    let mut path = crate::text::owned("spec.");
    push_str(&mut path, sub);
    element_of_key(path.as_str())
}

/// The closed word set `key`'s values must come from, where one is
/// registered.
pub fn vocab_of(key: &str) -> (r: Option<AttrVocab>)
    ensures
        match r {
            Some(v) => (match row_of(key@) {
                Some(m) => m.vocab == Some(v@),
                None => false,
            }),
            None => (match row_of(key@) {
                Some(m) => m.vocab is None,
                None => true,
            }),
        },
{
    match lookup(key) {
        Some(d) => d.vocab,
        None => None,
    }
}

/// Whether `p` begins `s`.
pub open spec fn starts_with(s: Seq<char>, p: Seq<char>) -> bool {
    p.len() <= s.len() && s.take(p.len() as int) == p
}

/// `key` opens a value-table namespace: some `spec`-face row is registered
/// under the path `key.`.
pub open spec fn table_namespace(key: Seq<char>) -> bool {
    exists|i: int|
        0 <= i < attr_table().len() && (#[trigger] attr_table()[i]).faces.contains(AttrFace::Spec)
            && starts_with(attr_table()[i].key, key.push('.'))
}

fn faces_contain(faces: &[AttrFace], face: AttrFace) -> (r: bool)
    ensures
        r == faces@.contains(face),
{
    let mut i: usize = 0;
    while i < faces.len()
        invariant
            0 <= i <= faces@.len(),
            forall|j: int| 0 <= j < i ==> faces@[j] != face,
        decreases faces@.len() - i,
    {
        if faces[i] == face {
            return true;
        }
        i += 1;
    }
    false
}

fn chars_start_with(s: &[char], p: &[char]) -> (r: bool)
    ensures
        r == starts_with(s@, p@),
{
    if p.len() > s.len() {
        return false;
    }
    let mut i: usize = 0;
    while i < p.len()
        invariant
            0 <= i <= p@.len() <= s@.len(),
            forall|j: int| 0 <= j < i ==> s@[j] == p@[j],
        decreases p@.len() - i,
    {
        if s[i] != p[i] {
            assert(s@.take(p@.len() as int)[i as int] != p@[i as int]);
            return false;
        }
        i += 1;
    }
    assert(s@.take(p@.len() as int) =~= p@);
    true
}

/// Does `key` open a value-table namespace, a name the dictionary registers
/// `spec`-face rows under by path?
pub fn is_table_namespace(key: &str) -> (r: bool)
    ensures
        r == table_namespace(key@),
{
    let mut pv = chars_of(key);
    pv.push('.');
    let t = attr_keys();
    let mut i: usize = 0;
    while i < t.len()
        invariant
            0 <= i <= t@.len(),
            key_models(t@) == attr_table(),
            pv@ == key@.push('.'),
            forall|j: int|
                0 <= j < i ==> !((#[trigger] attr_table()[j]).faces.contains(AttrFace::Spec)
                    && starts_with(attr_table()[j].key, key@.push('.'))),
        decreases t@.len() - i,
    {
        assert(attr_table()[i as int] == t@[i as int]@);
        let kc = chars_of(t[i].key);
        if faces_contain(t[i].faces, AttrFace::Spec) && chars_start_with(kc.as_slice(), pv.as_slice()) {
            return true;
        }
        i += 1;
    }
    false
}

/// Is `key` reserved in attribute position (registered, not general)?
pub fn is_reserved(key: &str) -> (r: bool)
    ensures
        r == (match row_of(key@) {
            Some(m) => !m.general,
            None => false,
        }),
{
    match lookup(key) {
        Some(d) => !d.general,
        None => false,
    }
}

/// Is `key` a registered attribute key? Reserved words count as known.
pub fn is_known_key(key: &str) -> (r: bool)
    ensures
        r == row_of(key@) is Some,
{
    lookup(key).is_some()
}

/// Does `key` name a supply voltage, written in `face`? Matched exactly,
/// and only against the rows registered for `face`.
pub fn is_voltage_key(key: &str, face: AttrFace) -> (r: bool)
    ensures
        r == (match row_of(key@) {
            Some(m) => m.supply_voltage && m.faces.contains(face),
            None => false,
        }),
{
    match lookup(key) {
        Some(d) => d.supply_voltage && faces_contain(d.faces, face),
        None => false,
    }
}

// ---------------------------------------------------------------------------
// Laws of the dictionary
// ---------------------------------------------------------------------------

/// A key that decides an element's class is a `spec` key, and the same row
/// registers the quantity it is: the class is read from the declaration,
/// never from a name.
pub proof fn lemma_class_keys_are_spec_quantities()
    ensures
        forall|i: int|
            0 <= i < attr_table().len() && (#[trigger] attr_table()[i]).element is Some ==> {
                &&& attr_table()[i].faces == faces_spec_m()
                &&& attr_table()[i].value matches Some(AttrValueKind::Quantity(_))
                &&& attr_table()[i].general
            },
{
}

/// A key with a closed vocabulary registers no value kind and no class.
pub proof fn lemma_vocab_keys_are_words()
    ensures
        forall|i: int|
            0 <= i < attr_table().len() && (#[trigger] attr_table()[i]).vocab is Some ==> {
                &&& attr_table()[i].value is None
                &&& attr_table()[i].element is None
            },
{
}

/// Every contract half is a voltage window.
pub proof fn lemma_contract_halves_are_voltages()
    ensures
        forall|i: int|
            0 <= i < attr_table().len() && (#[trigger] attr_table()[i]).contract
                != AttrContract::Plain ==> attr_table()[i].value == Some(
                AttrValueKind::Quantity(McUnit::Volt),
            ),
{
}

/// No row claims repeated declarations: every registered key is single,
/// as every unregistered one is.
pub proof fn lemma_every_key_is_single(key: Seq<char>)
    ensures
        (match row_of(key) {
            Some(m) => m.arity,
            None => AttrKeyArity::Single,
        }) == AttrKeyArity::Single,
{
    lemma_rows_single(attr_table(), key);
}

proof fn lemma_rows_single(t: Seq<KeyModel>, key: Seq<char>)
    requires
        forall|i: int| 0 <= i < t.len() ==> (#[trigger] t[i]).arity == AttrKeyArity::Single,
    ensures
        (match first_key(t, key) {
            Some(m) => m.arity,
            None => AttrKeyArity::Single,
        }) == AttrKeyArity::Single,
    decreases t.len(),
{
    if t.len() > 0 {
        assert forall|i: int| 0 <= i < t.drop_first().len() implies (#[trigger] t.drop_first()[i]).arity
            == AttrKeyArity::Single by {
            assert(t.drop_first()[i] == t[i + 1]);
        }
        lemma_rows_single(t.drop_first(), key);
    }
}

/// A reserved key is a known key.
pub proof fn lemma_reserved_is_known(key: Seq<char>)
    ensures
        (match row_of(key) {
            Some(m) => !m.general,
            None => false,
        }) ==> row_of(key) is Some,
{
}

} // verus!
