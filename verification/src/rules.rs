//! Rule registry: one declarative ledger for every check rule. Each scope
//! (flattened-net ERC, declaration, assembly gate, post-parse) keeps one
//! ordered table whose order is the execution order; the catalog queries
//! (by code, scope, filter axes, gate tag, lock anchor) read the four tables
//! concatenated in that order.
use vstd::prelude::*;
use crate::text::{
    ascii_lower, chars_eq, chars_of, lemma_normal_form_is_stable, lemma_plain_text_is_normal,
    lower_chars, str_eq, trim_chars, trimmed,
};

verus! {

// ---------------------------------------------------------------------------
// Axes
// ---------------------------------------------------------------------------

/// Severity of a diagnostic.
#[derive(Debug, Clone, Copy, PartialEq, Eq, Structural)]
pub enum CheckSeverity {
    Error,
    Warning,
    Info,
}

/// Execution scope: which stage runner owns the rule.
#[derive(Debug, Clone, Copy, PartialEq, Eq, Structural)]
pub enum RuleScope {
    /// Semantic validation before flattening.
    PostParse,
    /// Report checks gating the visual build.
    AssemblyGate,
    /// Flattened-net ERC truth.
    FlatErc,
    /// Pin/declaration semantics.
    Declaration,
    /// Layout checks; registered only, run by the layout pipeline.
    VizLayout,
}

/// Content (domain) axis.
#[derive(Debug, Clone, Copy, PartialEq, Eq, Structural)]
pub enum RuleDomain {
    Connectivity,
    Power,
    BusHierarchy,
    PinDecl,
    IO,
    SignalIntegrity,
    Structure,
    NamingStyle,
    Duplicate,
    RefIntegrity,
    Rating,
}

/// Ownership plane: which layer owns the rule.
#[derive(Debug, Clone, Copy, PartialEq, Eq, Structural)]
pub enum RulePlane {
    CoreMechanism,
    DomainPackage,
    SimFulfillment,
}

/// Acceptance reading: legal compliance, contract, or fulfilled intent.
#[derive(Debug, Clone, Copy, PartialEq, Eq, Structural)]
pub enum Acceptance {
    Legal,
    Contract,
    Fulfillment,
}

/// Where results go.
#[derive(Debug, Clone, Copy, PartialEq, Eq, Structural)]
pub enum RuleSink {
    Envelope,
    GateReport,
    OwnedStore,
}

/// Whether a firing blocks the build.
#[derive(Debug, Clone, Copy, PartialEq, Eq, Structural)]
pub enum GateKind {
    Advisory,
    Blocking,
}

/// How often the rule runs.
#[derive(Debug, Clone, Copy, PartialEq, Eq, Structural)]
pub enum Cadence {
    PerCircuit,
    Incremental,
}

/// Machine-actionable follow-up a fired rule carries.
#[derive(Debug, Clone, Copy, PartialEq, Eq, Structural)]
pub enum FixKind {
    /// No machine quick-fix; the diagnostic text is the whole payload.
    NoFix,
    /// A deterministic source edit.
    QuickFix,
    /// A suggested follow-up surfaced as a diagnostic suggestion.
    Suggestion,
}

impl Default for FixKind {
    fn default() -> (r: FixKind)
        ensures
            r == FixKind::NoFix,
    {
        FixKind::NoFix
    }
}

/// Gate of a severity: errors block the build, every other level is advisory.
pub open spec fn gate_of(severity: CheckSeverity) -> GateKind {
    match severity {
        CheckSeverity::Error => GateKind::Blocking,
        _ => GateKind::Advisory,
    }
}

/// Default gate for a severity: error-level rules block the build, anything
/// softer is advisory.
pub fn gate_for(severity: CheckSeverity) -> (r: GateKind)
    ensures
        r == gate_of(severity),
{
    match severity {
        CheckSeverity::Error => GateKind::Blocking,
        _ => GateKind::Advisory,
    }
}

// ---------------------------------------------------------------------------
// Axis names
// ---------------------------------------------------------------------------

/// A name as the axis readers see it: trimmed and ASCII lower-cased.
fn normal_name(s: &str) -> (r: Vec<char>)
    ensures
        r@ == ascii_lower(trimmed(s@)),
{
    let c = chars_of(s);
    let t = trim_chars(c.as_slice());
    lower_chars(t.as_slice())
}

/// Whether a character list spells a word.
fn spells(v: &Vec<char>, w: &str) -> (r: bool)
    ensures
        r == (v@ == w@),
{
    let c = chars_of(w);
    chars_eq(v.as_slice(), c.as_slice())
}

impl RuleScope {
    /// The kebab-case name of the value.
    pub open spec fn spelling(self) -> Seq<char> {
        match self {
            RuleScope::PostParse => "post-parse"@,
            RuleScope::AssemblyGate => "assembly-gate"@,
            RuleScope::FlatErc => "flat-erc"@,
            RuleScope::Declaration => "declaration"@,
            RuleScope::VizLayout => "viz-layout"@,
        }
    }

    /// The value a trimmed, lower-cased name spells (kebab-case or run
    /// together), if any.
    pub open spec fn parse_name(t: Seq<char>) -> Option<RuleScope> {
        if t == "post-parse"@ || t == "postparse"@ {
            Some(RuleScope::PostParse)
        } else if t == "assembly-gate"@ || t == "assemblygate"@ {
            Some(RuleScope::AssemblyGate)
        } else if t == "flat-erc"@ || t == "flaterc"@ {
            Some(RuleScope::FlatErc)
        } else if t == "declaration"@ || t == "decl"@ {
            Some(RuleScope::Declaration)
        } else if t == "viz-layout"@ || t == "vizlayout"@ {
            Some(RuleScope::VizLayout)
        } else {
            None
        }
    }

    /// Kebab-case name of the value.
    pub fn as_str(self) -> (r: &'static str)
        ensures
            r@ == self.spelling(),
    {
        match self {
            RuleScope::PostParse => "post-parse",
            RuleScope::AssemblyGate => "assembly-gate",
            RuleScope::FlatErc => "flat-erc",
            RuleScope::Declaration => "declaration",
            RuleScope::VizLayout => "viz-layout",
        }
    }

    /// Read a value from its name, ignoring surrounding blanks and ASCII
    /// case; either the kebab-case or the run-together spelling.
    pub fn from_name(s: &str) -> (r: Option<RuleScope>)
        ensures
            r == RuleScope::parse_name(ascii_lower(trimmed(s@))),
    {
        let t = normal_name(s);
        if spells(&t, "post-parse") || spells(&t, "postparse") {
            Some(RuleScope::PostParse)
        } else if spells(&t, "assembly-gate") || spells(&t, "assemblygate") {
            Some(RuleScope::AssemblyGate)
        } else if spells(&t, "flat-erc") || spells(&t, "flaterc") {
            Some(RuleScope::FlatErc)
        } else if spells(&t, "declaration") || spells(&t, "decl") {
            Some(RuleScope::Declaration)
        } else if spells(&t, "viz-layout") || spells(&t, "vizlayout") {
            Some(RuleScope::VizLayout)
        } else {
            None
        }
    }
}

impl RuleDomain {
    /// The kebab-case name of the value.
    pub open spec fn spelling(self) -> Seq<char> {
        match self {
            RuleDomain::Connectivity => "connectivity"@,
            RuleDomain::Power => "power"@,
            RuleDomain::BusHierarchy => "bus-hierarchy"@,
            RuleDomain::PinDecl => "pin-decl"@,
            RuleDomain::IO => "io"@,
            RuleDomain::SignalIntegrity => "signal-integrity"@,
            RuleDomain::Structure => "structure"@,
            RuleDomain::NamingStyle => "naming-style"@,
            RuleDomain::Duplicate => "duplicate"@,
            RuleDomain::RefIntegrity => "ref-integrity"@,
            RuleDomain::Rating => "rating"@,
        }
    }

    /// The value a trimmed, lower-cased name spells (kebab-case or run
    /// together), if any.
    pub open spec fn parse_name(t: Seq<char>) -> Option<RuleDomain> {
        if t == "connectivity"@ {
            Some(RuleDomain::Connectivity)
        } else if t == "power"@ {
            Some(RuleDomain::Power)
        } else if t == "bus-hierarchy"@ || t == "bushierarchy"@ {
            Some(RuleDomain::BusHierarchy)
        } else if t == "pin-decl"@ || t == "pindecl"@ {
            Some(RuleDomain::PinDecl)
        } else if t == "io"@ {
            Some(RuleDomain::IO)
        } else if t == "signal-integrity"@ || t == "signalintegrity"@ {
            Some(RuleDomain::SignalIntegrity)
        } else if t == "structure"@ {
            Some(RuleDomain::Structure)
        } else if t == "naming-style"@ || t == "namingstyle"@ {
            Some(RuleDomain::NamingStyle)
        } else if t == "duplicate"@ {
            Some(RuleDomain::Duplicate)
        } else if t == "ref-integrity"@ || t == "refintegrity"@ {
            Some(RuleDomain::RefIntegrity)
        } else if t == "rating"@ {
            Some(RuleDomain::Rating)
        } else {
            None
        }
    }

    /// Kebab-case name of the value.
    pub fn as_str(self) -> (r: &'static str)
        ensures
            r@ == self.spelling(),
    {
        match self {
            RuleDomain::Connectivity => "connectivity",
            RuleDomain::Power => "power",
            RuleDomain::BusHierarchy => "bus-hierarchy",
            RuleDomain::PinDecl => "pin-decl",
            RuleDomain::IO => "io",
            RuleDomain::SignalIntegrity => "signal-integrity",
            RuleDomain::Structure => "structure",
            RuleDomain::NamingStyle => "naming-style",
            RuleDomain::Duplicate => "duplicate",
            RuleDomain::RefIntegrity => "ref-integrity",
            RuleDomain::Rating => "rating",
        }
    }

    /// Read a value from its name, ignoring surrounding blanks and ASCII
    /// case; either the kebab-case or the run-together spelling.
    pub fn from_name(s: &str) -> (r: Option<RuleDomain>)
        ensures
            r == RuleDomain::parse_name(ascii_lower(trimmed(s@))),
    {
        let t = normal_name(s);
        if spells(&t, "connectivity") {
            Some(RuleDomain::Connectivity)
        } else if spells(&t, "power") {
            Some(RuleDomain::Power)
        } else if spells(&t, "bus-hierarchy") || spells(&t, "bushierarchy") {
            Some(RuleDomain::BusHierarchy)
        } else if spells(&t, "pin-decl") || spells(&t, "pindecl") {
            Some(RuleDomain::PinDecl)
        } else if spells(&t, "io") {
            Some(RuleDomain::IO)
        } else if spells(&t, "signal-integrity") || spells(&t, "signalintegrity") {
            Some(RuleDomain::SignalIntegrity)
        } else if spells(&t, "structure") {
            Some(RuleDomain::Structure)
        } else if spells(&t, "naming-style") || spells(&t, "namingstyle") {
            Some(RuleDomain::NamingStyle)
        } else if spells(&t, "duplicate") {
            Some(RuleDomain::Duplicate)
        } else if spells(&t, "ref-integrity") || spells(&t, "refintegrity") {
            Some(RuleDomain::RefIntegrity)
        } else if spells(&t, "rating") {
            Some(RuleDomain::Rating)
        } else {
            None
        }
    }
}

impl RulePlane {
    /// The kebab-case name of the value.
    pub open spec fn spelling(self) -> Seq<char> {
        match self {
            RulePlane::CoreMechanism => "core-mechanism"@,
            RulePlane::DomainPackage => "domain-package"@,
            RulePlane::SimFulfillment => "sim-fulfillment"@,
        }
    }

    /// The value a trimmed, lower-cased name spells (kebab-case or run
    /// together), if any.
    pub open spec fn parse_name(t: Seq<char>) -> Option<RulePlane> {
        if t == "core-mechanism"@ || t == "coremechanism"@ {
            Some(RulePlane::CoreMechanism)
        } else if t == "domain-package"@ || t == "domainpackage"@ {
            Some(RulePlane::DomainPackage)
        } else if t == "sim-fulfillment"@ || t == "simfulfillment"@ {
            Some(RulePlane::SimFulfillment)
        } else {
            None
        }
    }

    /// Kebab-case name of the value.
    pub fn as_str(self) -> (r: &'static str)
        ensures
            r@ == self.spelling(),
    {
        match self {
            RulePlane::CoreMechanism => "core-mechanism",
            RulePlane::DomainPackage => "domain-package",
            RulePlane::SimFulfillment => "sim-fulfillment",
        }
    }

    /// Read a value from its name, ignoring surrounding blanks and ASCII
    /// case; either the kebab-case or the run-together spelling.
    pub fn from_name(s: &str) -> (r: Option<RulePlane>)
        ensures
            r == RulePlane::parse_name(ascii_lower(trimmed(s@))),
    {
        let t = normal_name(s);
        if spells(&t, "core-mechanism") || spells(&t, "coremechanism") {
            Some(RulePlane::CoreMechanism)
        } else if spells(&t, "domain-package") || spells(&t, "domainpackage") {
            Some(RulePlane::DomainPackage)
        } else if spells(&t, "sim-fulfillment") || spells(&t, "simfulfillment") {
            Some(RulePlane::SimFulfillment)
        } else {
            None
        }
    }
}

impl Acceptance {
    /// The kebab-case name of the value.
    pub open spec fn spelling(self) -> Seq<char> {
        match self {
            Acceptance::Legal => "legal"@,
            Acceptance::Contract => "contract"@,
            Acceptance::Fulfillment => "fulfillment"@,
        }
    }

    /// The value a trimmed, lower-cased name spells (kebab-case or run
    /// together), if any.
    pub open spec fn parse_name(t: Seq<char>) -> Option<Acceptance> {
        if t == "legal"@ {
            Some(Acceptance::Legal)
        } else if t == "contract"@ {
            Some(Acceptance::Contract)
        } else if t == "fulfillment"@ {
            Some(Acceptance::Fulfillment)
        } else {
            None
        }
    }

    /// Kebab-case name of the value.
    pub fn as_str(self) -> (r: &'static str)
        ensures
            r@ == self.spelling(),
    {
        match self {
            Acceptance::Legal => "legal",
            Acceptance::Contract => "contract",
            Acceptance::Fulfillment => "fulfillment",
        }
    }

    /// Read a value from its name, ignoring surrounding blanks and ASCII
    /// case; either the kebab-case or the run-together spelling.
    pub fn from_name(s: &str) -> (r: Option<Acceptance>)
        ensures
            r == Acceptance::parse_name(ascii_lower(trimmed(s@))),
    {
        let t = normal_name(s);
        if spells(&t, "legal") {
            Some(Acceptance::Legal)
        } else if spells(&t, "contract") {
            Some(Acceptance::Contract)
        } else if spells(&t, "fulfillment") {
            Some(Acceptance::Fulfillment)
        } else {
            None
        }
    }
}

impl RuleSink {
    /// The kebab-case name of the value.
    pub open spec fn spelling(self) -> Seq<char> {
        match self {
            RuleSink::Envelope => "envelope"@,
            RuleSink::GateReport => "gate-report"@,
            RuleSink::OwnedStore => "owned-store"@,
        }
    }

    /// The value a trimmed, lower-cased name spells (kebab-case or run
    /// together), if any.
    pub open spec fn parse_name(t: Seq<char>) -> Option<RuleSink> {
        if t == "envelope"@ {
            Some(RuleSink::Envelope)
        } else if t == "gate-report"@ || t == "gatereport"@ {
            Some(RuleSink::GateReport)
        } else if t == "owned-store"@ || t == "ownedstore"@ {
            Some(RuleSink::OwnedStore)
        } else {
            None
        }
    }

    /// Kebab-case name of the value.
    pub fn as_str(self) -> (r: &'static str)
        ensures
            r@ == self.spelling(),
    {
        match self {
            RuleSink::Envelope => "envelope",
            RuleSink::GateReport => "gate-report",
            RuleSink::OwnedStore => "owned-store",
        }
    }

    /// Read a value from its name, ignoring surrounding blanks and ASCII
    /// case; either the kebab-case or the run-together spelling.
    pub fn from_name(s: &str) -> (r: Option<RuleSink>)
        ensures
            r == RuleSink::parse_name(ascii_lower(trimmed(s@))),
    {
        let t = normal_name(s);
        if spells(&t, "envelope") {
            Some(RuleSink::Envelope)
        } else if spells(&t, "gate-report") || spells(&t, "gatereport") {
            Some(RuleSink::GateReport)
        } else if spells(&t, "owned-store") || spells(&t, "ownedstore") {
            Some(RuleSink::OwnedStore)
        } else {
            None
        }
    }
}

impl GateKind {
    /// The kebab-case name of the value.
    pub open spec fn spelling(self) -> Seq<char> {
        match self {
            GateKind::Advisory => "advisory"@,
            GateKind::Blocking => "blocking"@,
        }
    }

    /// The value a trimmed, lower-cased name spells (kebab-case or run
    /// together), if any.
    pub open spec fn parse_name(t: Seq<char>) -> Option<GateKind> {
        if t == "advisory"@ {
            Some(GateKind::Advisory)
        } else if t == "blocking"@ {
            Some(GateKind::Blocking)
        } else {
            None
        }
    }

    /// Kebab-case name of the value.
    pub fn as_str(self) -> (r: &'static str)
        ensures
            r@ == self.spelling(),
    {
        match self {
            GateKind::Advisory => "advisory",
            GateKind::Blocking => "blocking",
        }
    }

    /// Read a value from its name, ignoring surrounding blanks and ASCII
    /// case; either the kebab-case or the run-together spelling.
    pub fn from_name(s: &str) -> (r: Option<GateKind>)
        ensures
            r == GateKind::parse_name(ascii_lower(trimmed(s@))),
    {
        let t = normal_name(s);
        if spells(&t, "advisory") {
            Some(GateKind::Advisory)
        } else if spells(&t, "blocking") {
            Some(GateKind::Blocking)
        } else {
            None
        }
    }
}

impl Cadence {
    /// The kebab-case name of the value.
    pub open spec fn spelling(self) -> Seq<char> {
        match self {
            Cadence::PerCircuit => "per-circuit"@,
            Cadence::Incremental => "incremental"@,
        }
    }

    /// The value a trimmed, lower-cased name spells (kebab-case or run
    /// together), if any.
    pub open spec fn parse_name(t: Seq<char>) -> Option<Cadence> {
        if t == "per-circuit"@ || t == "percircuit"@ {
            Some(Cadence::PerCircuit)
        } else if t == "incremental"@ {
            Some(Cadence::Incremental)
        } else {
            None
        }
    }

    /// Kebab-case name of the value.
    pub fn as_str(self) -> (r: &'static str)
        ensures
            r@ == self.spelling(),
    {
        match self {
            Cadence::PerCircuit => "per-circuit",
            Cadence::Incremental => "incremental",
        }
    }

    /// Read a value from its name, ignoring surrounding blanks and ASCII
    /// case; either the kebab-case or the run-together spelling.
    pub fn from_name(s: &str) -> (r: Option<Cadence>)
        ensures
            r == Cadence::parse_name(ascii_lower(trimmed(s@))),
    {
        let t = normal_name(s);
        if spells(&t, "per-circuit") || spells(&t, "percircuit") {
            Some(Cadence::PerCircuit)
        } else if spells(&t, "incremental") {
            Some(Cadence::Incremental)
        } else {
            None
        }
    }
}

impl FixKind {
    /// The kebab-case name of the value.
    pub open spec fn spelling(self) -> Seq<char> {
        match self {
            FixKind::NoFix => "none"@,
            FixKind::QuickFix => "quick-fix"@,
            FixKind::Suggestion => "suggestion"@,
        }
    }

    /// The value a trimmed, lower-cased name spells (kebab-case or run
    /// together), if any.
    pub open spec fn parse_name(t: Seq<char>) -> Option<FixKind> {
        if t == "none"@ {
            Some(FixKind::NoFix)
        } else if t == "quick-fix"@ || t == "quickfix"@ {
            Some(FixKind::QuickFix)
        } else if t == "suggestion"@ {
            Some(FixKind::Suggestion)
        } else {
            None
        }
    }

    /// Kebab-case name of the value.
    pub fn as_str(self) -> (r: &'static str)
        ensures
            r@ == self.spelling(),
    {
        match self {
            FixKind::NoFix => "none",
            FixKind::QuickFix => "quick-fix",
            FixKind::Suggestion => "suggestion",
        }
    }

    /// Read a value from its name, ignoring surrounding blanks and ASCII
    /// case; either the kebab-case or the run-together spelling.
    pub fn from_name(s: &str) -> (r: Option<FixKind>)
        ensures
            r == FixKind::parse_name(ascii_lower(trimmed(s@))),
    {
        let t = normal_name(s);
        if spells(&t, "none") {
            Some(FixKind::NoFix)
        } else if spells(&t, "quick-fix") || spells(&t, "quickfix") {
            Some(FixKind::QuickFix)
        } else if spells(&t, "suggestion") {
            Some(FixKind::Suggestion)
        } else {
            None
        }
    }
}

/// Every RuleScope value reads back from its own name.
pub proof fn lemma_rule_scope_names_round_trip(x: RuleScope)
    ensures
        RuleScope::parse_name(x.spelling()) == Some(x),
{
    match x {
        RuleScope::PostParse => {
        },
        RuleScope::AssemblyGate => {
            reveal_strlit("assembly-gate");
            reveal_strlit("post-parse");
            assert("assembly-gate"@.len() != "post-parse"@.len());
            reveal_strlit("postparse");
            assert("assembly-gate"@.len() != "postparse"@.len());
        },
        RuleScope::FlatErc => {
            reveal_strlit("flat-erc");
            reveal_strlit("post-parse");
            assert("flat-erc"@.len() != "post-parse"@.len());
            reveal_strlit("postparse");
            assert("flat-erc"@.len() != "postparse"@.len());
            reveal_strlit("assembly-gate");
            assert("flat-erc"@.len() != "assembly-gate"@.len());
            reveal_strlit("assemblygate");
            assert("flat-erc"@.len() != "assemblygate"@.len());
        },
        RuleScope::Declaration => {
            reveal_strlit("declaration");
            reveal_strlit("post-parse");
            assert("declaration"@.len() != "post-parse"@.len());
            reveal_strlit("postparse");
            assert("declaration"@.len() != "postparse"@.len());
            reveal_strlit("assembly-gate");
            assert("declaration"@.len() != "assembly-gate"@.len());
            reveal_strlit("assemblygate");
            assert("declaration"@.len() != "assemblygate"@.len());
            reveal_strlit("flat-erc");
            assert("declaration"@.len() != "flat-erc"@.len());
            reveal_strlit("flaterc");
            assert("declaration"@.len() != "flaterc"@.len());
        },
        RuleScope::VizLayout => {
            reveal_strlit("viz-layout");
            reveal_strlit("post-parse");
            assert("viz-layout"@[0] != "post-parse"@[0]);
            reveal_strlit("postparse");
            assert("viz-layout"@.len() != "postparse"@.len());
            reveal_strlit("assembly-gate");
            assert("viz-layout"@.len() != "assembly-gate"@.len());
            reveal_strlit("assemblygate");
            assert("viz-layout"@.len() != "assemblygate"@.len());
            reveal_strlit("flat-erc");
            assert("viz-layout"@.len() != "flat-erc"@.len());
            reveal_strlit("flaterc");
            assert("viz-layout"@.len() != "flaterc"@.len());
            reveal_strlit("declaration");
            assert("viz-layout"@.len() != "declaration"@.len());
            reveal_strlit("decl");
            assert("viz-layout"@.len() != "decl"@.len());
        },
    }
}

/// Every RuleDomain value reads back from its own name.
pub proof fn lemma_rule_domain_names_round_trip(x: RuleDomain)
    ensures
        RuleDomain::parse_name(x.spelling()) == Some(x),
{
    match x {
        RuleDomain::Connectivity => {
        },
        RuleDomain::Power => {
            reveal_strlit("power");
            reveal_strlit("connectivity");
            assert("power"@.len() != "connectivity"@.len());
        },
        RuleDomain::BusHierarchy => {
            reveal_strlit("bus-hierarchy");
            reveal_strlit("connectivity");
            assert("bus-hierarchy"@.len() != "connectivity"@.len());
            reveal_strlit("power");
            assert("bus-hierarchy"@.len() != "power"@.len());
        },
        RuleDomain::PinDecl => {
            reveal_strlit("pin-decl");
            reveal_strlit("connectivity");
            assert("pin-decl"@.len() != "connectivity"@.len());
            reveal_strlit("power");
            assert("pin-decl"@.len() != "power"@.len());
            reveal_strlit("bus-hierarchy");
            assert("pin-decl"@.len() != "bus-hierarchy"@.len());
            reveal_strlit("bushierarchy");
            assert("pin-decl"@.len() != "bushierarchy"@.len());
        },
        RuleDomain::IO => {
            reveal_strlit("io");
            reveal_strlit("connectivity");
            assert("io"@.len() != "connectivity"@.len());
            reveal_strlit("power");
            assert("io"@.len() != "power"@.len());
            reveal_strlit("bus-hierarchy");
            assert("io"@.len() != "bus-hierarchy"@.len());
            reveal_strlit("bushierarchy");
            assert("io"@.len() != "bushierarchy"@.len());
            reveal_strlit("pin-decl");
            assert("io"@.len() != "pin-decl"@.len());
            reveal_strlit("pindecl");
            assert("io"@.len() != "pindecl"@.len());
        },
        RuleDomain::SignalIntegrity => {
            reveal_strlit("signal-integrity");
            reveal_strlit("connectivity");
            assert("signal-integrity"@.len() != "connectivity"@.len());
            reveal_strlit("power");
            assert("signal-integrity"@.len() != "power"@.len());
            reveal_strlit("bus-hierarchy");
            assert("signal-integrity"@.len() != "bus-hierarchy"@.len());
            reveal_strlit("bushierarchy");
            assert("signal-integrity"@.len() != "bushierarchy"@.len());
            reveal_strlit("pin-decl");
            assert("signal-integrity"@.len() != "pin-decl"@.len());
            reveal_strlit("pindecl");
            assert("signal-integrity"@.len() != "pindecl"@.len());
            reveal_strlit("io");
            assert("signal-integrity"@.len() != "io"@.len());
        },
        RuleDomain::Structure => {
            reveal_strlit("structure");
            reveal_strlit("connectivity");
            assert("structure"@.len() != "connectivity"@.len());
            reveal_strlit("power");
            assert("structure"@.len() != "power"@.len());
            reveal_strlit("bus-hierarchy");
            assert("structure"@.len() != "bus-hierarchy"@.len());
            reveal_strlit("bushierarchy");
            assert("structure"@.len() != "bushierarchy"@.len());
            reveal_strlit("pin-decl");
            assert("structure"@.len() != "pin-decl"@.len());
            reveal_strlit("pindecl");
            assert("structure"@.len() != "pindecl"@.len());
            reveal_strlit("io");
            assert("structure"@.len() != "io"@.len());
            reveal_strlit("signal-integrity");
            assert("structure"@.len() != "signal-integrity"@.len());
            reveal_strlit("signalintegrity");
            assert("structure"@.len() != "signalintegrity"@.len());
        },
        RuleDomain::NamingStyle => {
            reveal_strlit("naming-style");
            reveal_strlit("connectivity");
            assert("naming-style"@[0] != "connectivity"@[0]);
            reveal_strlit("power");
            assert("naming-style"@.len() != "power"@.len());
            reveal_strlit("bus-hierarchy");
            assert("naming-style"@.len() != "bus-hierarchy"@.len());
            reveal_strlit("bushierarchy");
            assert("naming-style"@[0] != "bushierarchy"@[0]);
            reveal_strlit("pin-decl");
            assert("naming-style"@.len() != "pin-decl"@.len());
            reveal_strlit("pindecl");
            assert("naming-style"@.len() != "pindecl"@.len());
            reveal_strlit("io");
            assert("naming-style"@.len() != "io"@.len());
            reveal_strlit("signal-integrity");
            assert("naming-style"@.len() != "signal-integrity"@.len());
            reveal_strlit("signalintegrity");
            assert("naming-style"@.len() != "signalintegrity"@.len());
            reveal_strlit("structure");
            assert("naming-style"@.len() != "structure"@.len());
        },
        RuleDomain::Duplicate => {
            reveal_strlit("duplicate");
            reveal_strlit("connectivity");
            assert("duplicate"@.len() != "connectivity"@.len());
            reveal_strlit("power");
            assert("duplicate"@.len() != "power"@.len());
            reveal_strlit("bus-hierarchy");
            assert("duplicate"@.len() != "bus-hierarchy"@.len());
            reveal_strlit("bushierarchy");
            assert("duplicate"@.len() != "bushierarchy"@.len());
            reveal_strlit("pin-decl");
            assert("duplicate"@.len() != "pin-decl"@.len());
            reveal_strlit("pindecl");
            assert("duplicate"@.len() != "pindecl"@.len());
            reveal_strlit("io");
            assert("duplicate"@.len() != "io"@.len());
            reveal_strlit("signal-integrity");
            assert("duplicate"@.len() != "signal-integrity"@.len());
            reveal_strlit("signalintegrity");
            assert("duplicate"@.len() != "signalintegrity"@.len());
            reveal_strlit("structure");
            assert("duplicate"@[0] != "structure"@[0]);
            reveal_strlit("naming-style");
            assert("duplicate"@.len() != "naming-style"@.len());
            reveal_strlit("namingstyle");
            assert("duplicate"@.len() != "namingstyle"@.len());
        },
        RuleDomain::RefIntegrity => {
            reveal_strlit("ref-integrity");
            reveal_strlit("connectivity");
            assert("ref-integrity"@.len() != "connectivity"@.len());
            reveal_strlit("power");
            assert("ref-integrity"@.len() != "power"@.len());
            reveal_strlit("bus-hierarchy");
            assert("ref-integrity"@[0] != "bus-hierarchy"@[0]);
            reveal_strlit("bushierarchy");
            assert("ref-integrity"@.len() != "bushierarchy"@.len());
            reveal_strlit("pin-decl");
            assert("ref-integrity"@.len() != "pin-decl"@.len());
            reveal_strlit("pindecl");
            assert("ref-integrity"@.len() != "pindecl"@.len());
            reveal_strlit("io");
            assert("ref-integrity"@.len() != "io"@.len());
            reveal_strlit("signal-integrity");
            assert("ref-integrity"@.len() != "signal-integrity"@.len());
            reveal_strlit("signalintegrity");
            assert("ref-integrity"@.len() != "signalintegrity"@.len());
            reveal_strlit("structure");
            assert("ref-integrity"@.len() != "structure"@.len());
            reveal_strlit("naming-style");
            assert("ref-integrity"@.len() != "naming-style"@.len());
            reveal_strlit("namingstyle");
            assert("ref-integrity"@.len() != "namingstyle"@.len());
            reveal_strlit("duplicate");
            assert("ref-integrity"@.len() != "duplicate"@.len());
        },
        RuleDomain::Rating => {
            reveal_strlit("rating");
            reveal_strlit("connectivity");
            assert("rating"@.len() != "connectivity"@.len());
            reveal_strlit("power");
            assert("rating"@.len() != "power"@.len());
            reveal_strlit("bus-hierarchy");
            assert("rating"@.len() != "bus-hierarchy"@.len());
            reveal_strlit("bushierarchy");
            assert("rating"@.len() != "bushierarchy"@.len());
            reveal_strlit("pin-decl");
            assert("rating"@.len() != "pin-decl"@.len());
            reveal_strlit("pindecl");
            assert("rating"@.len() != "pindecl"@.len());
            reveal_strlit("io");
            assert("rating"@.len() != "io"@.len());
            reveal_strlit("signal-integrity");
            assert("rating"@.len() != "signal-integrity"@.len());
            reveal_strlit("signalintegrity");
            assert("rating"@.len() != "signalintegrity"@.len());
            reveal_strlit("structure");
            assert("rating"@.len() != "structure"@.len());
            reveal_strlit("naming-style");
            assert("rating"@.len() != "naming-style"@.len());
            reveal_strlit("namingstyle");
            assert("rating"@.len() != "namingstyle"@.len());
            reveal_strlit("duplicate");
            assert("rating"@.len() != "duplicate"@.len());
            reveal_strlit("ref-integrity");
            assert("rating"@.len() != "ref-integrity"@.len());
            reveal_strlit("refintegrity");
            assert("rating"@.len() != "refintegrity"@.len());
        },
    }
}

/// Every RulePlane value reads back from its own name.
pub proof fn lemma_rule_plane_names_round_trip(x: RulePlane)
    ensures
        RulePlane::parse_name(x.spelling()) == Some(x),
{
    match x {
        RulePlane::CoreMechanism => {
        },
        RulePlane::DomainPackage => {
            reveal_strlit("domain-package");
            reveal_strlit("core-mechanism");
            assert("domain-package"@[0] != "core-mechanism"@[0]);
            reveal_strlit("coremechanism");
            assert("domain-package"@.len() != "coremechanism"@.len());
        },
        RulePlane::SimFulfillment => {
            reveal_strlit("sim-fulfillment");
            reveal_strlit("core-mechanism");
            assert("sim-fulfillment"@.len() != "core-mechanism"@.len());
            reveal_strlit("coremechanism");
            assert("sim-fulfillment"@.len() != "coremechanism"@.len());
            reveal_strlit("domain-package");
            assert("sim-fulfillment"@.len() != "domain-package"@.len());
            reveal_strlit("domainpackage");
            assert("sim-fulfillment"@.len() != "domainpackage"@.len());
        },
    }
}

/// Every Acceptance value reads back from its own name.
pub proof fn lemma_acceptance_names_round_trip(x: Acceptance)
    ensures
        Acceptance::parse_name(x.spelling()) == Some(x),
{
    match x {
        Acceptance::Legal => {
        },
        Acceptance::Contract => {
            reveal_strlit("contract");
            reveal_strlit("legal");
            assert("contract"@.len() != "legal"@.len());
        },
        Acceptance::Fulfillment => {
            reveal_strlit("fulfillment");
            reveal_strlit("legal");
            assert("fulfillment"@.len() != "legal"@.len());
            reveal_strlit("contract");
            assert("fulfillment"@.len() != "contract"@.len());
        },
    }
}

/// Every RuleSink value reads back from its own name.
pub proof fn lemma_rule_sink_names_round_trip(x: RuleSink)
    ensures
        RuleSink::parse_name(x.spelling()) == Some(x),
{
    match x {
        RuleSink::Envelope => {
        },
        RuleSink::GateReport => {
            reveal_strlit("gate-report");
            reveal_strlit("envelope");
            assert("gate-report"@.len() != "envelope"@.len());
        },
        RuleSink::OwnedStore => {
            reveal_strlit("owned-store");
            reveal_strlit("envelope");
            assert("owned-store"@.len() != "envelope"@.len());
            reveal_strlit("gate-report");
            assert("owned-store"@[0] != "gate-report"@[0]);
            reveal_strlit("gatereport");
            assert("owned-store"@.len() != "gatereport"@.len());
        },
    }
}

/// Every GateKind value reads back from its own name.
pub proof fn lemma_gate_kind_names_round_trip(x: GateKind)
    ensures
        GateKind::parse_name(x.spelling()) == Some(x),
{
    match x {
        GateKind::Advisory => {
        },
        GateKind::Blocking => {
            reveal_strlit("blocking");
            reveal_strlit("advisory");
            assert("blocking"@[0] != "advisory"@[0]);
        },
    }
}

/// Every Cadence value reads back from its own name.
pub proof fn lemma_cadence_names_round_trip(x: Cadence)
    ensures
        Cadence::parse_name(x.spelling()) == Some(x),
{
    match x {
        Cadence::PerCircuit => {
        },
        Cadence::Incremental => {
            reveal_strlit("incremental");
            reveal_strlit("per-circuit");
            assert("incremental"@[0] != "per-circuit"@[0]);
            reveal_strlit("percircuit");
            assert("incremental"@.len() != "percircuit"@.len());
        },
    }
}

/// Every FixKind value reads back from its own name.
pub proof fn lemma_fix_kind_names_round_trip(x: FixKind)
    ensures
        FixKind::parse_name(x.spelling()) == Some(x),
{
    match x {
        FixKind::NoFix => {
        },
        FixKind::QuickFix => {
            reveal_strlit("quick-fix");
            reveal_strlit("none");
            assert("quick-fix"@.len() != "none"@.len());
        },
        FixKind::Suggestion => {
            reveal_strlit("suggestion");
            reveal_strlit("none");
            assert("suggestion"@.len() != "none"@.len());
            reveal_strlit("quick-fix");
            assert("suggestion"@.len() != "quick-fix"@.len());
            reveal_strlit("quickfix");
            assert("suggestion"@.len() != "quickfix"@.len());
        },
    }
}

// ---------------------------------------------------------------------------
// Descriptors
// ---------------------------------------------------------------------------

/// Rule descriptor metadata, the part every scope has in common.
#[derive(Debug, Clone, Copy)]
pub struct RuleMeta {
    /// Numeric code: the rule's identity.
    pub code: u32,
    /// Stable rule tag.
    pub name: &'static str,
    /// One-line human title.
    pub title: &'static str,
    /// Default severity.
    pub severity: CheckSeverity,
    /// Execution scope.
    pub scope: RuleScope,
    /// Content category.
    pub domain: RuleDomain,
    /// Industry-catalog family, when the rule has one.
    pub family: Option<&'static str>,
    /// Help text.
    pub doc: &'static str,
    /// Test-lock anchor used by the lock-ledger projection.
    pub lock: &'static str,
    /// Whether severity overrides are permitted at all.
    pub overridable: bool,
    /// Quick-fix kind.
    pub fix: FixKind,
    /// Ownership plane.
    pub plane: RulePlane,
    /// Acceptance reading.
    pub acceptance: Acceptance,
    /// Result destination.
    pub sink: RuleSink,
    /// Gate behaviour, derived from severity.
    pub gate: GateKind,
    /// Run cadence.
    pub cadence: Cadence,
}

/// A flattened-net ERC rule: metadata plus the host check that runs it.
#[derive(Debug, Clone, Copy)]
pub struct FlatErcRule {
    pub meta: RuleMeta,
    /// Name of the host check run for this rule.
    pub owner: &'static str,
}

/// A declaration-scope rule: metadata plus the host check that runs it.
#[derive(Debug, Clone, Copy)]
pub struct DeclRule {
    pub meta: RuleMeta,
    /// Name of the host check run for this rule.
    pub owner: &'static str,
}

/// A rule of the assembly scope, one row of its table.
#[derive(Debug, Clone, Copy)]
pub struct GateRule {
    /// Metadata; the name is the report tag (`R02`).
    pub meta: RuleMeta,
    /// Report row label (`R02 SHORT_PASSIVE`).
    pub label: &'static str,
    /// Name of the host checking function.
    pub host: &'static str,
}

/// A post-parse rule: metadata plus the host module that emits the code.
#[derive(Debug, Clone, Copy)]
pub struct PostParseRule {
    pub meta: RuleMeta,
    /// Host module owning the code's primary emission.
    pub host: &'static str,
}

/// Metadata of a rule from its own fields; every other axis takes the
/// core-scope default (no fix, core mechanism, legal, gate from severity,
/// per circuit, not overridable).
pub open spec fn meta_row(
    code: u32,
    name: &'static str,
    title: &'static str,
    severity: CheckSeverity,
    scope: RuleScope,
    domain: RuleDomain,
    family: Option<&'static str>,
    doc: &'static str,
    lock: &'static str,
    sink: RuleSink,
) -> RuleMeta {
    RuleMeta {
        code,
        name,
        title,
        severity,
        scope,
        domain,
        family,
        doc,
        lock,
        overridable: false,
        fix: FixKind::NoFix,
        plane: RulePlane::CoreMechanism,
        acceptance: Acceptance::Legal,
        sink,
        gate: gate_of(severity),
        cadence: Cadence::PerCircuit,
    }
}

fn make_meta(
    code: u32,
    name: &'static str,
    title: &'static str,
    severity: CheckSeverity,
    scope: RuleScope,
    domain: RuleDomain,
    family: Option<&'static str>,
    doc: &'static str,
    lock: &'static str,
    sink: RuleSink,
) -> (r: RuleMeta)
    ensures
        r == meta_row(code, name, title, severity, scope, domain, family, doc, lock, sink),
{
    RuleMeta {
        code,
        name,
        title,
        severity,
        scope,
        domain,
        family,
        doc,
        lock,
        overridable: false,
        fix: FixKind::NoFix,
        plane: RulePlane::CoreMechanism,
        acceptance: Acceptance::Legal,
        sink,
        gate: gate_for(severity),
        cadence: Cadence::PerCircuit,
    }
}

/// Fields of a flattened-net ERC row.
pub type FlatArgs = (
    u32,
    &'static str,
    &'static str,
    CheckSeverity,
    RuleDomain,
    Option<&'static str>,
    &'static str,
    &'static str,
    &'static str,
);

/// Fields of a declaration row.
pub type DeclArgs = (
    u32,
    &'static str,
    &'static str,
    CheckSeverity,
    RuleDomain,
    &'static str,
    &'static str,
    &'static str,
);

/// Fields of a gate row.
pub type GateArgs = (
    u32,
    &'static str,
    &'static str,
    &'static str,
    CheckSeverity,
    RuleDomain,
    Option<&'static str>,
    &'static str,
    &'static str,
    &'static str,
);

/// Fields of a post-parse row.
pub type PostArgs = (
    u32,
    &'static str,
    &'static str,
    CheckSeverity,
    RuleDomain,
    &'static str,
    &'static str,
    &'static str,
);

/// A flattened-net ERC rule from its fields (envelope sink).
pub open spec fn flat_row(a: FlatArgs) -> FlatErcRule {
    FlatErcRule {
        meta: meta_row(a.0, a.1, a.2, a.3, RuleScope::FlatErc, a.4, a.5, a.6, a.7, RuleSink::Envelope),
        owner: a.8,
    }
}

/// A declaration rule from its fields (no family, envelope sink).
pub open spec fn decl_row(a: DeclArgs) -> DeclRule {
    DeclRule {
        meta: meta_row(a.0, a.1, a.2, a.3, RuleScope::Declaration, a.4, None, a.5, a.6, RuleSink::Envelope),
        owner: a.7,
    }
}

/// A gate rule from its fields (gate-report sink).
pub open spec fn gate_row(a: GateArgs) -> GateRule {
    GateRule {
        meta: meta_row(a.0, a.1, a.3, a.4, RuleScope::AssemblyGate, a.5, a.6, a.7, a.8, RuleSink::GateReport),
        label: a.2,
        host: a.9,
    }
}

/// A post-parse rule from its fields (no family, envelope sink).
pub open spec fn post_row(a: PostArgs) -> PostParseRule {
    PostParseRule {
        meta: meta_row(a.0, a.1, a.2, a.3, RuleScope::PostParse, a.4, None, a.6, a.7, RuleSink::Envelope),
        host: a.5,
    }
}

fn flat_row_exec(a: FlatArgs) -> (r: FlatErcRule)
    ensures
        r == flat_row(a),
{
    FlatErcRule {
        meta: make_meta(a.0, a.1, a.2, a.3, RuleScope::FlatErc, a.4, a.5, a.6, a.7, RuleSink::Envelope),
        owner: a.8,
    }
}

fn decl_row_exec(a: DeclArgs) -> (r: DeclRule)
    ensures
        r == decl_row(a),
{
    DeclRule {
        meta: make_meta(a.0, a.1, a.2, a.3, RuleScope::Declaration, a.4, None, a.5, a.6, RuleSink::Envelope),
        owner: a.7,
    }
}

fn gate_row_exec(a: GateArgs) -> (r: GateRule)
    ensures
        r == gate_row(a),
{
    GateRule {
        meta: make_meta(a.0, a.1, a.3, a.4, RuleScope::AssemblyGate, a.5, a.6, a.7, a.8, RuleSink::GateReport),
        label: a.2,
        host: a.9,
    }
}

fn post_row_exec(a: PostArgs) -> (r: PostParseRule)
    ensures
        r == post_row(a),
{
    PostParseRule {
        meta: make_meta(a.0, a.1, a.2, a.3, RuleScope::PostParse, a.4, None, a.6, a.7, RuleSink::Envelope),
        host: a.5,
    }
}

// ---------------------------------------------------------------------------
// Tables
// ---------------------------------------------------------------------------

/// Rows of the FlatErc table in execution order: code, tag, title, severity, domain, family, help text, lock anchor, host check.
pub open spec fn flat_erc_args() -> Seq<FlatArgs> {
    seq![
        (crate::errcodes::NET_MULTI_DRIVE, "driver-conflict", "multiple drivers on one net", CheckSeverity::Error, RuleDomain::Connectivity, Some("A"), "More than one Out pin drives the same net; possible short circuit.", "tests/flatten_net_check_diagnostics.rs", "check_driver_conflict"),
        (crate::errcodes::NET_NO_DRIVER, "undriven-net", "net has inputs but no driver", CheckSeverity::Warning, RuleDomain::Connectivity, None, "A net with input endpoints carries no output or power driver.", "tests/flatten_net_check_diagnostics.rs", "check_undriven_nets"),
        (crate::errcodes::NET_INPUT_UNCONNECTED, "floating-input", "input pin is not connected", CheckSeverity::Warning, RuleDomain::Connectivity, None, "An input pin or port is not connected to any net.", "tests/flatten_net_check_diagnostics.rs", "check_floating_inputs"),
        (crate::errcodes::NET_NC_CONNECTED, "nc-connected", "NC port is connected to a net", CheckSeverity::Warning, RuleDomain::Connectivity, None, "An intentionally unconnected NC port appears on a net.", "tests/flatten_net_check_diagnostics.rs", "check_nc_connected"),
        (crate::errcodes::NET_OUTPUT_UNDRIVEN, "unconnected-output", "output pin drives nothing", CheckSeverity::Warning, RuleDomain::Connectivity, None, "An output pin or port is connected to no net.", "tests/flatten_net_check_diagnostics.rs", "check_unconnected_outputs"),
        (crate::errcodes::NET_BACKFEED_RISK, "backfeed-risk", "output on a power-supply net", CheckSeverity::Warning, RuleDomain::Power, None, "A net carries both an output and a power supply; backfeed risk.", "tests/flatten_net_check_diagnostics.rs", "check_backfeed"),
        (crate::errcodes::NET_INSTANCE_UNCONNECTED, "unwired-instance", "instance has no wired pins", CheckSeverity::Warning, RuleDomain::Connectivity, None, "A component instance has pins yet none connects to a net.", "tests/flatten_net_check_diagnostics.rs", "check_unwired_instances"),
        (crate::errcodes::NET_VOLTAGE_MISMATCH, "voltage-mismatch", "power pins declare incompatible voltages", CheckSeverity::Error, RuleDomain::Power, None, "Two supply pins on one net declare voltage sets with no common value.", "tests/flatten_net_check_diagnostics.rs", "check_voltage_mismatch"),
        (crate::errcodes::NET_OUTPUTS_NO_INPUT, "port-io-mismatch", "outputs and power with no input", CheckSeverity::Warning, RuleDomain::IO, None, "A net has multiple outputs plus power but no input.", "tests/flatten_net_check_diagnostics.rs", "check_port_io_mismatch"),
        (crate::errcodes::NET_POWER_NET_COUNT, "power-net-count", "power net count is high", CheckSeverity::Info, RuleDomain::Power, None, "Design carries many power nets; consolidation review advisory.", "tests/flatten_net_check_diagnostics.rs", "check_power_nets"),
        (crate::errcodes::NET_MODULE_PORT_UNCONNECTED, "unused-module-port", "module port is not connected", CheckSeverity::Warning, RuleDomain::IO, None, "A module boundary port is not connected to any net.", "tests/flatten_net_check_diagnostics.rs", "check_unused_module_ports"),
        (crate::errcodes::NET_DANGLING_ENDPOINT, "single-point-net", "net has a single endpoint", CheckSeverity::Warning, RuleDomain::Connectivity, None, "A net holds exactly one endpoint; possible dangling connection.", "tests/flatten_net_check_diagnostics.rs", "check_single_point_nets"),
        (crate::errcodes::NET_PARTIAL_CONNECTION, "pin-count-mismatch", "instance pins partly connected", CheckSeverity::Warning, RuleDomain::PinDecl, None, "An instance has fewer connected pins than its component defines.", "tests/flatten_net_check_diagnostics.rs", "check_pin_count_mismatch"),
        (crate::errcodes::ABSTRACT_PART_UNSELECTED, "abstract-unselected", "abstract instance has no variant", CheckSeverity::Warning, RuleDomain::Structure, None, "An abstract component instance is placed but unselected; BOM must pick a variant.", "tests/flatten_net_check_diagnostics.rs", "check_unselected_abstract"),
        (crate::errcodes::NET_BIDIR_UNCONNECTED, "floating-bidirectional", "bidirectional port is not connected", CheckSeverity::Warning, RuleDomain::Connectivity, None, "A bidirectional port is not connected to any net.", "tests/flatten_net_check_diagnostics.rs", "check_floating_outputs"),
        (crate::errcodes::PULLUP_DEGENERATE, "pullup-degenerate", "pullup degraded to signal bridge", CheckSeverity::Warning, RuleDomain::Connectivity, None, "A Pullup/Pulldown instance bridges two signals with neither end on a rail.", "tests/flatten_net_check_diagnostics.rs", "check_pullup_degenerate"),
    ]
}

/// The FlatErc rows.
fn flat_erc_args_exec() -> (r: Vec<FlatArgs>)
    ensures
        r@ == flat_erc_args(),
{
    let v: Vec<FlatArgs> = vec![
        (crate::errcodes::NET_MULTI_DRIVE, "driver-conflict", "multiple drivers on one net", CheckSeverity::Error, RuleDomain::Connectivity, Some("A"), "More than one Out pin drives the same net; possible short circuit.", "tests/flatten_net_check_diagnostics.rs", "check_driver_conflict"),
        (crate::errcodes::NET_NO_DRIVER, "undriven-net", "net has inputs but no driver", CheckSeverity::Warning, RuleDomain::Connectivity, None, "A net with input endpoints carries no output or power driver.", "tests/flatten_net_check_diagnostics.rs", "check_undriven_nets"),
        (crate::errcodes::NET_INPUT_UNCONNECTED, "floating-input", "input pin is not connected", CheckSeverity::Warning, RuleDomain::Connectivity, None, "An input pin or port is not connected to any net.", "tests/flatten_net_check_diagnostics.rs", "check_floating_inputs"),
        (crate::errcodes::NET_NC_CONNECTED, "nc-connected", "NC port is connected to a net", CheckSeverity::Warning, RuleDomain::Connectivity, None, "An intentionally unconnected NC port appears on a net.", "tests/flatten_net_check_diagnostics.rs", "check_nc_connected"),
        (crate::errcodes::NET_OUTPUT_UNDRIVEN, "unconnected-output", "output pin drives nothing", CheckSeverity::Warning, RuleDomain::Connectivity, None, "An output pin or port is connected to no net.", "tests/flatten_net_check_diagnostics.rs", "check_unconnected_outputs"),
        (crate::errcodes::NET_BACKFEED_RISK, "backfeed-risk", "output on a power-supply net", CheckSeverity::Warning, RuleDomain::Power, None, "A net carries both an output and a power supply; backfeed risk.", "tests/flatten_net_check_diagnostics.rs", "check_backfeed"),
        (crate::errcodes::NET_INSTANCE_UNCONNECTED, "unwired-instance", "instance has no wired pins", CheckSeverity::Warning, RuleDomain::Connectivity, None, "A component instance has pins yet none connects to a net.", "tests/flatten_net_check_diagnostics.rs", "check_unwired_instances"),
        (crate::errcodes::NET_VOLTAGE_MISMATCH, "voltage-mismatch", "power pins declare incompatible voltages", CheckSeverity::Error, RuleDomain::Power, None, "Two supply pins on one net declare voltage sets with no common value.", "tests/flatten_net_check_diagnostics.rs", "check_voltage_mismatch"),
        (crate::errcodes::NET_OUTPUTS_NO_INPUT, "port-io-mismatch", "outputs and power with no input", CheckSeverity::Warning, RuleDomain::IO, None, "A net has multiple outputs plus power but no input.", "tests/flatten_net_check_diagnostics.rs", "check_port_io_mismatch"),
        (crate::errcodes::NET_POWER_NET_COUNT, "power-net-count", "power net count is high", CheckSeverity::Info, RuleDomain::Power, None, "Design carries many power nets; consolidation review advisory.", "tests/flatten_net_check_diagnostics.rs", "check_power_nets"),
        (crate::errcodes::NET_MODULE_PORT_UNCONNECTED, "unused-module-port", "module port is not connected", CheckSeverity::Warning, RuleDomain::IO, None, "A module boundary port is not connected to any net.", "tests/flatten_net_check_diagnostics.rs", "check_unused_module_ports"),
        (crate::errcodes::NET_DANGLING_ENDPOINT, "single-point-net", "net has a single endpoint", CheckSeverity::Warning, RuleDomain::Connectivity, None, "A net holds exactly one endpoint; possible dangling connection.", "tests/flatten_net_check_diagnostics.rs", "check_single_point_nets"),
        (crate::errcodes::NET_PARTIAL_CONNECTION, "pin-count-mismatch", "instance pins partly connected", CheckSeverity::Warning, RuleDomain::PinDecl, None, "An instance has fewer connected pins than its component defines.", "tests/flatten_net_check_diagnostics.rs", "check_pin_count_mismatch"),
        (crate::errcodes::ABSTRACT_PART_UNSELECTED, "abstract-unselected", "abstract instance has no variant", CheckSeverity::Warning, RuleDomain::Structure, None, "An abstract component instance is placed but unselected; BOM must pick a variant.", "tests/flatten_net_check_diagnostics.rs", "check_unselected_abstract"),
        (crate::errcodes::NET_BIDIR_UNCONNECTED, "floating-bidirectional", "bidirectional port is not connected", CheckSeverity::Warning, RuleDomain::Connectivity, None, "A bidirectional port is not connected to any net.", "tests/flatten_net_check_diagnostics.rs", "check_floating_outputs"),
        (crate::errcodes::PULLUP_DEGENERATE, "pullup-degenerate", "pullup degraded to signal bridge", CheckSeverity::Warning, RuleDomain::Connectivity, None, "A Pullup/Pulldown instance bridges two signals with neither end on a rail.", "tests/flatten_net_check_diagnostics.rs", "check_pullup_degenerate"),
    ];
    v
}

/// Rows of the Declaration table in execution order: code, tag, title, severity, domain, help text, lock anchor, host check.
pub open spec fn decl_args() -> Seq<DeclArgs> {
    seq![
        (crate::errcodes::PIN_UNCONNECTED, "unused-pin", "pin is not connected to any net", CheckSeverity::Warning, RuleDomain::PinDecl, "A pin of a placed component instance connects to no net; power pins downgrade to info.", "tests/dynamic_pin_expansion.rs", "check_unused_pins"),
        (crate::errcodes::PIN_CONFLICTING_OPTIONS, "conflicting-pin-options", "pin uses conflicting option names", CheckSeverity::Warning, RuleDomain::PinDecl, "A pinid is connected under two or more different option names at once.", "tests/dynamic_pin_expansion.rs", "check_conflicting_pins"),
    ]
}

/// The Declaration rows.
fn decl_args_exec() -> (r: Vec<DeclArgs>)
    ensures
        r@ == decl_args(),
{
    let v: Vec<DeclArgs> = vec![
        (crate::errcodes::PIN_UNCONNECTED, "unused-pin", "pin is not connected to any net", CheckSeverity::Warning, RuleDomain::PinDecl, "A pin of a placed component instance connects to no net; power pins downgrade to info.", "tests/dynamic_pin_expansion.rs", "check_unused_pins"),
        (crate::errcodes::PIN_CONFLICTING_OPTIONS, "conflicting-pin-options", "pin uses conflicting option names", CheckSeverity::Warning, RuleDomain::PinDecl, "A pinid is connected under two or more different option names at once.", "tests/dynamic_pin_expansion.rs", "check_conflicting_pins"),
    ];
    v
}

/// Rows of the AssemblyGate table in tag order: code, tag, report label, title, severity, domain, family, help text, lock anchor, host check.
pub open spec fn gate_args() -> Seq<GateArgs> {
    seq![
        (crate::errcodes::GATE_LITERAL_POINT, "R01", "R01 LITERAL_POINT", "unexpanded vector reference entered the netlist", CheckSeverity::Error, RuleDomain::Connectivity, Some("A"), "An endpoint path contains `{`, `[` or `,` — a vector reference was not expanded.", "tests/netcheck_rules.rs / tests/gate_phase1.rs", "check_r01_literal_point"),
        (crate::errcodes::GATE_SHORT_PASSIVE, "R02", "R02 SHORT_PASSIVE", "two-terminal device with both pins on one net", CheckSeverity::Error, RuleDomain::Connectivity, Some("A"), "Both pins of a two-terminal device land on the same net — short circuit.", "tests/netcheck_rules.rs", "check_r02_short_passive"),
        (crate::errcodes::GATE_SHORT_RAIL, "R03", "R03 SHORT_RAIL", "supply and ground on the same net", CheckSeverity::Error, RuleDomain::Power, Some("A"), "A net contains two different power-domain names (including VDD and GND on the same net).", "tests/netcheck_rules.rs / tests/gate_phase1.rs", "check_r03_r04_r06"),
        (crate::errcodes::GATE_RAIL_ALIAS, "R03a", "R03a RAIL_ALIAS", "multiple power-domain aliases on one net", CheckSeverity::Info, RuleDomain::Power, Some("A"), "A net carries several power-domain aliases; a short if the names denote different voltages.", "tests/netcheck_rules.rs", "check_r03_r04_r06"),
        (crate::errcodes::GATE_SHORT_LANE, "R04", "R04 SHORT_LANE", "two bus members land on the same net", CheckSeverity::Error, RuleDomain::BusHierarchy, Some("A"), "Two different members of the same bus land on one net.", "tests/netcheck_rules.rs", "check_r03_r04_r06"),
        (crate::errcodes::GATE_UNRESOLVED_UNIT, "R05", "R05 UNRESOLVED_UNIT", "unit-typed argument claims no formal parameter slot", CheckSeverity::Error, RuleDomain::Structure, None, "A unit-typed argument cannot claim any formal parameter slot.", "tests/netcheck_rules.rs", "check_r05_unresolved_unit"),
        (crate::errcodes::GATE_MEGANET, "R06", "R06 MEGANET", "non-power net is suspiciously large", CheckSeverity::Warning, RuleDomain::SignalIntegrity, None, "A non-power net has too many points and spans too many devices.", "tests/netcheck_rules.rs", "check_r03_r04_r06"),
        (crate::errcodes::GATE_GHOST_INSTANCE, "R07", "R07 GHOST_INSTANCE", "net references an unregistered device", CheckSeverity::Error, RuleDomain::RefIntegrity, None, "A device referenced in a net is missing from the instance table.", "tests/netcheck_rules.rs", "check_r07_ghost"),
        (crate::errcodes::GATE_PHANTOM_PATH, "R08", "R08 PHANTOM_PATH", "endpoint path has an unregistered middle segment", CheckSeverity::Error, RuleDomain::RefIntegrity, None, "An intermediate path segment is not a registered instance — phantom path.", "netcheck context-gated (reorg doc §8.3)", "check_r08_phantom_path"),
        (crate::errcodes::GATE_FLOATING_POWER_PIN, "R09", "R09 FLOATING_PWR_PIN", "device power/ground pin is unconnected", CheckSeverity::Warning, RuleDomain::Power, None, "A device's power / ground pin is not connected.", "tests/netcheck_rules.rs", "check_r09_floating_power"),
        (crate::errcodes::GATE_SYMBOL_CONSERVATION, "R10", "R10 SYMBOL_CONSERV", "pass2 device count fell below the pass1 expectation", CheckSeverity::Error, RuleDomain::Structure, None, "Pass2 device count is less than the pass1 symbol-table device count (expectation required).", "tests/netcheck_rules.rs", "check_r10_conservation"),
        (crate::errcodes::GATE_SPLIT_RAIL, "R11", "R11 SPLIT_RAIL", "same-name power rail is split into unconnected nets", CheckSeverity::Error, RuleDomain::Power, None, "Same-name power nets inside one module are split into mutually unconnected nets.", "netcheck context-gated (reorg doc §8.3)", "check_r11_split_rail"),
        (crate::errcodes::GATE_DANGLING_PORT, "R12", "R12 DANGLING_PORT", "port net holds only its own point", CheckSeverity::Info, RuleDomain::Connectivity, None, "A port net has only itself as a point.", "netcheck context-gated (reorg doc §8.3)", "check_r12_dangling_port"),
        (crate::errcodes::GATE_ORPHAN_INSTANCE, "R14", "R14 ORPHAN_INSTANCE", "instance is registered but in no net", CheckSeverity::Warning, RuleDomain::Structure, None, "An instance is registered but does not appear in any net.", "tests/netcheck_rules.rs", "check_r14_orphan_instance"),
        (crate::errcodes::GATE_SYNTHETIC_PIN, "R15", "R15 SYNTHETIC_PIN", "synthetic terminal with no backing pin", CheckSeverity::Warning, RuleDomain::Structure, None, "A synthetic terminal (pin_id not belonging to any real pin) was created.", "tests/netcheck_rules.rs", "check_r15_synthetic_pin"),
    ]
}

/// The AssemblyGate rows.
fn gate_args_exec() -> (r: Vec<GateArgs>)
    ensures
        r@ == gate_args(),
{
    let v: Vec<GateArgs> = vec![
        (crate::errcodes::GATE_LITERAL_POINT, "R01", "R01 LITERAL_POINT", "unexpanded vector reference entered the netlist", CheckSeverity::Error, RuleDomain::Connectivity, Some("A"), "An endpoint path contains `{`, `[` or `,` — a vector reference was not expanded.", "tests/netcheck_rules.rs / tests/gate_phase1.rs", "check_r01_literal_point"),
        (crate::errcodes::GATE_SHORT_PASSIVE, "R02", "R02 SHORT_PASSIVE", "two-terminal device with both pins on one net", CheckSeverity::Error, RuleDomain::Connectivity, Some("A"), "Both pins of a two-terminal device land on the same net — short circuit.", "tests/netcheck_rules.rs", "check_r02_short_passive"),
        (crate::errcodes::GATE_SHORT_RAIL, "R03", "R03 SHORT_RAIL", "supply and ground on the same net", CheckSeverity::Error, RuleDomain::Power, Some("A"), "A net contains two different power-domain names (including VDD and GND on the same net).", "tests/netcheck_rules.rs / tests/gate_phase1.rs", "check_r03_r04_r06"),
        (crate::errcodes::GATE_RAIL_ALIAS, "R03a", "R03a RAIL_ALIAS", "multiple power-domain aliases on one net", CheckSeverity::Info, RuleDomain::Power, Some("A"), "A net carries several power-domain aliases; a short if the names denote different voltages.", "tests/netcheck_rules.rs", "check_r03_r04_r06"),
        (crate::errcodes::GATE_SHORT_LANE, "R04", "R04 SHORT_LANE", "two bus members land on the same net", CheckSeverity::Error, RuleDomain::BusHierarchy, Some("A"), "Two different members of the same bus land on one net.", "tests/netcheck_rules.rs", "check_r03_r04_r06"),
        (crate::errcodes::GATE_UNRESOLVED_UNIT, "R05", "R05 UNRESOLVED_UNIT", "unit-typed argument claims no formal parameter slot", CheckSeverity::Error, RuleDomain::Structure, None, "A unit-typed argument cannot claim any formal parameter slot.", "tests/netcheck_rules.rs", "check_r05_unresolved_unit"),
        (crate::errcodes::GATE_MEGANET, "R06", "R06 MEGANET", "non-power net is suspiciously large", CheckSeverity::Warning, RuleDomain::SignalIntegrity, None, "A non-power net has too many points and spans too many devices.", "tests/netcheck_rules.rs", "check_r03_r04_r06"),
        (crate::errcodes::GATE_GHOST_INSTANCE, "R07", "R07 GHOST_INSTANCE", "net references an unregistered device", CheckSeverity::Error, RuleDomain::RefIntegrity, None, "A device referenced in a net is missing from the instance table.", "tests/netcheck_rules.rs", "check_r07_ghost"),
        (crate::errcodes::GATE_PHANTOM_PATH, "R08", "R08 PHANTOM_PATH", "endpoint path has an unregistered middle segment", CheckSeverity::Error, RuleDomain::RefIntegrity, None, "An intermediate path segment is not a registered instance — phantom path.", "netcheck context-gated (reorg doc §8.3)", "check_r08_phantom_path"),
        (crate::errcodes::GATE_FLOATING_POWER_PIN, "R09", "R09 FLOATING_PWR_PIN", "device power/ground pin is unconnected", CheckSeverity::Warning, RuleDomain::Power, None, "A device's power / ground pin is not connected.", "tests/netcheck_rules.rs", "check_r09_floating_power"),
        (crate::errcodes::GATE_SYMBOL_CONSERVATION, "R10", "R10 SYMBOL_CONSERV", "pass2 device count fell below the pass1 expectation", CheckSeverity::Error, RuleDomain::Structure, None, "Pass2 device count is less than the pass1 symbol-table device count (expectation required).", "tests/netcheck_rules.rs", "check_r10_conservation"),
        (crate::errcodes::GATE_SPLIT_RAIL, "R11", "R11 SPLIT_RAIL", "same-name power rail is split into unconnected nets", CheckSeverity::Error, RuleDomain::Power, None, "Same-name power nets inside one module are split into mutually unconnected nets.", "netcheck context-gated (reorg doc §8.3)", "check_r11_split_rail"),
        (crate::errcodes::GATE_DANGLING_PORT, "R12", "R12 DANGLING_PORT", "port net holds only its own point", CheckSeverity::Info, RuleDomain::Connectivity, None, "A port net has only itself as a point.", "netcheck context-gated (reorg doc §8.3)", "check_r12_dangling_port"),
        (crate::errcodes::GATE_ORPHAN_INSTANCE, "R14", "R14 ORPHAN_INSTANCE", "instance is registered but in no net", CheckSeverity::Warning, RuleDomain::Structure, None, "An instance is registered but does not appear in any net.", "tests/netcheck_rules.rs", "check_r14_orphan_instance"),
        (crate::errcodes::GATE_SYNTHETIC_PIN, "R15", "R15 SYNTHETIC_PIN", "synthetic terminal with no backing pin", CheckSeverity::Warning, RuleDomain::Structure, None, "A synthetic terminal (pin_id not belonging to any real pin) was created.", "tests/netcheck_rules.rs", "check_r15_synthetic_pin"),
    ];
    v
}

/// Rows of the PostParse table in host registration order: code, tag, title, severity, domain, host module, help text, lock anchor.
pub open spec fn post_parse_args() -> Seq<PostArgs> {
    seq![
        (crate::errcodes::DUP_CMIE_CROSS_FILE, "dup-cmie-cross-file", "same CMIE name defined in another file", CheckSeverity::Warning, RuleDomain::Duplicate, "duplicate", "Same name defined in another file (cross-file duplicate).", "tests/lock_pp_duplicates.rs"),
        (crate::errcodes::DUP_WITHIN, "dup-within", "duplicate definition within one declaration", CheckSeverity::Warning, RuleDomain::Duplicate, "dupwithin", "Duplicate definition within the same declaration.", "tests/lock_pp_duplicates.rs"),
        (crate::errcodes::DUP_ENUM_VALUE, "dup-enum-value", "duplicate enum value within one enum", CheckSeverity::Error, RuleDomain::Duplicate, "dupwithin", "Enum value appears more than once in the enum.", "tests/lock_pp_duplicates.rs"),
        (crate::errcodes::ENUM_DUPLICATE_VALUE, "enum-duplicate-value", "enum value declared twice", CheckSeverity::Error, RuleDomain::Duplicate, "enums", "Enum has a duplicate value.", "tests/lock_pp_duplicates.rs"),
        (crate::errcodes::ENUM_MEMBER_DOT, "enum-member-dot", "enum member contains a dot", CheckSeverity::Error, RuleDomain::Structure, "enums", "Enum member contains a dot.", "tests/lock_pp_duplicates.rs"),
        (crate::errcodes::ENUM_MEMBER_LEADING_DIGIT, "enum-member-leading-digit", "enum member starts with a digit", CheckSeverity::Error, RuleDomain::Structure, "enums", "Enum member starts with a digit.", "tests/lock_pp_duplicates.rs"),
        (crate::errcodes::ENUM_MEMBER_RESERVED, "enum-member-reserved", "enum member is a reserved keyword", CheckSeverity::Warning, RuleDomain::Structure, "enums", "Enum member is a reserved keyword.", "tests/lock_pp_duplicates.rs"),
        (crate::errcodes::ATTR_SELF_REFERENTIAL, "attr-self-referential", "attribute value equals its own key", CheckSeverity::Warning, RuleDomain::Structure, "enums", "Attribute value equals its own key; likely a copy-paste mistake.", "tests/lock_pp_duplicates.rs"),
        (crate::errcodes::RANGE_REVERSED, "range-reversed", "range appears reversed", CheckSeverity::Warning, RuleDomain::Structure, "enums", "Range appears reversed; did you mean the opposite order?", "tests/lock_pp_duplicates.rs"),
        (crate::errcodes::ATTR_RESERVED_KEYWORD, "attr-reserved-keyword", "attribute name is a reserved keyword", CheckSeverity::Warning, RuleDomain::Structure, "attrs", "Attribute uses a reserved keyword.", "tests/semantic_false_diagnostics.rs"),
        (crate::errcodes::ROLE_EMPTY_BODY, "role-empty-body", "role has an empty body", CheckSeverity::Warning, RuleDomain::Structure, "attrs", "Role has an empty body.", "tests/lock_pp_attrs_insts.rs"),
        (crate::errcodes::ATTR_NESTING_TOO_DEEP, "attr-nesting-too-deep", "attribute nesting exceeds 16 levels", CheckSeverity::Warning, RuleDomain::Structure, "attrs", "Attribute nesting depth exceeds 16.", "tests/lock_pp_attrs_insts.rs"),
        (crate::errcodes::ATTR_PIN_GROUP_UNDEFINED, "attr-pin-group-undefined", "attribute references an undefined pin group", CheckSeverity::Error, RuleDomain::RefIntegrity, "attrs", "Attribute references an undefined pin group, or role used outside a component.", "tests/lock_pp_attrs_insts.rs"),
        (crate::errcodes::PINS_PLUS_AND_PINS_CONFLICT, "pins-plus-and-pins-conflict", "pins = and pins.X = attributes overlap", CheckSeverity::Warning, RuleDomain::PinDecl, "attrs", "Component mixes pins = and pins.X = attributes, or uses a non-constant default.", "tests/semantic_false_diagnostics.rs"),
        (crate::errcodes::COND_EMPTY_BODY, "cond-empty-body", "conditional block has an empty body", CheckSeverity::Warning, RuleDomain::Structure, "conds", "Conditional block has an empty body.", "tests/semantic_false_diagnostics.rs"),
        (crate::errcodes::COND_IF_WITHOUT_ELSE, "cond-if-without-else", "if without a matching else", CheckSeverity::Info, RuleDomain::Structure, "conds", "An `if` without a matching `else`.", "tests/semantic_false_diagnostics.rs"),
        (crate::errcodes::COND_DUPLICATE, "cond-duplicate", "later branch duplicates an earlier condition", CheckSeverity::Warning, RuleDomain::Structure, "conds", "A later if/else-if branch duplicates an earlier branch's condition and can never be selected.", "tests/cond_duplicate.rs"),
        (crate::errcodes::PIN_NC_COMPONENT_LEVEL, "pin-nc-component-level", "NC pin declared at component level", CheckSeverity::Info, RuleDomain::PinDecl, "conds", "NC pin used at component level.", "tests/lock_pp_conds.rs"),
        (crate::errcodes::PIN_IO_MIX_IN_OUT, "pin-io-mix-in-out", "pin mixes In and Out IO types", CheckSeverity::Info, RuleDomain::IO, "conds", "Pin mixes In and Out IO types.", "tests/lock_pp_conds.rs"),
        (crate::errcodes::PIN_IO_MIX_OUTPUT_POWER, "pin-io-mix-output-power", "pin mixes Output and Power IO types", CheckSeverity::Warning, RuleDomain::IO, "conds", "Pin mixes Output and Power IO types.", "tests/lock_pp_conds.rs"),
        (crate::errcodes::PIN_IO_MIX_ANALOG_POWER, "pin-io-mix-analog-power", "pin mixes Analog and Power IO types", CheckSeverity::Info, RuleDomain::IO, "conds", "Pin mixes Analog and Power IO types.", "tests/lock_pp_conds.rs"),
        (crate::errcodes::PARAM_PIN_NAME_SHADOW, "param-pin-name-shadow", "parameter shares a pin name", CheckSeverity::Warning, RuleDomain::NamingStyle, "conds", "Parameter shares its name with a pin.", "tests/lock_pp_conds.rs"),
        (crate::errcodes::MODULE_STUB, "module-stub", "module is a stub", CheckSeverity::Warning, RuleDomain::Structure, "conds", "Module is a stub.", "tests/lock_pp_conds.rs"),
        (crate::errcodes::DEF_AMBIGUOUS_NAME, "def-ambiguous-name", "same name used for different definition kinds", CheckSeverity::Warning, RuleDomain::Duplicate, "defs", "Same name used for different definition kinds.", "tests/lock_pp_defs.rs"),
        (crate::errcodes::DEF_REF_NOT_LOADED, "def-ref-not-loaded", "definition references a class that is not loaded", CheckSeverity::Warning, RuleDomain::RefIntegrity, "defs", "Definition references a class that is not loaded.", "tests/lock_pp_defs.rs"),
        (crate::errcodes::COMPONENT_INT_SUFFIX, "component-int-suffix", "component name has an unconventional .int suffix", CheckSeverity::Warning, RuleDomain::NamingStyle, "defs", "Component has an unconventional '.int' suffix.", "tests/lock_pp_defs.rs"),
        (crate::errcodes::ENUM_INT_SUFFIX, "enum-int-suffix", "enum name has an unconventional .int suffix", CheckSeverity::Info, RuleDomain::NamingStyle, "defs", "Enum has an unconventional '.int' suffix.", "tests/lock_pp_defs.rs"),
        (crate::errcodes::USE_SELF_IMPORT, "use-self-import", "file imports itself via a use statement", CheckSeverity::Warning, RuleDomain::RefIntegrity, "imports", "File imports itself via a use statement.", "tests/use_import_codes.rs"),
        (crate::errcodes::USE_ALIAS_COLLISION, "use-alias-collision", "use alias collides with an existing name", CheckSeverity::Error, RuleDomain::RefIntegrity, "imports", "A use alias collides with an existing name.", "tests/use_statement_diagnostics.rs"),
        (crate::errcodes::USE_VERSIONED_TARGET_NOT_FOUND, "use-versioned-target-not-found", "versioned use target not found", CheckSeverity::Error, RuleDomain::RefIntegrity, "imports", "The versioned use target file was not found.", "tests/use_import_codes.rs"),
        (crate::errcodes::USE_IMPORT_SYMBOL_NOT_FOUND, "use-import-symbol-not-found", "import(...) symbol not found in the target file", CheckSeverity::Error, RuleDomain::RefIntegrity, "imports", "A symbol listed in use import(...) was not found in the target file.", "tests/use_import_codes.rs"),
        (crate::errcodes::USE_REEXPORT_SYMBOL_NOT_FOUND, "use-reexport-symbol-not-found", "pub use import symbol cannot be re-exported", CheckSeverity::Error, RuleDomain::RefIntegrity, "imports", "A symbol in pub use import(...) was not found and cannot be re-exported.", "tests/use_import_codes.rs"),
        (crate::errcodes::IFACE_PINS_NOT_ALL_BOUND, "iface-pins-not-all-bound", "interface needs more pins than are bound", CheckSeverity::Warning, RuleDomain::PinDecl, "interface", "Interface requires more pins than are bound to physical pins.", "tests/dynamic_pin_access.rs"),
        (crate::errcodes::IFACE_ROLE_NOT_FOUND, "iface-role-not-found", "param references a role the interface lacks", CheckSeverity::Warning, RuleDomain::RefIntegrity, "interface", "Interface role referenced by a param does not exist in the interface.", "tests/lock_pp_interface.rs"),
        (crate::errcodes::IFACE_NOT_LOADED, "iface-not-loaded", "interface referenced by a param is not loaded", CheckSeverity::Warning, RuleDomain::RefIntegrity, "interface", "Interface referenced by a param is not loaded.", "tests/lock_pp_interface.rs"),
        (crate::errcodes::IFACE_DEPRECATED_CMIE, "iface-deprecated-cmie", "deprecated interface/component/param used", CheckSeverity::Info, RuleDomain::Structure, "interface", "Deprecated interface/component/param used.", "tests/lock_pp_interface.rs"),
        (crate::errcodes::NAME_COMPONENT_LOWERCASE, "name-component-lowercase", "component name starts with lowercase", CheckSeverity::Info, RuleDomain::NamingStyle, "naming", "Component name starts with lowercase; convention is UPPER_SNAKE.", "tests/lock_pp_naming_ports.rs"),
        (crate::errcodes::NAME_PIN_MIXED_CONVENTION, "name-pin-mixed-convention", "component mixes pin naming conventions", CheckSeverity::Info, RuleDomain::NamingStyle, "naming", "Pins use mixed naming conventions.", "tests/lock_pp_naming_ports.rs"),
        (crate::errcodes::NAME_INSTANCE_SINGLE_CHAR, "name-instance-single-char", "instance name is a single character", CheckSeverity::Info, RuleDomain::NamingStyle, "naming", "Instance name is a single character.", "tests/semantic_false_diagnostics.rs"),
        (crate::errcodes::NAME_PORT_INST_SHADOWS_CMIE, "name-port-inst-shadows-cmie", "port/instance name shadows a library CMIE name", CheckSeverity::Warning, RuleDomain::NamingStyle, "naming", "Port/instance name shadows a library CMIE name.", "tests/semantic_false_diagnostics.rs"),
        (crate::errcodes::NAME_PARAM_SHADOWS_CMIE, "name-param-shadows-cmie", "parameter name shadows a library CMIE name", CheckSeverity::Info, RuleDomain::NamingStyle, "naming", "Parameter name shadows a library CMIE name.", "tests/semantic_false_diagnostics.rs"),
        (crate::errcodes::PORT_DUPLICATE_NAME, "port-duplicate-name", "duplicate port name in the module", CheckSeverity::Error, RuleDomain::Duplicate, "ports", "Duplicate port name in the module - ambiguous.", "tests/lock_pp_naming_ports.rs"),
        (crate::errcodes::NAME_PARAM_AND_INSTANCE, "name-param-and-instance", "name is both a value param and an instance", CheckSeverity::Warning, RuleDomain::NamingStyle, "ports", "Name is both a value parameter and an instance.", "tests/semantic_false_diagnostics.rs"),
        (crate::errcodes::INST_DECLARED_MULTIPLE, "inst-declared-multiple", "instance is declared more than once", CheckSeverity::Warning, RuleDomain::Duplicate, "ports", "Instance is declared more than once in the module.", "tests/module_port_interface_ref.rs"),
        (crate::errcodes::FUNC_PARAMS_NO_BODY, "func-params-no-body", "function has params but no body", CheckSeverity::Warning, RuleDomain::Structure, "refs", "Function has parameters but no body (empty implementation).", "tests/lock_pp_refs.rs"),
        (crate::errcodes::REF_INTEGRITY, "ref-integrity", "reference integrity violation", CheckSeverity::Warning, RuleDomain::RefIntegrity, "refs", "Reference integrity violation.", "tests/lock_pp_refs.rs"),
        (crate::errcodes::SPEC_KEY_UNDECLARED_PARAM, "spec-key-undeclared-param", "spec key references an undeclared param", CheckSeverity::Error, RuleDomain::RefIntegrity, "refs", "Spec key references a parameter that is not declared.", "tests/lock_pp_refs.rs"),
        (crate::errcodes::EXPR_THIS_TOP_LEVEL, "expr-this-top-level", "'this' used outside an instance/function context", CheckSeverity::Error, RuleDomain::Structure, "exprs", "'this' used in a top-level net statement; it is only valid inside instance/function contexts.", "tests/lock_pp_exprs.rs"),
        (crate::errcodes::EXPR_PLACEHOLDER_ONLY, "expr-placeholder-only", "connection reaches only a '_' placeholder", CheckSeverity::Warning, RuleDomain::Structure, "exprs", "Net connects only to '_' placeholder; the connection has no effect.", "tests/lock_pp_exprs.rs"),
        (crate::errcodes::ATTR_LARGE_INT, "attr-large-int", "attribute has a suspiciously large integer", CheckSeverity::Warning, RuleDomain::Structure, "exprs", "Attribute has a suspiciously large integer value.", "tests/lock_pp_exprs.rs"),
        (crate::errcodes::ATTR_INFINITE_FLOAT, "attr-infinite-float", "attribute has an infinite float value", CheckSeverity::Warning, RuleDomain::Structure, "exprs", "Attribute has an infinite float value.", "tests/lock_pp_exprs.rs"),
        (crate::errcodes::RANGE_SINGLE_ELEMENT, "range-single-element", "range expands to a single element", CheckSeverity::Info, RuleDomain::Structure, "exprs", "Range expands to a single element.", "tests/lock_pp_exprs.rs"),
        (crate::errcodes::IDX_MULTIPLE_SLICE_SPEC, "idx-multiple-slice-spec", "IDX key has multiple slice specs", CheckSeverity::Warning, RuleDomain::Structure, "exprs", "IDX key has multiple slice specifications.", "tests/lock_pp_exprs.rs"),
        (crate::errcodes::NAME_PORT_SHADOWS_CMIE, "name-port-shadows-cmie", "port name shadows a library CMIE name", CheckSeverity::Warning, RuleDomain::NamingStyle, "extra", "Port name shadows a library CMIE name.", "tests/semantic_false_diagnostics.rs"),
        (crate::errcodes::ENUM_SINGLE_VALUE, "enum-single-value", "enum has only one value", CheckSeverity::Info, RuleDomain::Structure, "extra", "Enum has only one value.", "tests/lock_pp_extra.rs"),
        (crate::errcodes::FUNC_EMPTY_BODY, "func-empty-body", "function has an empty body", CheckSeverity::Warning, RuleDomain::Structure, "extra", "Function has an empty body.", "tests/lock_pp_extra.rs"),
        (crate::errcodes::IFACE_PIN_COUNT_MISMATCH, "iface-pin-count-mismatch", "interface expects more pins than are bound", CheckSeverity::Warning, RuleDomain::PinDecl, "extra", "Interface expects more pins than are bound.", "tests/semantic_false_diagnostics.rs"),
        (crate::errcodes::COMPONENT_EMPTY, "component-empty", "component has no params, pins, attrs, or funcs", CheckSeverity::Warning, RuleDomain::Structure, "extra", "Component has no params, pins, attributes, or functions.", "tests/lock_pp_extra.rs"),
        (crate::errcodes::COMPONENT_NO_PINS, "component-no-pins", "component declares no pins", CheckSeverity::Warning, RuleDomain::PinDecl, "extra", "Component has no pin definitions.", "tests/lock_pp_extra.rs"),
        (crate::errcodes::INTERFACE_EMPTY, "interface-empty", "interface has no pins or roles", CheckSeverity::Warning, RuleDomain::Structure, "extra", "Interface has no pins or roles.", "tests/lock_pp_extra.rs"),
        (crate::errcodes::PARAM_INT_DEFAULT_STRING, "param-int-default-string", "integer param has a string default", CheckSeverity::Error, RuleDomain::Structure, "extra", "Integer param has a string default.", "tests/lock_pp_extra.rs"),
        (crate::errcodes::PARAM_STRING_DEFAULT_NUMERIC, "param-string-default-numeric", "string param has a numeric default", CheckSeverity::Warning, RuleDomain::Structure, "extra", "String param has a numeric-looking default.", "tests/lock_pp_extra.rs"),
        (crate::errcodes::PARAM_UV_DEFAULT_NO_UNIT, "param-uv-default-no-unit", "unit-value default has no unit", CheckSeverity::Warning, RuleDomain::Structure, "extra", "Unit-value param default has no unit suffix (e.g. '5V').", "tests/lock_pp_extra.rs"),
        (crate::errcodes::DEFINE_NO_ATTRS, "define-no-attrs", "define has no attributes", CheckSeverity::Warning, RuleDomain::Structure, "extra", "Define has no attributes.", "tests/lock_pp_extra.rs"),
        (crate::errcodes::DEFINE_NON_ATTR_CLAUSE, "define-non-attr-clause", "define contains a non-attribute clause", CheckSeverity::Warning, RuleDomain::Structure, "extra", "Define contains a non-attribute clause.", "tests/lock_pp_extra.rs"),
        (crate::errcodes::INST_CLASS_NOT_LOADED, "inst-class-not-loaded", "instance class is not loaded", CheckSeverity::Warning, RuleDomain::RefIntegrity, "extra", "Instance references a class that is not loaded.", "tests/use_statement_diagnostics.rs"),
        (crate::errcodes::BUS_DUPLICATE_MEMBER, "bus-duplicate-member", "bus has a duplicate member", CheckSeverity::Warning, RuleDomain::Duplicate, "extra", "Bus has a duplicate member.", "tests/lock_pp_extra.rs"),
        (crate::errcodes::COMPONENT_MIXED_CASE, "component-mixed-case", "component name is not UPPER_SNAKE", CheckSeverity::Info, RuleDomain::NamingStyle, "extra", "Component name uses mixed case; convention is UPPER_SNAKE.", "tests/lock_pp_extra.rs"),
        (crate::errcodes::PARAM_RESERVED_KEYWORD, "param-reserved-keyword", "parameter name is a reserved keyword", CheckSeverity::Warning, RuleDomain::Structure, "extra", "Parameter uses a reserved keyword.", "tests/lock_pp_extra.rs"),
        (crate::errcodes::FUNC_SHARES_NAME_WITH_PORT, "func-shares-name-with-port", "function name collides with a port or param", CheckSeverity::Warning, RuleDomain::NamingStyle, "extra", "Function shares its name with a port/param.", "tests/lock_pp_extra.rs"),
        (crate::errcodes::PARAM_NEGATIVE_DEFAULT, "param-negative-default", "integer default is negative", CheckSeverity::Warning, RuleDomain::Structure, "extra", "Integer param default is negative.", "tests/lock_pp_extra.rs"),
        (crate::errcodes::PARAM_FLOAT_DEFAULT_INVALID, "param-float-default-invalid", "param has an invalid float default", CheckSeverity::Error, RuleDomain::Structure, "extra", "Param has an invalid float default.", "tests/lock_pp_extra.rs"),
        (crate::errcodes::SPEC_KEY_DUPLICATE, "spec-key-duplicate", "spec key appears twice", CheckSeverity::Warning, RuleDomain::Duplicate, "extra", "Spec key appears more than once.", "tests/lock_pp_extra.rs"),
        (crate::errcodes::FUNC_FLOATING_LABEL, "func-floating-label", "function-body net endpoint resolves to nothing declared", CheckSeverity::Warning, RuleDomain::RefIntegrity, "floating", "A function-body net endpoint resolves to nothing declared and floats.", "tests/floating_label.rs"),
        (crate::errcodes::SINGLE_USE_INLINE_NET, "single-use-inline-net", "inline ghost net referenced only once", CheckSeverity::Warning, RuleDomain::RefIntegrity, "gate", "An inline ghost net (base resolves to no declared instance) is referenced only once; likely a typo or a forgotten declaration.", "tests/ignore_warnings.rs"),
        (crate::errcodes::INST_ARG_COUNT_MISMATCH, "inst-arg-count-mismatch", "instance arg count mismatches the class", CheckSeverity::Warning, RuleDomain::RefIntegrity, "insts", "Instance passes more/fewer args than the class declares.", "tests/semantic_false_diagnostics.rs"),
        (crate::errcodes::ROLE_NAME_SHADOWS, "role-name-shadows", "role name shadows a param or pin", CheckSeverity::Warning, RuleDomain::NamingStyle, "insts", "Role shares its name with a parameter or pin/port.", "tests/lock_pp_attrs_insts.rs"),
        (crate::errcodes::USE_MIXED_PATH_SEPARATORS, "use-mixed-path-separators", "use path mixes separators", CheckSeverity::Warning, RuleDomain::RefIntegrity, "body", "A use path mixes '.' and '/' separators.", "tests/use_import_codes.rs"),
        (crate::errcodes::INST_THIS_TYPE, "inst-this-type", "'this :: TYPE' is not allowed", CheckSeverity::Error, RuleDomain::Structure, "body", "'this :: TYPE' declaration is not allowed.", "tests/lock_pp_body.rs"),
        (crate::errcodes::COND_SINGLE_BINARY, "cond-single-binary", "condition against a single binary value", CheckSeverity::Info, RuleDomain::Structure, "body", "Condition compares against a single binary value.", "tests/lock_pp_body.rs"),
        (crate::errcodes::MODULE_PORT_UNUSED, "module-port-unused", "module port is never used", CheckSeverity::Warning, RuleDomain::PinDecl, "body", "Module port is declared but never connected.", "tests/lock_pp_body.rs"),
        (crate::errcodes::POWER_PIN_NO_VOLTAGE, "power-pin-no-voltage", "power pin without a voltage attribute", CheckSeverity::Info, RuleDomain::Power, "hw", "Power pin has no voltage attribute.", "tests/flatten_net_check_diagnostics.rs"),
        (crate::errcodes::HW_PIN_NUMBER_GAP, "hw-pin-number-gap", "pin numbers have gaps", CheckSeverity::Info, RuleDomain::PinDecl, "hw", "Pin numbers have gaps.", "tests/lock_pp_hw.rs"),
        (crate::errcodes::HW_PIN_COUNT_HIGH, "hw-pin-count-high", "pin count is unusually high", CheckSeverity::Info, RuleDomain::PinDecl, "hw", "Pin count is unusually high.", "tests/lock_pp_hw.rs"),
        (crate::errcodes::HW_ZERO_PINS_WITH_PARAMS, "hw-zero-pins-with-params", "zero pins yet has param attributes", CheckSeverity::Warning, RuleDomain::PinDecl, "hw", "Component has zero pins but parameter attributes.", "tests/lock_pp_hw.rs"),
        (crate::errcodes::HW_IFACE_ROLE_UNBOUND, "hw-iface-role-unbound", "interface role is never bound", CheckSeverity::Warning, RuleDomain::PinDecl, "hw", "Interface role is never bound.", "tests/semantic_false_diagnostics.rs"),
        (crate::errcodes::HW_ALL_SAME_IO_TYPE, "hw-all-same-io-type", "all pins share one IO type", CheckSeverity::Info, RuleDomain::IO, "hw", "All pins have the same IO type.", "tests/lock_pp_hw.rs"),
        (crate::errcodes::HW_FUNC_PARAM_SHADOWS_PIN, "hw-func-param-shadows-pin", "function param shadows a pin name", CheckSeverity::Warning, RuleDomain::NamingStyle, "hw", "Function parameter shadows a pin name.", "tests/lock_pp_hw.rs"),
        (crate::errcodes::TYPE_INCOMPATIBLE, "type-incompatible", "incompatible types or units", CheckSeverity::Warning, RuleDomain::Structure, "types", "Incompatible types or unit types.", "tests/semantic_false_diagnostics.rs"),
        (crate::errcodes::VARIANT_BASE_NON_ABSTRACT, "variant-base-non-abstract", "':' target is not an abstract component", CheckSeverity::Error, RuleDomain::RefIntegrity, "adopt", "':' target is not an abstract component.", "tests/defspace_golden.rs"),
        (crate::errcodes::ADOPTS_NON_CAPABILITY, "adopts-non-capability", "'::' target is not a capability", CheckSeverity::Error, RuleDomain::RefIntegrity, "adopt", "'::' target is not a capability.", "tests/defspace_golden.rs"),
        (crate::errcodes::ADOPTED_FUNC_AMBIGUOUS, "adopted-func-ambiguous", "adopted funcs expose the same name", CheckSeverity::Error, RuleDomain::Duplicate, "adopt", "Two adopted capabilities expose the same func name.", "tests/defspace_golden.rs"),
        (crate::errcodes::CAPABILITY_SIGNAL_MISSING, "capability-signal-missing", "capability signal is missing", CheckSeverity::Error, RuleDomain::Structure, "adopt", "Adopting component misses a declared capability signal.", "tests/defspace_golden.rs"),
    ]
}

/// The PostParse rows.
fn post_parse_args_exec() -> (r: Vec<PostArgs>)
    ensures
        r@ == post_parse_args(),
{
    let v: Vec<PostArgs> = vec![
        (crate::errcodes::DUP_CMIE_CROSS_FILE, "dup-cmie-cross-file", "same CMIE name defined in another file", CheckSeverity::Warning, RuleDomain::Duplicate, "duplicate", "Same name defined in another file (cross-file duplicate).", "tests/lock_pp_duplicates.rs"),
        (crate::errcodes::DUP_WITHIN, "dup-within", "duplicate definition within one declaration", CheckSeverity::Warning, RuleDomain::Duplicate, "dupwithin", "Duplicate definition within the same declaration.", "tests/lock_pp_duplicates.rs"),
        (crate::errcodes::DUP_ENUM_VALUE, "dup-enum-value", "duplicate enum value within one enum", CheckSeverity::Error, RuleDomain::Duplicate, "dupwithin", "Enum value appears more than once in the enum.", "tests/lock_pp_duplicates.rs"),
        (crate::errcodes::ENUM_DUPLICATE_VALUE, "enum-duplicate-value", "enum value declared twice", CheckSeverity::Error, RuleDomain::Duplicate, "enums", "Enum has a duplicate value.", "tests/lock_pp_duplicates.rs"),
        (crate::errcodes::ENUM_MEMBER_DOT, "enum-member-dot", "enum member contains a dot", CheckSeverity::Error, RuleDomain::Structure, "enums", "Enum member contains a dot.", "tests/lock_pp_duplicates.rs"),
        (crate::errcodes::ENUM_MEMBER_LEADING_DIGIT, "enum-member-leading-digit", "enum member starts with a digit", CheckSeverity::Error, RuleDomain::Structure, "enums", "Enum member starts with a digit.", "tests/lock_pp_duplicates.rs"),
        (crate::errcodes::ENUM_MEMBER_RESERVED, "enum-member-reserved", "enum member is a reserved keyword", CheckSeverity::Warning, RuleDomain::Structure, "enums", "Enum member is a reserved keyword.", "tests/lock_pp_duplicates.rs"),
        (crate::errcodes::ATTR_SELF_REFERENTIAL, "attr-self-referential", "attribute value equals its own key", CheckSeverity::Warning, RuleDomain::Structure, "enums", "Attribute value equals its own key; likely a copy-paste mistake.", "tests/lock_pp_duplicates.rs"),
        (crate::errcodes::RANGE_REVERSED, "range-reversed", "range appears reversed", CheckSeverity::Warning, RuleDomain::Structure, "enums", "Range appears reversed; did you mean the opposite order?", "tests/lock_pp_duplicates.rs"),
        (crate::errcodes::ATTR_RESERVED_KEYWORD, "attr-reserved-keyword", "attribute name is a reserved keyword", CheckSeverity::Warning, RuleDomain::Structure, "attrs", "Attribute uses a reserved keyword.", "tests/semantic_false_diagnostics.rs"),
        (crate::errcodes::ROLE_EMPTY_BODY, "role-empty-body", "role has an empty body", CheckSeverity::Warning, RuleDomain::Structure, "attrs", "Role has an empty body.", "tests/lock_pp_attrs_insts.rs"),
        (crate::errcodes::ATTR_NESTING_TOO_DEEP, "attr-nesting-too-deep", "attribute nesting exceeds 16 levels", CheckSeverity::Warning, RuleDomain::Structure, "attrs", "Attribute nesting depth exceeds 16.", "tests/lock_pp_attrs_insts.rs"),
        (crate::errcodes::ATTR_PIN_GROUP_UNDEFINED, "attr-pin-group-undefined", "attribute references an undefined pin group", CheckSeverity::Error, RuleDomain::RefIntegrity, "attrs", "Attribute references an undefined pin group, or role used outside a component.", "tests/lock_pp_attrs_insts.rs"),
        (crate::errcodes::PINS_PLUS_AND_PINS_CONFLICT, "pins-plus-and-pins-conflict", "pins = and pins.X = attributes overlap", CheckSeverity::Warning, RuleDomain::PinDecl, "attrs", "Component mixes pins = and pins.X = attributes, or uses a non-constant default.", "tests/semantic_false_diagnostics.rs"),
        (crate::errcodes::COND_EMPTY_BODY, "cond-empty-body", "conditional block has an empty body", CheckSeverity::Warning, RuleDomain::Structure, "conds", "Conditional block has an empty body.", "tests/semantic_false_diagnostics.rs"),
        (crate::errcodes::COND_IF_WITHOUT_ELSE, "cond-if-without-else", "if without a matching else", CheckSeverity::Info, RuleDomain::Structure, "conds", "An `if` without a matching `else`.", "tests/semantic_false_diagnostics.rs"),
        (crate::errcodes::COND_DUPLICATE, "cond-duplicate", "later branch duplicates an earlier condition", CheckSeverity::Warning, RuleDomain::Structure, "conds", "A later if/else-if branch duplicates an earlier branch's condition and can never be selected.", "tests/cond_duplicate.rs"),
        (crate::errcodes::PIN_NC_COMPONENT_LEVEL, "pin-nc-component-level", "NC pin declared at component level", CheckSeverity::Info, RuleDomain::PinDecl, "conds", "NC pin used at component level.", "tests/lock_pp_conds.rs"),
        (crate::errcodes::PIN_IO_MIX_IN_OUT, "pin-io-mix-in-out", "pin mixes In and Out IO types", CheckSeverity::Info, RuleDomain::IO, "conds", "Pin mixes In and Out IO types.", "tests/lock_pp_conds.rs"),
        (crate::errcodes::PIN_IO_MIX_OUTPUT_POWER, "pin-io-mix-output-power", "pin mixes Output and Power IO types", CheckSeverity::Warning, RuleDomain::IO, "conds", "Pin mixes Output and Power IO types.", "tests/lock_pp_conds.rs"),
        (crate::errcodes::PIN_IO_MIX_ANALOG_POWER, "pin-io-mix-analog-power", "pin mixes Analog and Power IO types", CheckSeverity::Info, RuleDomain::IO, "conds", "Pin mixes Analog and Power IO types.", "tests/lock_pp_conds.rs"),
        (crate::errcodes::PARAM_PIN_NAME_SHADOW, "param-pin-name-shadow", "parameter shares a pin name", CheckSeverity::Warning, RuleDomain::NamingStyle, "conds", "Parameter shares its name with a pin.", "tests/lock_pp_conds.rs"),
        (crate::errcodes::MODULE_STUB, "module-stub", "module is a stub", CheckSeverity::Warning, RuleDomain::Structure, "conds", "Module is a stub.", "tests/lock_pp_conds.rs"),
        (crate::errcodes::DEF_AMBIGUOUS_NAME, "def-ambiguous-name", "same name used for different definition kinds", CheckSeverity::Warning, RuleDomain::Duplicate, "defs", "Same name used for different definition kinds.", "tests/lock_pp_defs.rs"),
        (crate::errcodes::DEF_REF_NOT_LOADED, "def-ref-not-loaded", "definition references a class that is not loaded", CheckSeverity::Warning, RuleDomain::RefIntegrity, "defs", "Definition references a class that is not loaded.", "tests/lock_pp_defs.rs"),
        (crate::errcodes::COMPONENT_INT_SUFFIX, "component-int-suffix", "component name has an unconventional .int suffix", CheckSeverity::Warning, RuleDomain::NamingStyle, "defs", "Component has an unconventional '.int' suffix.", "tests/lock_pp_defs.rs"),
        (crate::errcodes::ENUM_INT_SUFFIX, "enum-int-suffix", "enum name has an unconventional .int suffix", CheckSeverity::Info, RuleDomain::NamingStyle, "defs", "Enum has an unconventional '.int' suffix.", "tests/lock_pp_defs.rs"),
        (crate::errcodes::USE_SELF_IMPORT, "use-self-import", "file imports itself via a use statement", CheckSeverity::Warning, RuleDomain::RefIntegrity, "imports", "File imports itself via a use statement.", "tests/use_import_codes.rs"),
        (crate::errcodes::USE_ALIAS_COLLISION, "use-alias-collision", "use alias collides with an existing name", CheckSeverity::Error, RuleDomain::RefIntegrity, "imports", "A use alias collides with an existing name.", "tests/use_statement_diagnostics.rs"),
        (crate::errcodes::USE_VERSIONED_TARGET_NOT_FOUND, "use-versioned-target-not-found", "versioned use target not found", CheckSeverity::Error, RuleDomain::RefIntegrity, "imports", "The versioned use target file was not found.", "tests/use_import_codes.rs"),
        (crate::errcodes::USE_IMPORT_SYMBOL_NOT_FOUND, "use-import-symbol-not-found", "import(...) symbol not found in the target file", CheckSeverity::Error, RuleDomain::RefIntegrity, "imports", "A symbol listed in use import(...) was not found in the target file.", "tests/use_import_codes.rs"),
        (crate::errcodes::USE_REEXPORT_SYMBOL_NOT_FOUND, "use-reexport-symbol-not-found", "pub use import symbol cannot be re-exported", CheckSeverity::Error, RuleDomain::RefIntegrity, "imports", "A symbol in pub use import(...) was not found and cannot be re-exported.", "tests/use_import_codes.rs"),
        (crate::errcodes::IFACE_PINS_NOT_ALL_BOUND, "iface-pins-not-all-bound", "interface needs more pins than are bound", CheckSeverity::Warning, RuleDomain::PinDecl, "interface", "Interface requires more pins than are bound to physical pins.", "tests/dynamic_pin_access.rs"),
        (crate::errcodes::IFACE_ROLE_NOT_FOUND, "iface-role-not-found", "param references a role the interface lacks", CheckSeverity::Warning, RuleDomain::RefIntegrity, "interface", "Interface role referenced by a param does not exist in the interface.", "tests/lock_pp_interface.rs"),
        (crate::errcodes::IFACE_NOT_LOADED, "iface-not-loaded", "interface referenced by a param is not loaded", CheckSeverity::Warning, RuleDomain::RefIntegrity, "interface", "Interface referenced by a param is not loaded.", "tests/lock_pp_interface.rs"),
        (crate::errcodes::IFACE_DEPRECATED_CMIE, "iface-deprecated-cmie", "deprecated interface/component/param used", CheckSeverity::Info, RuleDomain::Structure, "interface", "Deprecated interface/component/param used.", "tests/lock_pp_interface.rs"),
        (crate::errcodes::NAME_COMPONENT_LOWERCASE, "name-component-lowercase", "component name starts with lowercase", CheckSeverity::Info, RuleDomain::NamingStyle, "naming", "Component name starts with lowercase; convention is UPPER_SNAKE.", "tests/lock_pp_naming_ports.rs"),
        (crate::errcodes::NAME_PIN_MIXED_CONVENTION, "name-pin-mixed-convention", "component mixes pin naming conventions", CheckSeverity::Info, RuleDomain::NamingStyle, "naming", "Pins use mixed naming conventions.", "tests/lock_pp_naming_ports.rs"),
        (crate::errcodes::NAME_INSTANCE_SINGLE_CHAR, "name-instance-single-char", "instance name is a single character", CheckSeverity::Info, RuleDomain::NamingStyle, "naming", "Instance name is a single character.", "tests/semantic_false_diagnostics.rs"),
        (crate::errcodes::NAME_PORT_INST_SHADOWS_CMIE, "name-port-inst-shadows-cmie", "port/instance name shadows a library CMIE name", CheckSeverity::Warning, RuleDomain::NamingStyle, "naming", "Port/instance name shadows a library CMIE name.", "tests/semantic_false_diagnostics.rs"),
        (crate::errcodes::NAME_PARAM_SHADOWS_CMIE, "name-param-shadows-cmie", "parameter name shadows a library CMIE name", CheckSeverity::Info, RuleDomain::NamingStyle, "naming", "Parameter name shadows a library CMIE name.", "tests/semantic_false_diagnostics.rs"),
        (crate::errcodes::PORT_DUPLICATE_NAME, "port-duplicate-name", "duplicate port name in the module", CheckSeverity::Error, RuleDomain::Duplicate, "ports", "Duplicate port name in the module - ambiguous.", "tests/lock_pp_naming_ports.rs"),
        (crate::errcodes::NAME_PARAM_AND_INSTANCE, "name-param-and-instance", "name is both a value param and an instance", CheckSeverity::Warning, RuleDomain::NamingStyle, "ports", "Name is both a value parameter and an instance.", "tests/semantic_false_diagnostics.rs"),
        (crate::errcodes::INST_DECLARED_MULTIPLE, "inst-declared-multiple", "instance is declared more than once", CheckSeverity::Warning, RuleDomain::Duplicate, "ports", "Instance is declared more than once in the module.", "tests/module_port_interface_ref.rs"),
        (crate::errcodes::FUNC_PARAMS_NO_BODY, "func-params-no-body", "function has params but no body", CheckSeverity::Warning, RuleDomain::Structure, "refs", "Function has parameters but no body (empty implementation).", "tests/lock_pp_refs.rs"),
        (crate::errcodes::REF_INTEGRITY, "ref-integrity", "reference integrity violation", CheckSeverity::Warning, RuleDomain::RefIntegrity, "refs", "Reference integrity violation.", "tests/lock_pp_refs.rs"),
        (crate::errcodes::SPEC_KEY_UNDECLARED_PARAM, "spec-key-undeclared-param", "spec key references an undeclared param", CheckSeverity::Error, RuleDomain::RefIntegrity, "refs", "Spec key references a parameter that is not declared.", "tests/lock_pp_refs.rs"),
        (crate::errcodes::EXPR_THIS_TOP_LEVEL, "expr-this-top-level", "'this' used outside an instance/function context", CheckSeverity::Error, RuleDomain::Structure, "exprs", "'this' used in a top-level net statement; it is only valid inside instance/function contexts.", "tests/lock_pp_exprs.rs"),
        (crate::errcodes::EXPR_PLACEHOLDER_ONLY, "expr-placeholder-only", "connection reaches only a '_' placeholder", CheckSeverity::Warning, RuleDomain::Structure, "exprs", "Net connects only to '_' placeholder; the connection has no effect.", "tests/lock_pp_exprs.rs"),
        (crate::errcodes::ATTR_LARGE_INT, "attr-large-int", "attribute has a suspiciously large integer", CheckSeverity::Warning, RuleDomain::Structure, "exprs", "Attribute has a suspiciously large integer value.", "tests/lock_pp_exprs.rs"),
        (crate::errcodes::ATTR_INFINITE_FLOAT, "attr-infinite-float", "attribute has an infinite float value", CheckSeverity::Warning, RuleDomain::Structure, "exprs", "Attribute has an infinite float value.", "tests/lock_pp_exprs.rs"),
        (crate::errcodes::RANGE_SINGLE_ELEMENT, "range-single-element", "range expands to a single element", CheckSeverity::Info, RuleDomain::Structure, "exprs", "Range expands to a single element.", "tests/lock_pp_exprs.rs"),
        (crate::errcodes::IDX_MULTIPLE_SLICE_SPEC, "idx-multiple-slice-spec", "IDX key has multiple slice specs", CheckSeverity::Warning, RuleDomain::Structure, "exprs", "IDX key has multiple slice specifications.", "tests/lock_pp_exprs.rs"),
        (crate::errcodes::NAME_PORT_SHADOWS_CMIE, "name-port-shadows-cmie", "port name shadows a library CMIE name", CheckSeverity::Warning, RuleDomain::NamingStyle, "extra", "Port name shadows a library CMIE name.", "tests/semantic_false_diagnostics.rs"),
        (crate::errcodes::ENUM_SINGLE_VALUE, "enum-single-value", "enum has only one value", CheckSeverity::Info, RuleDomain::Structure, "extra", "Enum has only one value.", "tests/lock_pp_extra.rs"),
        (crate::errcodes::FUNC_EMPTY_BODY, "func-empty-body", "function has an empty body", CheckSeverity::Warning, RuleDomain::Structure, "extra", "Function has an empty body.", "tests/lock_pp_extra.rs"),
        (crate::errcodes::IFACE_PIN_COUNT_MISMATCH, "iface-pin-count-mismatch", "interface expects more pins than are bound", CheckSeverity::Warning, RuleDomain::PinDecl, "extra", "Interface expects more pins than are bound.", "tests/semantic_false_diagnostics.rs"),
        (crate::errcodes::COMPONENT_EMPTY, "component-empty", "component has no params, pins, attrs, or funcs", CheckSeverity::Warning, RuleDomain::Structure, "extra", "Component has no params, pins, attributes, or functions.", "tests/lock_pp_extra.rs"),
        (crate::errcodes::COMPONENT_NO_PINS, "component-no-pins", "component declares no pins", CheckSeverity::Warning, RuleDomain::PinDecl, "extra", "Component has no pin definitions.", "tests/lock_pp_extra.rs"),
        (crate::errcodes::INTERFACE_EMPTY, "interface-empty", "interface has no pins or roles", CheckSeverity::Warning, RuleDomain::Structure, "extra", "Interface has no pins or roles.", "tests/lock_pp_extra.rs"),
        (crate::errcodes::PARAM_INT_DEFAULT_STRING, "param-int-default-string", "integer param has a string default", CheckSeverity::Error, RuleDomain::Structure, "extra", "Integer param has a string default.", "tests/lock_pp_extra.rs"),
        (crate::errcodes::PARAM_STRING_DEFAULT_NUMERIC, "param-string-default-numeric", "string param has a numeric default", CheckSeverity::Warning, RuleDomain::Structure, "extra", "String param has a numeric-looking default.", "tests/lock_pp_extra.rs"),
        (crate::errcodes::PARAM_UV_DEFAULT_NO_UNIT, "param-uv-default-no-unit", "unit-value default has no unit", CheckSeverity::Warning, RuleDomain::Structure, "extra", "Unit-value param default has no unit suffix (e.g. '5V').", "tests/lock_pp_extra.rs"),
        (crate::errcodes::DEFINE_NO_ATTRS, "define-no-attrs", "define has no attributes", CheckSeverity::Warning, RuleDomain::Structure, "extra", "Define has no attributes.", "tests/lock_pp_extra.rs"),
        (crate::errcodes::DEFINE_NON_ATTR_CLAUSE, "define-non-attr-clause", "define contains a non-attribute clause", CheckSeverity::Warning, RuleDomain::Structure, "extra", "Define contains a non-attribute clause.", "tests/lock_pp_extra.rs"),
        (crate::errcodes::INST_CLASS_NOT_LOADED, "inst-class-not-loaded", "instance class is not loaded", CheckSeverity::Warning, RuleDomain::RefIntegrity, "extra", "Instance references a class that is not loaded.", "tests/use_statement_diagnostics.rs"),
        (crate::errcodes::BUS_DUPLICATE_MEMBER, "bus-duplicate-member", "bus has a duplicate member", CheckSeverity::Warning, RuleDomain::Duplicate, "extra", "Bus has a duplicate member.", "tests/lock_pp_extra.rs"),
        (crate::errcodes::COMPONENT_MIXED_CASE, "component-mixed-case", "component name is not UPPER_SNAKE", CheckSeverity::Info, RuleDomain::NamingStyle, "extra", "Component name uses mixed case; convention is UPPER_SNAKE.", "tests/lock_pp_extra.rs"),
        (crate::errcodes::PARAM_RESERVED_KEYWORD, "param-reserved-keyword", "parameter name is a reserved keyword", CheckSeverity::Warning, RuleDomain::Structure, "extra", "Parameter uses a reserved keyword.", "tests/lock_pp_extra.rs"),
        (crate::errcodes::FUNC_SHARES_NAME_WITH_PORT, "func-shares-name-with-port", "function name collides with a port or param", CheckSeverity::Warning, RuleDomain::NamingStyle, "extra", "Function shares its name with a port/param.", "tests/lock_pp_extra.rs"),
        (crate::errcodes::PARAM_NEGATIVE_DEFAULT, "param-negative-default", "integer default is negative", CheckSeverity::Warning, RuleDomain::Structure, "extra", "Integer param default is negative.", "tests/lock_pp_extra.rs"),
        (crate::errcodes::PARAM_FLOAT_DEFAULT_INVALID, "param-float-default-invalid", "param has an invalid float default", CheckSeverity::Error, RuleDomain::Structure, "extra", "Param has an invalid float default.", "tests/lock_pp_extra.rs"),
        (crate::errcodes::SPEC_KEY_DUPLICATE, "spec-key-duplicate", "spec key appears twice", CheckSeverity::Warning, RuleDomain::Duplicate, "extra", "Spec key appears more than once.", "tests/lock_pp_extra.rs"),
        (crate::errcodes::FUNC_FLOATING_LABEL, "func-floating-label", "function-body net endpoint resolves to nothing declared", CheckSeverity::Warning, RuleDomain::RefIntegrity, "floating", "A function-body net endpoint resolves to nothing declared and floats.", "tests/floating_label.rs"),
        (crate::errcodes::SINGLE_USE_INLINE_NET, "single-use-inline-net", "inline ghost net referenced only once", CheckSeverity::Warning, RuleDomain::RefIntegrity, "gate", "An inline ghost net (base resolves to no declared instance) is referenced only once; likely a typo or a forgotten declaration.", "tests/ignore_warnings.rs"),
        (crate::errcodes::INST_ARG_COUNT_MISMATCH, "inst-arg-count-mismatch", "instance arg count mismatches the class", CheckSeverity::Warning, RuleDomain::RefIntegrity, "insts", "Instance passes more/fewer args than the class declares.", "tests/semantic_false_diagnostics.rs"),
        (crate::errcodes::ROLE_NAME_SHADOWS, "role-name-shadows", "role name shadows a param or pin", CheckSeverity::Warning, RuleDomain::NamingStyle, "insts", "Role shares its name with a parameter or pin/port.", "tests/lock_pp_attrs_insts.rs"),
        (crate::errcodes::USE_MIXED_PATH_SEPARATORS, "use-mixed-path-separators", "use path mixes separators", CheckSeverity::Warning, RuleDomain::RefIntegrity, "body", "A use path mixes '.' and '/' separators.", "tests/use_import_codes.rs"),
        (crate::errcodes::INST_THIS_TYPE, "inst-this-type", "'this :: TYPE' is not allowed", CheckSeverity::Error, RuleDomain::Structure, "body", "'this :: TYPE' declaration is not allowed.", "tests/lock_pp_body.rs"),
        (crate::errcodes::COND_SINGLE_BINARY, "cond-single-binary", "condition against a single binary value", CheckSeverity::Info, RuleDomain::Structure, "body", "Condition compares against a single binary value.", "tests/lock_pp_body.rs"),
        (crate::errcodes::MODULE_PORT_UNUSED, "module-port-unused", "module port is never used", CheckSeverity::Warning, RuleDomain::PinDecl, "body", "Module port is declared but never connected.", "tests/lock_pp_body.rs"),
        (crate::errcodes::POWER_PIN_NO_VOLTAGE, "power-pin-no-voltage", "power pin without a voltage attribute", CheckSeverity::Info, RuleDomain::Power, "hw", "Power pin has no voltage attribute.", "tests/flatten_net_check_diagnostics.rs"),
        (crate::errcodes::HW_PIN_NUMBER_GAP, "hw-pin-number-gap", "pin numbers have gaps", CheckSeverity::Info, RuleDomain::PinDecl, "hw", "Pin numbers have gaps.", "tests/lock_pp_hw.rs"),
        (crate::errcodes::HW_PIN_COUNT_HIGH, "hw-pin-count-high", "pin count is unusually high", CheckSeverity::Info, RuleDomain::PinDecl, "hw", "Pin count is unusually high.", "tests/lock_pp_hw.rs"),
        (crate::errcodes::HW_ZERO_PINS_WITH_PARAMS, "hw-zero-pins-with-params", "zero pins yet has param attributes", CheckSeverity::Warning, RuleDomain::PinDecl, "hw", "Component has zero pins but parameter attributes.", "tests/lock_pp_hw.rs"),
        (crate::errcodes::HW_IFACE_ROLE_UNBOUND, "hw-iface-role-unbound", "interface role is never bound", CheckSeverity::Warning, RuleDomain::PinDecl, "hw", "Interface role is never bound.", "tests/semantic_false_diagnostics.rs"),
        (crate::errcodes::HW_ALL_SAME_IO_TYPE, "hw-all-same-io-type", "all pins share one IO type", CheckSeverity::Info, RuleDomain::IO, "hw", "All pins have the same IO type.", "tests/lock_pp_hw.rs"),
        (crate::errcodes::HW_FUNC_PARAM_SHADOWS_PIN, "hw-func-param-shadows-pin", "function param shadows a pin name", CheckSeverity::Warning, RuleDomain::NamingStyle, "hw", "Function parameter shadows a pin name.", "tests/lock_pp_hw.rs"),
        (crate::errcodes::TYPE_INCOMPATIBLE, "type-incompatible", "incompatible types or units", CheckSeverity::Warning, RuleDomain::Structure, "types", "Incompatible types or unit types.", "tests/semantic_false_diagnostics.rs"),
        (crate::errcodes::VARIANT_BASE_NON_ABSTRACT, "variant-base-non-abstract", "':' target is not an abstract component", CheckSeverity::Error, RuleDomain::RefIntegrity, "adopt", "':' target is not an abstract component.", "tests/defspace_golden.rs"),
        (crate::errcodes::ADOPTS_NON_CAPABILITY, "adopts-non-capability", "'::' target is not a capability", CheckSeverity::Error, RuleDomain::RefIntegrity, "adopt", "'::' target is not a capability.", "tests/defspace_golden.rs"),
        (crate::errcodes::ADOPTED_FUNC_AMBIGUOUS, "adopted-func-ambiguous", "adopted funcs expose the same name", CheckSeverity::Error, RuleDomain::Duplicate, "adopt", "Two adopted capabilities expose the same func name.", "tests/defspace_golden.rs"),
        (crate::errcodes::CAPABILITY_SIGNAL_MISSING, "capability-signal-missing", "capability signal is missing", CheckSeverity::Error, RuleDomain::Structure, "adopt", "Adopting component misses a declared capability signal.", "tests/defspace_golden.rs"),
    ];
    v
}


/// The flattened-net ERC table in execution order.
pub open spec fn flat_erc_table() -> Seq<FlatErcRule> {
    flat_erc_args().map_values(|a: FlatArgs| flat_row(a))
}

/// The declaration table in execution order.
pub open spec fn decl_table() -> Seq<DeclRule> {
    decl_args().map_values(|a: DeclArgs| decl_row(a))
}

/// The assembly-gate table in tag order.
pub open spec fn gate_table() -> Seq<GateRule> {
    gate_args().map_values(|a: GateArgs| gate_row(a))
}

/// The post-parse table in host registration order.
pub open spec fn post_parse_table() -> Seq<PostParseRule> {
    post_parse_args().map_values(|a: PostArgs| post_row(a))
}

/// All flattened-net ERC rules in execution order.
pub fn flat_erc_rules() -> (r: Vec<FlatErcRule>)
    ensures
        r@ == flat_erc_table(),
{
    let args = flat_erc_args_exec();
    let mut out: Vec<FlatErcRule> = Vec::new();
    let mut i: usize = 0;
    while i < args.len()
        invariant
            0 <= i <= args@.len(),
            args@ == flat_erc_args(),
            out@ == flat_erc_table().take(i as int),
        decreases args@.len() - i,
    {
        out.push(flat_row_exec(args[i]));
        assert(out@ =~= flat_erc_table().take(i + 1));
        i += 1;
    }
    out
}

/// All declaration rules in execution order.
pub fn declaration_rules() -> (r: Vec<DeclRule>)
    ensures
        r@ == decl_table(),
{
    let args = decl_args_exec();
    let mut out: Vec<DeclRule> = Vec::new();
    let mut i: usize = 0;
    while i < args.len()
        invariant
            0 <= i <= args@.len(),
            args@ == decl_args(),
            out@ == decl_table().take(i as int),
        decreases args@.len() - i,
    {
        out.push(decl_row_exec(args[i]));
        assert(out@ =~= decl_table().take(i + 1));
        i += 1;
    }
    out
}

/// All assembly-gate rules in tag order.
pub fn assembly_gate_rules() -> (r: Vec<GateRule>)
    ensures
        r@ == gate_table(),
{
    let args = gate_args_exec();
    let mut out: Vec<GateRule> = Vec::new();
    let mut i: usize = 0;
    while i < args.len()
        invariant
            0 <= i <= args@.len(),
            args@ == gate_args(),
            out@ == gate_table().take(i as int),
        decreases args@.len() - i,
    {
        out.push(gate_row_exec(args[i]));
        assert(out@ =~= gate_table().take(i + 1));
        i += 1;
    }
    out
}

/// All post-parse rules in host registration order.
pub fn post_parse_rules() -> (r: Vec<PostParseRule>)
    ensures
        r@ == post_parse_table(),
{
    let args = post_parse_args_exec();
    let mut out: Vec<PostParseRule> = Vec::new();
    let mut i: usize = 0;
    while i < args.len()
        invariant
            0 <= i <= args@.len(),
            args@ == post_parse_args(),
            out@ == post_parse_table().take(i as int),
        decreases args@.len() - i,
    {
        out.push(post_row_exec(args[i]));
        assert(out@ =~= post_parse_table().take(i + 1));
        i += 1;
    }
    out
}


// ---------------------------------------------------------------------------
// Catalog queries
// ---------------------------------------------------------------------------

/// Every numeric-code rule's metadata: the flattened-net ERC, declaration,
/// assembly-gate and post-parse tables concatenated in that order.
pub open spec fn catalog() -> Seq<RuleMeta> {
    flat_erc_table().map_values(|r: FlatErcRule| r.meta) + decl_table().map_values(
        |r: DeclRule| r.meta,
    ) + gate_table().map_values(|r: GateRule| r.meta) + post_parse_table().map_values(
        |r: PostParseRule| r.meta,
    )
}

fn catalog_exec() -> (r: Vec<RuleMeta>)
    ensures
        r@ == catalog(),
{
    let mut out: Vec<RuleMeta> = Vec::new();
    let f = flat_erc_rules();
    let mut i: usize = 0;
    while i < f.len()
        invariant
            0 <= i <= f@.len(),
            f@ == flat_erc_table(),
            out@ == flat_erc_table().map_values(|r: FlatErcRule| r.meta).take(i as int),
        decreases f@.len() - i,
    {
        out.push(f[i].meta);
        assert(out@ =~= flat_erc_table().map_values(|r: FlatErcRule| r.meta).take(i + 1));
        i += 1;
    }
    let ghost a = out@;
    assert(a =~= flat_erc_table().map_values(|r: FlatErcRule| r.meta));
    let d = declaration_rules();
    let mut i: usize = 0;
    while i < d.len()
        invariant
            0 <= i <= d@.len(),
            d@ == decl_table(),
            out@ == a + decl_table().map_values(|r: DeclRule| r.meta).take(i as int),
        decreases d@.len() - i,
    {
        out.push(d[i].meta);
        assert(out@ =~= a + decl_table().map_values(|r: DeclRule| r.meta).take(i + 1));
        i += 1;
    }
    let ghost b = out@;
    assert(b =~= a + decl_table().map_values(|r: DeclRule| r.meta));
    let g = assembly_gate_rules();
    let mut i: usize = 0;
    while i < g.len()
        invariant
            0 <= i <= g@.len(),
            g@ == gate_table(),
            out@ == b + gate_table().map_values(|r: GateRule| r.meta).take(i as int),
        decreases g@.len() - i,
    {
        out.push(g[i].meta);
        assert(out@ =~= b + gate_table().map_values(|r: GateRule| r.meta).take(i + 1));
        i += 1;
    }
    let ghost c = out@;
    assert(c =~= b + gate_table().map_values(|r: GateRule| r.meta));
    let p = post_parse_rules();
    let mut i: usize = 0;
    while i < p.len()
        invariant
            0 <= i <= p@.len(),
            p@ == post_parse_table(),
            out@ == c + post_parse_table().map_values(|r: PostParseRule| r.meta).take(i as int),
        decreases p@.len() - i,
    {
        out.push(p[i].meta);
        assert(out@ =~= c + post_parse_table().map_values(|r: PostParseRule| r.meta).take(i + 1));
        i += 1;
    }
    assert(out@ =~= catalog());
    out
}

/// Number of rules in the four numeric-code tables.
pub fn rule_count() -> (r: usize)
    ensures
        r == catalog().len(),
        r == flat_erc_table().len() + decl_table().len() + gate_table().len()
            + post_parse_table().len(),
{
    let a = flat_erc_rules().len();
    let b = declaration_rules().len();
    let c = assembly_gate_rules().len();
    let d = post_parse_rules().len();
    assert(a == 16 && b == 2 && c == 15 && d == 93);
    a + b + c + d
}

/// The first rule of `c` with the given code.
pub open spec fn first_with_code(c: Seq<RuleMeta>, code: u32) -> Option<RuleMeta>
    decreases c.len(),
{
    if c.len() == 0 {
        None
    } else if c[0].code == code {
        Some(c[0])
    } else {
        first_with_code(c.drop_first(), code)
    }
}

/// Find a rule by numeric code across every scope table, tables searched in
/// catalog order; `None` for unknown codes.
pub fn find_rule(code: u32) -> (r: Option<RuleMeta>)
    ensures
        r == first_with_code(catalog(), code),
{
    let c = catalog_exec();
    let mut i: usize = 0;
    assert(c@.skip(0) =~= c@);
    while i < c.len()
        invariant
            0 <= i <= c@.len(),
            c@ == catalog(),
            first_with_code(catalog(), code) == first_with_code(c@.skip(i as int), code),
        decreases c@.len() - i,
    {
        assert(c@.skip(i as int).drop_first() =~= c@.skip(i + 1));
        if c[i].code == code {
            return Some(c[i]);
        }
        i += 1;
    }
    None
}

/// Filter axes for [`query_rules`]; `None` on an axis means any value.
#[derive(Debug, Clone, Copy, PartialEq, Eq)]
pub struct RuleFilter {
    pub scope: Option<RuleScope>,
    pub domain: Option<RuleDomain>,
    pub severity: Option<CheckSeverity>,
    pub plane: Option<RulePlane>,
    pub gate: Option<GateKind>,
    /// `Some(true)`: overridable rows only; `Some(false)`: the rest.
    pub overridable: Option<bool>,
    pub fix: Option<FixKind>,
}

impl Default for RuleFilter {
    fn default() -> (r: RuleFilter)
        ensures
            r == (RuleFilter {
                scope: None,
                domain: None,
                severity: None,
                plane: None,
                gate: None,
                overridable: None,
                fix: None,
            }),
    {
        RuleFilter {
            scope: None,
            domain: None,
            severity: None,
            plane: None,
            gate: None,
            overridable: None,
            fix: None,
        }
    }
}

/// The filter that selects one scope and nothing else.
pub open spec fn scope_filter(s: RuleScope) -> RuleFilter {
    RuleFilter {
        scope: Some(s),
        domain: None,
        severity: None,
        plane: None,
        gate: None,
        overridable: None,
        fix: None,
    }
}

/// Whether a rule matches every axis the filter sets.
pub open spec fn hit(m: RuleMeta, f: RuleFilter) -> bool {
    &&& (f.scope matches Some(v) ==> m.scope == v)
    &&& (f.domain matches Some(v) ==> m.domain == v)
    &&& (f.severity matches Some(v) ==> m.severity == v)
    &&& (f.plane matches Some(v) ==> m.plane == v)
    &&& (f.gate matches Some(v) ==> m.gate == v)
    &&& (f.overridable matches Some(v) ==> m.overridable == v)
    &&& (f.fix matches Some(v) ==> m.fix == v)
}

/// The rules of `c` matching the filter, in order.
pub open spec fn select(c: Seq<RuleMeta>, f: RuleFilter) -> Seq<RuleMeta>
    decreases c.len(),
{
    if c.len() == 0 {
        seq![]
    } else if hit(c.last(), f) {
        select(c.drop_last(), f).push(c.last())
    } else {
        select(c.drop_last(), f)
    }
}

/// A query keeps exactly the rules that match every axis the filter sets,
/// in their order: each kept rule is a rule of the list and has the scope,
/// domain, severity, plane, gate, overridability and fix kind the filter
/// names, and each rule of the list that has all of them is kept.
pub proof fn query_keeps_exactly_the_matching_rules(c: Seq<RuleMeta>, f: RuleFilter)
    ensures
        forall|k: int|
            0 <= k < select(c, f).len() ==> {
                let m = #[trigger] select(c, f)[k];
                &&& c.contains(m)
                &&& (f.scope matches Some(w) ==> m.scope == w)
                &&& (f.domain matches Some(w) ==> m.domain == w)
                &&& (f.severity matches Some(w) ==> m.severity == w)
                &&& (f.plane matches Some(w) ==> m.plane == w)
                &&& (f.gate matches Some(w) ==> m.gate == w)
                &&& (f.overridable matches Some(w) ==> m.overridable == w)
                &&& (f.fix matches Some(w) ==> m.fix == w)
            },
        forall|j: int|
            0 <= j < c.len() ==> {
                let m = #[trigger] c[j];
                (f.scope matches Some(w) ==> m.scope == w) && (f.domain matches Some(w)
                    ==> m.domain == w) && (f.severity matches Some(w) ==> m.severity == w) && (
                f.plane matches Some(w) ==> m.plane == w) && (f.gate matches Some(w) ==> m.gate
                    == w) && (f.overridable matches Some(w) ==> m.overridable == w) && (
                f.fix matches Some(w) ==> m.fix == w) ==> select(c, f).contains(m)
            },
        select(c, f).len() <= c.len(),
    decreases c.len(),
{
    if c.len() > 0 {
        let d = c.drop_last();
        query_keeps_exactly_the_matching_rules(d, f);
        assert forall|k: int| 0 <= k < select(c, f).len() implies c.contains(
            #[trigger] select(c, f)[k],
        ) && hit(select(c, f)[k], f) by {
            if k < select(d, f).len() {
                assert(select(c, f)[k] == select(d, f)[k]);
                let m = select(d, f)[k];
                let w = choose|w: int| 0 <= w < d.len() && d[w] == m;
                assert(c[w] == m);
            } else {
                assert(select(c, f)[k] == c.last());
                assert(c[c.len() - 1] == c.last());
            }
        }
        assert forall|j: int| 0 <= j < c.len() && hit(#[trigger] c[j], f) implies select(
            c,
            f,
        ).contains(c[j]) by {
            if j < c.len() - 1 {
                assert(d[j] == c[j]);
                let m = c[j];
                let w = choose|w: int| 0 <= w < select(d, f).len() && select(d, f)[w] == m;
                if hit(c.last(), f) {
                    assert(select(c, f)[w] == m);
                } else {
                    assert(select(c, f)[w] == m);
                }
            } else {
                assert(select(c, f)[select(c, f).len() - 1] == c[j]);
            }
        }
    }
}

/// Queries keep catalog order: a rule added after the others is kept, after
/// every rule kept before, exactly when it matches every axis the filter
/// sets, and nothing kept before changes.
pub proof fn query_keeps_catalog_order(c: Seq<RuleMeta>, m: RuleMeta, f: RuleFilter)
    ensures
        select(c.push(m), f) == (if (f.scope matches Some(w) ==> m.scope == w) && (
        f.domain matches Some(w) ==> m.domain == w) && (f.severity matches Some(w)
            ==> m.severity == w) && (f.plane matches Some(w) ==> m.plane == w) && (
        f.gate matches Some(w) ==> m.gate == w) && (f.overridable matches Some(w)
            ==> m.overridable == w) && (f.fix matches Some(w) ==> m.fix == w) {
            select(c, f).push(m)
        } else {
            select(c, f)
        }),
{
    assert(c.push(m).drop_last() =~= c);
}

/// The blocking set keeps table order: a row added after the others adds
/// its tag at the end exactly when it is blocking.
pub proof fn blocking_set_keeps_table_order(g: Seq<GateRule>, x: GateRule)
    ensures
        blocking_tags(g.push(x)) == (if x.meta.gate == GateKind::Blocking {
            blocking_tags(g).push(x.meta.name)
        } else {
            blocking_tags(g)
        }),
{
    assert(g.push(x).drop_last() =~= g);
}

/// A lookup by code finds the first rule carrying that code, and finds
/// nothing only when no rule carries it.
pub proof fn code_lookup_law(c: Seq<RuleMeta>, code: u32)
    ensures
        first_with_code(c, code) matches Some(m) ==> exists|i: int|
            0 <= i < c.len() && #[trigger] c[i] == m && m.code == code && forall|j: int|
                0 <= j < i ==> (#[trigger] c[j]).code != code,
        first_with_code(c, code) is None <==> forall|j: int|
            0 <= j < c.len() ==> (#[trigger] c[j]).code != code,
    decreases c.len(),
{
    if c.len() > 0 {
        let d = c.drop_first();
        code_lookup_law(d, code);
        if c[0].code != code {
            if let Some(m) = first_with_code(d, code) {
                let i = choose|i: int|
                    0 <= i < d.len() && #[trigger] d[i] == m && m.code == code && forall|j: int|
                        0 <= j < i ==> (#[trigger] d[j]).code != code;
                assert(c[i + 1] == m);
                assert forall|j: int| 0 <= j < i + 1 implies (#[trigger] c[j]).code != code by {
                    if j > 0 {
                        assert(c[j] == d[j - 1]);
                    }
                }
            } else {
                assert forall|j: int| 0 <= j < c.len() implies (#[trigger] c[j]).code != code by {
                    if j > 0 {
                        assert(c[j] == d[j - 1]);
                    }
                }
            }
        } else {
            assert(c[0] == c[0]);
        }
    }
}

/// A lookup by tag finds the first gate row with that tag, and finds
/// nothing only when no row has it.
pub proof fn tag_lookup_law(g: Seq<GateRule>, tag: Seq<char>)
    ensures
        first_with_tag(g, tag) matches Some(m) ==> exists|i: int|
            0 <= i < g.len() && #[trigger] g[i] == m && m.meta.name@ == tag && forall|j: int|
                0 <= j < i ==> (#[trigger] g[j]).meta.name@ != tag,
        first_with_tag(g, tag) is None <==> forall|j: int|
            0 <= j < g.len() ==> (#[trigger] g[j]).meta.name@ != tag,
    decreases g.len(),
{
    if g.len() > 0 {
        let d = g.drop_first();
        tag_lookup_law(d, tag);
        if g[0].meta.name@ != tag {
            if let Some(m) = first_with_tag(d, tag) {
                let i = choose|i: int|
                    0 <= i < d.len() && #[trigger] d[i] == m && m.meta.name@ == tag && forall|
                        j: int,
                    |
                        0 <= j < i ==> (#[trigger] d[j]).meta.name@ != tag;
                assert(g[i + 1] == m);
                assert forall|j: int| 0 <= j < i + 1 implies (#[trigger] g[j]).meta.name@
                    != tag by {
                    if j > 0 {
                        assert(g[j] == d[j - 1]);
                    }
                }
            } else {
                assert forall|j: int| 0 <= j < g.len() implies (#[trigger] g[j]).meta.name@
                    != tag by {
                    if j > 0 {
                        assert(g[j] == d[j - 1]);
                    }
                }
            }
        }
    }
}

/// Whether some row of `g` is blocking and carries the tag `name`.
pub open spec fn blocking_row_named(g: Seq<GateRule>, name: &'static str) -> bool {
    exists|i: int| 0 <= i < g.len() && (#[trigger] g[i]).meta.gate == GateKind::Blocking
        && g[i].meta.name == name
}

/// The blocking set lists exactly the tags of the blocking rows: each
/// listed tag names a blocking row, each blocking row's tag is listed, and
/// there are no more tags than rows.
pub proof fn blocking_set_law(g: Seq<GateRule>)
    ensures
        forall|k: int|
            0 <= k < blocking_tags(g).len() ==> blocking_row_named(g, #[trigger] blocking_tags(g)[k]),
        forall|i: int|
            0 <= i < g.len() && (#[trigger] g[i]).meta.gate == GateKind::Blocking
                ==> blocking_tags(g).contains(g[i].meta.name),
        blocking_tags(g).len() <= g.len(),
    decreases g.len(),
{
    if g.len() > 0 {
        let d = g.drop_last();
        blocking_set_law(d);
        let t = blocking_tags(g);
        assert forall|k: int| 0 <= k < t.len() implies blocking_row_named(g, #[trigger] t[k]) by {
            if k < blocking_tags(d).len() {
                assert(t[k] == blocking_tags(d)[k]);
                assert(blocking_row_named(d, blocking_tags(d)[k]));
                let i = choose|i: int|
                    0 <= i < d.len() && (#[trigger] d[i]).meta.gate == GateKind::Blocking
                        && d[i].meta.name == blocking_tags(d)[k];
                assert(g[i] == d[i]);
            } else {
                assert(g[g.len() - 1] == g.last());
            }
        }
        assert forall|i: int|
            0 <= i < g.len() && (#[trigger] g[i]).meta.gate == GateKind::Blocking implies t.contains(
            g[i].meta.name,
        ) by {
            if i < g.len() - 1 {
                assert(g[i] == d[i]);
                let w = choose|w: int|
                    0 <= w < blocking_tags(d).len() && blocking_tags(d)[w] == d[i].meta.name;
                assert(t[w] == d[i].meta.name);
            } else {
                assert(t[t.len() - 1] == g[i].meta.name);
            }
        }
    }
}

fn hit_exec(m: &RuleMeta, f: &RuleFilter) -> (r: bool)
    ensures
        r == hit(*m, *f),
{
    (match f.scope {
        Some(v) => m.scope == v,
        None => true,
    }) && (match f.domain {
        Some(v) => m.domain == v,
        None => true,
    }) && (match f.severity {
        Some(v) => m.severity == v,
        None => true,
    }) && (match f.plane {
        Some(v) => m.plane == v,
        None => true,
    }) && (match f.gate {
        Some(v) => m.gate == v,
        None => true,
    }) && (match f.overridable {
        Some(v) => m.overridable == v,
        None => true,
    }) && (match f.fix {
        Some(v) => m.fix == v,
        None => true,
    })
}

/// Every numeric-code rule matching the filter, in catalog order.
#[verifier::rlimit(40)]
pub fn query_rules(filter: &RuleFilter) -> (r: Vec<RuleMeta>)
    ensures
        r@ == select(catalog(), *filter),
{
    let c = catalog_exec();
    let mut out: Vec<RuleMeta> = Vec::new();
    let mut i: usize = 0;
    while i < c.len()
        invariant
            0 <= i <= c@.len(),
            c@ == catalog(),
            out@ == select(c@.take(i as int), *filter),
        decreases c@.len() - i,
    {
        assert(c@.take(i + 1).drop_last() =~= c@.take(i as int));
        if hit_exec(&c[i], filter) {
            out.push(c[i]);
        }
        i += 1;
    }
    assert(c@.take(c@.len() as int) =~= c@);
    out
}

/// The rules of one scope, in catalog order.
pub fn rules_in_scope(scope: RuleScope) -> (r: Vec<RuleMeta>)
    ensures
        r@ == select(catalog(), scope_filter(scope)),
{
    let f = RuleFilter {
        scope: Some(scope),
        domain: None,
        severity: None,
        plane: None,
        gate: None,
        overridable: None,
        fix: None,
    };
    query_rules(&f)
}

/// The first gate row of `g` with the given tag.
pub open spec fn first_with_tag(g: Seq<GateRule>, tag: Seq<char>) -> Option<GateRule>
    decreases g.len(),
{
    if g.len() == 0 {
        None
    } else if g[0].meta.name@ == tag {
        Some(g[0])
    } else {
        first_with_tag(g.drop_first(), tag)
    }
}

/// Look up an assembly-gate rule by its report tag (`R02`).
pub fn gate_rule_by_tag(tag: &str) -> (r: Option<GateRule>)
    ensures
        r == first_with_tag(gate_table(), tag@),
{
    let g = assembly_gate_rules();
    let mut i: usize = 0;
    assert(g@.skip(0) =~= g@);
    while i < g.len()
        invariant
            0 <= i <= g@.len(),
            g@ == gate_table(),
            first_with_tag(gate_table(), tag@) == first_with_tag(g@.skip(i as int), tag@),
        decreases g@.len() - i,
    {
        assert(g@.skip(i as int).drop_first() =~= g@.skip(i + 1));
        if str_eq(g[i].meta.name, tag) {
            return Some(g[i]);
        }
        i += 1;
    }
    None
}

/// The report level of an assembly-gate tag; `None` for an unregistered tag.
pub fn gate_severity(tag: &str) -> (r: Option<CheckSeverity>)
    ensures
        r == (match first_with_tag(gate_table(), tag@) {
            Some(g) => Some(g.meta.severity),
            None => None,
        }),
{
    match gate_rule_by_tag(tag) {
        Some(g) => Some(g.meta.severity),
        None => None,
    }
}

/// Tags of the blocking rows of `g`, in order.
pub open spec fn blocking_tags(g: Seq<GateRule>) -> Seq<&'static str>
    decreases g.len(),
{
    if g.len() == 0 {
        seq![]
    } else if g.last().meta.gate == GateKind::Blocking {
        blocking_tags(g.drop_last()).push(g.last().meta.name)
    } else {
        blocking_tags(g.drop_last())
    }
}

/// The blocking set of the assembly gate: the tags of every rule whose gate
/// is blocking, in table order.
pub fn assembly_gate_blocking_tags() -> (r: Vec<&'static str>)
    ensures
        r@ == blocking_tags(gate_table()),
{
    let g = assembly_gate_rules();
    let mut out: Vec<&'static str> = Vec::new();
    let mut i: usize = 0;
    while i < g.len()
        invariant
            0 <= i <= g@.len(),
            g@ == gate_table(),
            out@ == blocking_tags(g@.take(i as int)),
        decreases g@.len() - i,
    {
        assert(g@.take(i + 1).drop_last() =~= g@.take(i as int));
        if g[i].meta.gate == GateKind::Blocking {
            out.push(g[i].meta.name);
        }
        i += 1;
    }
    assert(g@.take(g@.len() as int) =~= g@);
    out
}


// ---------------------------------------------------------------------------
// Lock ledger
// ---------------------------------------------------------------------------

/// Lexical order of texts from position `i` on, by character code (the
/// order of `str` comparison: UTF-8 bytes order as code points do).
pub open spec fn lex_less_from(a: Seq<char>, b: Seq<char>, i: int) -> bool
    decreases a.len() - i,
{
    if i >= a.len() {
        i < b.len()
    } else if i >= b.len() {
        false
    } else if a[i] != b[i] {
        a[i] < b[i]
    } else {
        lex_less_from(a, b, i + 1)
    }
}

/// Lexical order of texts.
pub open spec fn lex_less(a: Seq<char>, b: Seq<char>) -> bool {
    lex_less_from(a, b, 0)
}

pub proof fn lemma_lex_irreflexive(a: Seq<char>, i: int)
    requires
        0 <= i,
    ensures
        !lex_less_from(a, a, i),
    decreases a.len() - i,
{
    if i < a.len() {
        lemma_lex_irreflexive(a, i + 1);
    }
}

pub proof fn lemma_lex_total(a: Seq<char>, b: Seq<char>, i: int)
    requires
        0 <= i <= a.len(),
        i <= b.len(),
        forall|j: int| 0 <= j < i ==> a[j] == b[j],
    ensures
        lex_less_from(a, b, i) || lex_less_from(b, a, i) || a == b,
    decreases a.len() - i,
{
    if i < a.len() && i < b.len() {
        if a[i] == b[i] {
            lemma_lex_total(a, b, i + 1);
        }
    } else if i == a.len() && i == b.len() {
        assert(a =~= b);
    }
}

pub proof fn lemma_lex_transitive(a: Seq<char>, b: Seq<char>, c: Seq<char>, i: int)
    requires
        0 <= i,
        lex_less_from(a, b, i),
        lex_less_from(b, c, i),
    ensures
        lex_less_from(a, c, i),
    decreases a.len() - i,
{
    if i < a.len() && i < b.len() && i < c.len() {
        if a[i] == b[i] && b[i] == c[i] {
            lemma_lex_transitive(a, b, c, i + 1);
        }
    }
}

/// Lexical comparison of two texts.
pub fn str_less(a: &str, b: &str) -> (r: bool)
    ensures
        r == lex_less(a@, b@),
{
    let ca = chars_of(a);
    let cb = chars_of(b);
    let mut i: usize = 0;
    while i < ca.len() && i < cb.len() && ca[i] == cb[i]
        invariant
            0 <= i <= ca@.len(),
            i <= cb@.len(),
            ca@ == a@,
            cb@ == b@,
            lex_less(a@, b@) == lex_less_from(a@, b@, i as int),
        decreases ca@.len() - i,
    {
        i += 1;
    }
    if i == ca.len() {
        i < cb.len()
    } else if i == cb.len() {
        false
    } else {
        ca[i] < cb[i]
    }
}

/// The one documented lock anchor that is not a test file: rows whose
/// behaviour only a context-gated report path locks.
pub fn doc_lock_placeholders() -> (r: &'static [&'static str])
    ensures
        r@ == seq!["netcheck context-gated (reorg doc §8.3)"],
{
    &["netcheck context-gated (reorg doc §8.3)"]
}

/// One row of the lock ledger: a lock anchor and every rule code that
/// declares it.
#[derive(Debug, Clone, PartialEq, Eq)]
pub struct LockLedgerEntry {
    /// The declaring rules' lock anchor, verbatim.
    pub lock: &'static str,
    /// Codes of the rules declaring this anchor, in catalog order.
    pub codes: Vec<u32>,
}

/// Codes of the rules of `c` whose lock anchor reads `lock`, in order.
pub open spec fn codes_with_lock(c: Seq<RuleMeta>, lock: Seq<char>) -> Seq<u32>
    decreases c.len(),
{
    if c.len() == 0 {
        seq![]
    } else if c.last().lock@ == lock {
        codes_with_lock(c.drop_last(), lock).push(c.last().code)
    } else {
        codes_with_lock(c.drop_last(), lock)
    }
}

/// Entries in strictly increasing lexical order of their anchors.
pub open spec fn anchors_sorted(r: Seq<LockLedgerEntry>) -> bool {
    forall|k: int, j: int| 0 <= k < j < r.len() ==> lex_less(#[trigger] r[k].lock@, #[trigger] r[j].lock@)
}

/// `r` is the lock ledger of `c`: one entry per distinct anchor of `c`,
/// sorted by anchor, each listing the codes of the rules with that anchor
/// in order.
pub open spec fn is_ledger(c: Seq<RuleMeta>, r: Seq<LockLedgerEntry>) -> bool {
    &&& anchors_sorted(r)
    &&& forall|k: int| 0 <= k < r.len() ==> #[trigger] r[k].codes@ == codes_with_lock(c, r[k].lock@)
    &&& forall|k: int| 0 <= k < r.len() ==> (#[trigger] r[k].codes@).len() > 0
    &&& forall|i: int|
        0 <= i < c.len() ==> exists|k: int| 0 <= k < r.len() && r[k].lock@ == (#[trigger] c[i]).lock@
}

proof fn lemma_codes_absent(c: Seq<RuleMeta>, lock: Seq<char>)
    requires
        forall|i: int| 0 <= i < c.len() ==> (#[trigger] c[i]).lock@ != lock,
    ensures
        codes_with_lock(c, lock) == Seq::<u32>::empty(),
    decreases c.len(),
{
    if c.len() > 0 {
        assert(c.last() == c[c.len() - 1]);
        lemma_codes_absent(c.drop_last(), lock);
    }
}

#[verifier::spinoff_prover]
proof fn lemma_ledger_extend(
    pre: Seq<RuleMeta>,
    m: RuleMeta,
    old_out: Seq<LockLedgerEntry>,
    new_out: Seq<LockLedgerEntry>,
    k: int,
)
    requires
        is_ledger(pre, old_out),
        0 <= k < old_out.len(),
        old_out[k].lock@ == m.lock@,
        new_out.len() == old_out.len(),
        new_out[k].lock == old_out[k].lock,
        new_out[k].codes@ == old_out[k].codes@.push(m.code),
        forall|q: int| 0 <= q < new_out.len() && q != k ==> new_out[q] == old_out[q],
    ensures
        is_ledger(pre.push(m), new_out),
{
    let post = pre.push(m);
    assert(post.drop_last() =~= pre);
    assert(post.last() == m);
    assert forall|q: int| 0 <= q < new_out.len() implies #[trigger] new_out[q].codes@
        == codes_with_lock(post, new_out[q].lock@) by {
        let lk = new_out[q].lock@;
        assert(codes_with_lock(post, lk) == (if m.lock@ == lk {
            codes_with_lock(pre, lk).push(m.code)
        } else {
            codes_with_lock(pre, lk)
        }));
        if q != k {
            assert(new_out[q] == old_out[q]);
            assert(old_out[q].codes@ == codes_with_lock(pre, old_out[q].lock@));
            if old_out[q].lock@ == m.lock@ {
                if q < k {
                    assert(lex_less(old_out[q].lock@, old_out[k].lock@));
                } else {
                    assert(lex_less(old_out[k].lock@, old_out[q].lock@));
                }
                lemma_lex_irreflexive(m.lock@, 0);
            }
        } else {
            assert(old_out[k].codes@ == codes_with_lock(pre, old_out[k].lock@));
        }
    }
    assert forall|q: int, j: int| 0 <= q < j < new_out.len() implies lex_less(
        #[trigger] new_out[q].lock@,
        #[trigger] new_out[j].lock@,
    ) by {
        assert(new_out[q].lock == old_out[q].lock);
        assert(new_out[j].lock == old_out[j].lock);
        assert(lex_less(old_out[q].lock@, old_out[j].lock@));
    }
    assert forall|x: int| 0 <= x < post.len() implies exists|q: int|
        0 <= q < new_out.len() && new_out[q].lock@ == (#[trigger] post[x]).lock@ by {
        if x < pre.len() {
            assert(post[x] == pre[x]);
            let q = choose|q: int| 0 <= q < old_out.len() && old_out[q].lock@ == pre[x].lock@;
            assert(new_out[q].lock == old_out[q].lock);
        } else {
            assert(new_out[k].lock@ == post[x].lock@);
        }
    }
    assert forall|q: int| 0 <= q < new_out.len() implies (#[trigger] new_out[q].codes@).len() > 0 by {
        if q != k {
            assert(new_out[q] == old_out[q]);
        }
    }
}

#[verifier::spinoff_prover]
proof fn lemma_ledger_insert(
    pre: Seq<RuleMeta>,
    m: RuleMeta,
    old_out: Seq<LockLedgerEntry>,
    e: LockLedgerEntry,
    p: int,
)
    requires
        is_ledger(pre, old_out),
        0 <= p <= old_out.len(),
        forall|q: int| 0 <= q < old_out.len() ==> (#[trigger] old_out[q]).lock@ != m.lock@,
        forall|q: int| 0 <= q < p ==> !lex_less(m.lock@, #[trigger] old_out[q].lock@),
        p < old_out.len() ==> lex_less(m.lock@, old_out[p].lock@),
        e.lock == m.lock,
        e.codes@ == seq![m.code],
    ensures
        is_ledger(pre.push(m), old_out.insert(p, e)),
{
    let post = pre.push(m);
    let new_out = old_out.insert(p, e);
    assert(post.drop_last() =~= pre);
    assert forall|x: int| 0 <= x < pre.len() implies (#[trigger] pre[x]).lock@ != m.lock@ by {
        let q = choose|q: int| 0 <= q < old_out.len() && old_out[q].lock@ == pre[x].lock@;
        assert(old_out[q].lock@ != m.lock@);
    }
    lemma_codes_absent(pre, m.lock@);
    assert(post.last() == m);
    assert(codes_with_lock(post, m.lock@) =~= seq![m.code]);
    assert forall|q: int| 0 <= q < new_out.len() implies #[trigger] new_out[q].codes@
        == codes_with_lock(post, new_out[q].lock@) && new_out[q].codes@.len() > 0 by {
        let lk = new_out[q].lock@;
        assert(codes_with_lock(post, lk) == (if m.lock@ == lk {
            codes_with_lock(pre, lk).push(m.code)
        } else {
            codes_with_lock(pre, lk)
        }));
        if q < p {
            assert(new_out[q] == old_out[q]);
            assert(old_out[q].codes@ == codes_with_lock(pre, old_out[q].lock@));
            assert(old_out[q].codes@.len() > 0);
            assert(old_out[q].lock@ != m.lock@);
        } else if q > p {
            assert(new_out[q] == old_out[q - 1]);
            assert(old_out[q - 1].codes@ == codes_with_lock(pre, old_out[q - 1].lock@));
            assert(old_out[q - 1].codes@.len() > 0);
            assert(old_out[q - 1].lock@ != m.lock@);
        } else {
            assert(new_out[q] == e);
        }
    }
    assert forall|q: int, j: int| 0 <= q < j < new_out.len() implies lex_less(
        #[trigger] new_out[q].lock@,
        #[trigger] new_out[j].lock@,
    ) by {
        if j < p {
            assert(new_out[q] == old_out[q]);
            assert(new_out[j] == old_out[j]);
            assert(lex_less(old_out[q].lock@, old_out[j].lock@));
        } else if j == p {
            assert(new_out[q] == old_out[q]);
            assert(!lex_less(m.lock@, old_out[q].lock@));
            assert(old_out[q].lock@ != m.lock@);
            lemma_lex_total(old_out[q].lock@, m.lock@, 0);
        } else if q == p {
            assert(new_out[j] == old_out[j - 1]);
            if j - 1 > p {
                assert(lex_less(old_out[p].lock@, old_out[j - 1].lock@));
                lemma_lex_transitive(m.lock@, old_out[p].lock@, old_out[j - 1].lock@, 0);
            }
        } else if q < p {
            assert(new_out[q] == old_out[q]);
            assert(new_out[j] == old_out[j - 1]);
            if p < old_out.len() {
                lemma_lex_total(old_out[q].lock@, m.lock@, 0);
                assert(lex_less(old_out[q].lock@, old_out[j - 1].lock@));
            }
        } else {
            assert(new_out[q] == old_out[q - 1]);
            assert(new_out[j] == old_out[j - 1]);
            assert(lex_less(old_out[q - 1].lock@, old_out[j - 1].lock@));
        }
    }
    assert forall|x: int| 0 <= x < post.len() implies exists|q: int|
        0 <= q < new_out.len() && new_out[q].lock@ == (#[trigger] post[x]).lock@ by {
        if x < pre.len() {
            assert(post[x] == pre[x]);
            let q = choose|q: int| 0 <= q < old_out.len() && old_out[q].lock@ == pre[x].lock@;
            if q < p {
                assert(new_out[q] == old_out[q]);
            } else {
                assert(new_out[q + 1] == old_out[q]);
            }
        } else {
            assert(new_out[p].lock@ == post[x].lock@);
        }
    }
}

/// Project the test-lock ledger: every lock anchor of the catalog with the
/// codes declaring it (catalog order within an anchor), anchors sorted
/// lexically.
#[verifier::spinoff_prover]
pub fn lock_ledger() -> (r: Vec<LockLedgerEntry>)
    ensures
        is_ledger(catalog(), r@),
{
    let c = catalog_exec();
    let mut out: Vec<LockLedgerEntry> = Vec::new();
    let mut i: usize = 0;
    while i < c.len()
        invariant
            0 <= i <= c@.len(),
            c@ == catalog(),
            is_ledger(c@.take(i as int), out@),
        decreases c@.len() - i,
    {
        let m = c[i];
        let ghost pre = c@.take(i as int);
        assert(c@.take(i + 1) =~= pre.push(m));
        let ghost old_out = out@;
        let mut k: usize = 0;
        while k < out.len() && !str_eq(out[k].lock, m.lock)
            invariant
                0 <= k <= out@.len(),
                out@ == old_out,
                forall|q: int| 0 <= q < k ==> (#[trigger] out@[q]).lock@ != m.lock@,
            decreases out@.len() - k,
        {
            k += 1;
        }
        if k < out.len() {
            let mut e = out.remove(k);
            e.codes.push(m.code);
            out.insert(k, e);
            proof {
                lemma_ledger_extend(pre, m, old_out, out@, k as int);
            }
        } else {
            let mut p: usize = 0;
            while p < out.len() && !str_less(m.lock, out[p].lock)
                invariant
                    0 <= p <= out@.len(),
                    out@ == old_out,
                    forall|q: int| 0 <= q < p ==> !lex_less(m.lock@, #[trigger] out@[q].lock@),
                decreases out@.len() - p,
            {
                p += 1;
            }
            let mut codes: Vec<u32> = Vec::new();
            codes.push(m.code);
            let e = LockLedgerEntry { lock: m.lock, codes };
            proof {
                lemma_ledger_insert(pre, m, old_out, e, p as int);
            }
            out.insert(p, e);
        }
        i += 1;
    }
    assert(c@.take(c@.len() as int) =~= c@);
    out
}

// ---------------------------------------------------------------------------
// Laws of the catalog
// ---------------------------------------------------------------------------

/// The four tables hold 16, 2, 15 and 93 rows.
pub proof fn lemma_table_sizes()
    ensures
        flat_erc_table().len() == 16,
        decl_table().len() == 2,
        gate_table().len() == 15,
        post_parse_table().len() == 93,
        catalog().len() == 126,
{
}

/// Every row of a table carries its table's scope and sink, and the
/// flattened-net ERC table opens with the multiple-driver rule.
pub proof fn lemma_table_scopes()
    ensures
        forall|i: int|
            0 <= i < flat_erc_table().len() ==> (#[trigger] flat_erc_table()[i]).meta.scope
                == RuleScope::FlatErc && flat_erc_table()[i].meta.sink == RuleSink::Envelope,
        forall|i: int|
            0 <= i < decl_table().len() ==> (#[trigger] decl_table()[i]).meta.scope
                == RuleScope::Declaration && decl_table()[i].meta.sink == RuleSink::Envelope,
        forall|i: int|
            0 <= i < gate_table().len() ==> (#[trigger] gate_table()[i]).meta.scope
                == RuleScope::AssemblyGate && gate_table()[i].meta.sink == RuleSink::GateReport,
        forall|i: int|
            0 <= i < post_parse_table().len() ==> (#[trigger] post_parse_table()[i]).meta.scope
                == RuleScope::PostParse && post_parse_table()[i].meta.sink == RuleSink::Envelope,
        flat_erc_table()[0].meta.code == crate::errcodes::NET_MULTI_DRIVE,
{
}

/// Every rule of the catalog takes the core governance defaults: gate
/// derived from severity (an error blocks, anything softer is advisory),
/// core mechanism, legal acceptance, per-circuit cadence, no quick fix, not
/// overridable.
pub proof fn lemma_catalog_governance()
    ensures
        forall|i: int|
            0 <= i < catalog().len() ==> {
                &&& (#[trigger] catalog()[i]).gate == gate_of(catalog()[i].severity)
                &&& catalog()[i].plane == RulePlane::CoreMechanism
                &&& catalog()[i].acceptance == Acceptance::Legal
                &&& catalog()[i].cadence == Cadence::PerCircuit
                &&& catalog()[i].fix == FixKind::NoFix
                &&& !catalog()[i].overridable
            },
{
    let a = flat_erc_table().map_values(|r: FlatErcRule| r.meta);
    let b = decl_table().map_values(|r: DeclRule| r.meta);
    let c = gate_table().map_values(|r: GateRule| r.meta);
    let d = post_parse_table().map_values(|r: PostParseRule| r.meta);
    assert forall|i: int| 0 <= i < catalog().len() implies {
        &&& (#[trigger] catalog()[i]).gate == gate_of(catalog()[i].severity)
        &&& catalog()[i].plane == RulePlane::CoreMechanism
        &&& catalog()[i].acceptance == Acceptance::Legal
        &&& catalog()[i].cadence == Cadence::PerCircuit
        &&& catalog()[i].fix == FixKind::NoFix
        &&& !catalog()[i].overridable
    } by {
        if i < a.len() {
            assert(catalog()[i] == a[i]);
        } else if i < a.len() + b.len() {
            assert(catalog()[i] == b[i - a.len()]);
        } else if i < a.len() + b.len() + c.len() {
            assert(catalog()[i] == c[i - a.len() - b.len()]);
        } else {
            assert(catalog()[i] == d[i - a.len() - b.len() - c.len()]);
        }
    }
}

/// Codes increase from each row of `s` to the next.
pub open spec fn adjacent_increasing(s: Seq<u32>) -> bool {
    forall|k: int| 0 <= k < s.len() - 1 ==> #[trigger] s[k] < s[k + 1]
}

proof fn lemma_adjacent_pair(s: Seq<u32>, i: int, j: int)
    requires
        adjacent_increasing(s),
        0 <= i < j < s.len(),
    ensures
        s[i] < s[j],
    decreases j - i,
{
    assert(s[j - 1] < s[j]);
    if j > i + 1 {
        lemma_adjacent_pair(s, i, j - 1);
    }
}

proof fn lemma_adjacent_increasing(s: Seq<u32>)
    requires
        adjacent_increasing(s),
    ensures
        forall|i: int, j: int| 0 <= i < j < s.len() ==> s[i] < s[j],
{
    assert forall|i: int, j: int| 0 <= i < j < s.len() implies s[i] < s[j] by {
        lemma_adjacent_pair(s, i, j);
    }
}

/// The codes of the catalog, in order.
pub open spec fn catalog_codes() -> Seq<u32> {
    catalog().map_values(|m: RuleMeta| m.code)
}

proof fn lemma_table_codes_increasing()
    ensures
        adjacent_increasing(flat_erc_args().map_values(|a: FlatArgs| a.0)),
        adjacent_increasing(decl_args().map_values(|a: DeclArgs| a.0)),
        adjacent_increasing(gate_args().map_values(|a: GateArgs| a.0)),
        adjacent_increasing(post_parse_args().map_values(|a: PostArgs| a.0)),
{
}

/// No two rules of the catalog share a code.
pub proof fn lemma_codes_unique()
    ensures
        forall|i: int, j: int|
            0 <= i < j < catalog().len() ==> (#[trigger] catalog()[i]).code
                != (#[trigger] catalog()[j]).code,
{
    lemma_table_codes_increasing();
    let s = catalog_codes();
    let fa = flat_erc_args().map_values(|a: FlatArgs| a.0);
    let da = decl_args().map_values(|a: DeclArgs| a.0);
    let ga = gate_args().map_values(|a: GateArgs| a.0);
    let pa = post_parse_args().map_values(|a: PostArgs| a.0);
    assert(s =~= fa + da + ga + pa);
    assert(fa[15] < da[0] && da[1] < ga[0] && ga[14] < pa[0]);
    assert forall|k: int| 0 <= k < s.len() - 1 implies #[trigger] s[k] < s[k + 1] by {
        if k < 15 {
            assert(fa[k] < fa[k + 1]);
        } else if k == 15 {
        } else if k < 17 {
            assert(da[k - 16] < da[k - 15]);
        } else if k == 17 {
        } else if k < 32 {
            assert(ga[k - 18] < ga[k - 17]);
        } else if k == 32 {
        } else {
            assert(pa[k - 33] < pa[k - 32]);
        }
    }
    lemma_adjacent_increasing(s);
    assert forall|i: int, j: int| 0 <= i < j < catalog().len() implies (#[trigger] catalog()[i]).code
        != (#[trigger] catalog()[j]).code by {
        assert(s[i] == catalog()[i].code);
        assert(s[j] == catalog()[j].code);
    }
}

proof fn lemma_first_with_code_at(c: Seq<RuleMeta>, i: int, code: u32)
    requires
        0 <= i < c.len(),
        c[i].code == code,
        forall|j: int| 0 <= j < i ==> (#[trigger] c[j]).code != code,
    ensures
        first_with_code(c, code) == Some(c[i]),
    decreases i,
{
    if i > 0 {
        assert forall|j: int| 0 <= j < i - 1 implies (#[trigger] c.drop_first()[j]).code != code by {
            assert(c.drop_first()[j] == c[j + 1]);
        }
        lemma_first_with_code_at(c.drop_first(), i - 1, code);
    }
}

/// Looking a registered code up gives exactly the rule that declares it.
pub proof fn lemma_find_rule_exact(i: int)
    requires
        0 <= i < catalog().len(),
    ensures
        first_with_code(catalog(), catalog()[i].code) == Some(catalog()[i]),
{
    lemma_codes_unique();
    lemma_first_with_code_at(catalog(), i, catalog()[i].code);
}

/// Tags of the error-level rows of `g`, in order.
pub open spec fn error_tags(g: Seq<GateRule>) -> Seq<&'static str>
    decreases g.len(),
{
    if g.len() == 0 {
        seq![]
    } else if g.last().meta.severity == CheckSeverity::Error {
        error_tags(g.drop_last()).push(g.last().meta.name)
    } else {
        error_tags(g.drop_last())
    }
}

proof fn lemma_blocking_is_error_rows(g: Seq<GateRule>)
    requires
        forall|i: int| 0 <= i < g.len() ==> (#[trigger] g[i]).meta.gate == gate_of(g[i].meta.severity),
    ensures
        blocking_tags(g) == error_tags(g),
    decreases g.len(),
{
    if g.len() > 0 {
        assert(g.last() == g[g.len() - 1]);
        assert forall|i: int| 0 <= i < g.drop_last().len() implies (#[trigger] g.drop_last()[i]).meta.gate
            == gate_of(g.drop_last()[i].meta.severity) by {
            assert(g.drop_last()[i] == g[i]);
        }
        lemma_blocking_is_error_rows(g.drop_last());
    }
}

/// The blocking set of the assembly gate is exactly its error-level rows.
pub proof fn lemma_gate_blocking_set()
    ensures
        blocking_tags(gate_table()) == error_tags(gate_table()),
{
    lemma_blocking_is_error_rows(gate_table());
}

/// A scope query is the general query with only the scope axis set.
pub proof fn lemma_scope_query_is_filter_query(s: RuleScope)
    ensures
        select(catalog(), scope_filter(s)) == select(
            catalog(),
            RuleFilter {
                scope: Some(s),
                domain: None,
                severity: None,
                plane: None,
                gate: None,
                overridable: None,
                fix: None,
            },
        ),
{
}


/// The filter that sets no axis.
pub open spec fn open_filter() -> RuleFilter {
    RuleFilter {
        scope: None,
        domain: None,
        severity: None,
        plane: None,
        gate: None,
        overridable: None,
        fix: None,
    }
}

proof fn lemma_select_every(c: Seq<RuleMeta>, f: RuleFilter)
    requires
        forall|i: int| 0 <= i < c.len() ==> hit(#[trigger] c[i], f),
    ensures
        select(c, f) == c,
    decreases c.len(),
{
    if c.len() > 0 {
        assert forall|i: int| 0 <= i < c.drop_last().len() implies hit(
            #[trigger] c.drop_last()[i],
            f,
        ) by {
            assert(c.drop_last()[i] == c[i]);
        }
        lemma_select_every(c.drop_last(), f);
        assert(hit(c[c.len() - 1], f));
        assert(c.drop_last().push(c.last()) =~= c);
    }
}

proof fn lemma_select_nothing(c: Seq<RuleMeta>, f: RuleFilter)
    requires
        forall|i: int| 0 <= i < c.len() ==> !hit(#[trigger] c[i], f),
    ensures
        select(c, f) == Seq::<RuleMeta>::empty(),
    decreases c.len(),
{
    if c.len() > 0 {
        assert forall|i: int| 0 <= i < c.drop_last().len() implies !hit(
            #[trigger] c.drop_last()[i],
            f,
        ) by {
            assert(c.drop_last()[i] == c[i]);
        }
        lemma_select_nothing(c.drop_last(), f);
        assert(!hit(c[c.len() - 1], f));
    }
}

proof fn lemma_select_append(a: Seq<RuleMeta>, b: Seq<RuleMeta>, f: RuleFilter)
    ensures
        select(a + b, f) == select(a, f) + select(b, f),
    decreases b.len(),
{
    if b.len() == 0 {
        assert(a + b =~= a);
        assert(select(a, f) + select(b, f) =~= select(a, f));
    } else {
        lemma_select_append(a, b.drop_last(), f);
        assert((a + b).drop_last() =~= a + b.drop_last());
        assert((a + b).last() == b.last());
        if hit(b.last(), f) {
            assert(select(a, f) + select(b.drop_last(), f).push(b.last()) =~= (select(a, f)
                + select(b.drop_last(), f)).push(b.last()));
        }
    }
}

/// A query that sets no axis answers every rule of the catalog, in catalog
/// order: as many rules as [`rule_count`] counts.
pub proof fn lemma_open_query_is_catalog()
    ensures
        select(catalog(), open_filter()) == catalog(),
        select(catalog(), open_filter()).len() == 126,
{
    lemma_table_sizes();
    lemma_select_every(catalog(), open_filter());
}

/// No rule of the catalog is overridable, so a query for overridable rules
/// answers nothing, whatever its other axes.
pub proof fn lemma_overridable_query_is_empty(f: RuleFilter)
    requires
        f.overridable == Some(true),
    ensures
        select(catalog(), f) == Seq::<RuleMeta>::empty(),
{
    lemma_catalog_governance();
    assert forall|i: int| 0 <= i < catalog().len() implies !hit(#[trigger] catalog()[i], f) by {
        assert(!catalog()[i].overridable);
    }
    lemma_select_nothing(catalog(), f);
}

/// The rules of each scope are exactly the rows of that scope's table, in
/// table order: 16 flattened-net ERC rules, 2 declaration rules, 15
/// assembly-gate rules, 93 post-parse rules and no layout rule.
pub proof fn lemma_scope_rules_are_tables(s: RuleScope)
    ensures
        select(catalog(), scope_filter(s)) == (match s {
            RuleScope::FlatErc => flat_erc_table().map_values(|r: FlatErcRule| r.meta),
            RuleScope::Declaration => decl_table().map_values(|r: DeclRule| r.meta),
            RuleScope::AssemblyGate => gate_table().map_values(|r: GateRule| r.meta),
            RuleScope::PostParse => post_parse_table().map_values(|r: PostParseRule| r.meta),
            RuleScope::VizLayout => Seq::<RuleMeta>::empty(),
        }),
        select(catalog(), scope_filter(s)).len() == (match s {
            RuleScope::FlatErc => 16int,
            RuleScope::Declaration => 2int,
            RuleScope::AssemblyGate => 15int,
            RuleScope::PostParse => 93int,
            RuleScope::VizLayout => 0int,
        }),
{
    lemma_table_sizes();
    lemma_table_scopes();
    let f = scope_filter(s);
    let a = flat_erc_table().map_values(|r: FlatErcRule| r.meta);
    let b = decl_table().map_values(|r: DeclRule| r.meta);
    let c = gate_table().map_values(|r: GateRule| r.meta);
    let d = post_parse_table().map_values(|r: PostParseRule| r.meta);
    assert(catalog() == a + b + c + d);
    lemma_select_append(a + b + c, d, f);
    lemma_select_append(a + b, c, f);
    lemma_select_append(a, b, f);
    if s == RuleScope::FlatErc {
        assert forall|i: int| 0 <= i < a.len() implies hit(#[trigger] a[i], f) by {
            assert(a[i] == flat_erc_table()[i].meta);
        }
        lemma_select_every(a, f);
    } else {
        assert forall|i: int| 0 <= i < a.len() implies !hit(#[trigger] a[i], f) by {
            assert(a[i] == flat_erc_table()[i].meta);
        }
        lemma_select_nothing(a, f);
    }
    if s == RuleScope::Declaration {
        assert forall|i: int| 0 <= i < b.len() implies hit(#[trigger] b[i], f) by {
            assert(b[i] == decl_table()[i].meta);
        }
        lemma_select_every(b, f);
    } else {
        assert forall|i: int| 0 <= i < b.len() implies !hit(#[trigger] b[i], f) by {
            assert(b[i] == decl_table()[i].meta);
        }
        lemma_select_nothing(b, f);
    }
    if s == RuleScope::AssemblyGate {
        assert forall|i: int| 0 <= i < c.len() implies hit(#[trigger] c[i], f) by {
            assert(c[i] == gate_table()[i].meta);
        }
        lemma_select_every(c, f);
    } else {
        assert forall|i: int| 0 <= i < c.len() implies !hit(#[trigger] c[i], f) by {
            assert(c[i] == gate_table()[i].meta);
        }
        lemma_select_nothing(c, f);
    }
    if s == RuleScope::PostParse {
        assert forall|i: int| 0 <= i < d.len() implies hit(#[trigger] d[i], f) by {
            assert(d[i] == post_parse_table()[i].meta);
        }
        lemma_select_every(d, f);
    } else {
        assert forall|i: int| 0 <= i < d.len() implies !hit(#[trigger] d[i], f) by {
            assert(d[i] == post_parse_table()[i].meta);
        }
        lemma_select_nothing(d, f);
    }
    let e = Seq::<RuleMeta>::empty();
    assert(e + e =~= e);
    assert(a + e =~= a);
    assert(e + b =~= b);
    assert(b + e =~= b);
    assert(e + c =~= c);
    assert(c + e =~= c);
    assert(e + d =~= d);
}

/// Every RuleScope value reads back from its own name through
/// [`RuleScope::from_name`], and a name reads as the same value once it is
/// trimmed and lower-cased.
pub proof fn lemma_rule_scope_from_name_laws(x: RuleScope, t: Seq<char>)
    ensures
        RuleScope::parse_name(ascii_lower(trimmed(x.spelling()))) == Some(x),
        RuleScope::parse_name(ascii_lower(trimmed(t))) == RuleScope::parse_name(
            ascii_lower(trimmed(ascii_lower(trimmed(t)))),
        ),
{
    lemma_normal_form_is_stable(t);
    lemma_rule_scope_names_round_trip(x);
    match x {
        RuleScope::PostParse => {
            reveal_strlit("post-parse");
            lemma_plain_text_is_normal("post-parse"@);
        },
        RuleScope::AssemblyGate => {
            reveal_strlit("assembly-gate");
            lemma_plain_text_is_normal("assembly-gate"@);
        },
        RuleScope::FlatErc => {
            reveal_strlit("flat-erc");
            lemma_plain_text_is_normal("flat-erc"@);
        },
        RuleScope::Declaration => {
            reveal_strlit("declaration");
            lemma_plain_text_is_normal("declaration"@);
        },
        RuleScope::VizLayout => {
            reveal_strlit("viz-layout");
            lemma_plain_text_is_normal("viz-layout"@);
        },
    }
}

/// Every RuleDomain value reads back from its own name through
/// [`RuleDomain::from_name`], and a name reads as the same value once it is
/// trimmed and lower-cased.
pub proof fn lemma_rule_domain_from_name_laws(x: RuleDomain, t: Seq<char>)
    ensures
        RuleDomain::parse_name(ascii_lower(trimmed(x.spelling()))) == Some(x),
        RuleDomain::parse_name(ascii_lower(trimmed(t))) == RuleDomain::parse_name(
            ascii_lower(trimmed(ascii_lower(trimmed(t)))),
        ),
{
    lemma_normal_form_is_stable(t);
    lemma_rule_domain_names_round_trip(x);
    match x {
        RuleDomain::Connectivity => {
            reveal_strlit("connectivity");
            lemma_plain_text_is_normal("connectivity"@);
        },
        RuleDomain::Power => {
            reveal_strlit("power");
            lemma_plain_text_is_normal("power"@);
        },
        RuleDomain::BusHierarchy => {
            reveal_strlit("bus-hierarchy");
            lemma_plain_text_is_normal("bus-hierarchy"@);
        },
        RuleDomain::PinDecl => {
            reveal_strlit("pin-decl");
            lemma_plain_text_is_normal("pin-decl"@);
        },
        RuleDomain::IO => {
            reveal_strlit("io");
            lemma_plain_text_is_normal("io"@);
        },
        RuleDomain::SignalIntegrity => {
            reveal_strlit("signal-integrity");
            lemma_plain_text_is_normal("signal-integrity"@);
        },
        RuleDomain::Structure => {
            reveal_strlit("structure");
            lemma_plain_text_is_normal("structure"@);
        },
        RuleDomain::NamingStyle => {
            reveal_strlit("naming-style");
            lemma_plain_text_is_normal("naming-style"@);
        },
        RuleDomain::Duplicate => {
            reveal_strlit("duplicate");
            lemma_plain_text_is_normal("duplicate"@);
        },
        RuleDomain::RefIntegrity => {
            reveal_strlit("ref-integrity");
            lemma_plain_text_is_normal("ref-integrity"@);
        },
        RuleDomain::Rating => {
            reveal_strlit("rating");
            lemma_plain_text_is_normal("rating"@);
        },
    }
}

/// Every RulePlane value reads back from its own name through
/// [`RulePlane::from_name`], and a name reads as the same value once it is
/// trimmed and lower-cased.
pub proof fn lemma_rule_plane_from_name_laws(x: RulePlane, t: Seq<char>)
    ensures
        RulePlane::parse_name(ascii_lower(trimmed(x.spelling()))) == Some(x),
        RulePlane::parse_name(ascii_lower(trimmed(t))) == RulePlane::parse_name(
            ascii_lower(trimmed(ascii_lower(trimmed(t)))),
        ),
{
    lemma_normal_form_is_stable(t);
    lemma_rule_plane_names_round_trip(x);
    match x {
        RulePlane::CoreMechanism => {
            reveal_strlit("core-mechanism");
            lemma_plain_text_is_normal("core-mechanism"@);
        },
        RulePlane::DomainPackage => {
            reveal_strlit("domain-package");
            lemma_plain_text_is_normal("domain-package"@);
        },
        RulePlane::SimFulfillment => {
            reveal_strlit("sim-fulfillment");
            lemma_plain_text_is_normal("sim-fulfillment"@);
        },
    }
}

/// Every Acceptance value reads back from its own name through
/// [`Acceptance::from_name`], and a name reads as the same value once it is
/// trimmed and lower-cased.
pub proof fn lemma_acceptance_from_name_laws(x: Acceptance, t: Seq<char>)
    ensures
        Acceptance::parse_name(ascii_lower(trimmed(x.spelling()))) == Some(x),
        Acceptance::parse_name(ascii_lower(trimmed(t))) == Acceptance::parse_name(
            ascii_lower(trimmed(ascii_lower(trimmed(t)))),
        ),
{
    lemma_normal_form_is_stable(t);
    lemma_acceptance_names_round_trip(x);
    match x {
        Acceptance::Legal => {
            reveal_strlit("legal");
            lemma_plain_text_is_normal("legal"@);
        },
        Acceptance::Contract => {
            reveal_strlit("contract");
            lemma_plain_text_is_normal("contract"@);
        },
        Acceptance::Fulfillment => {
            reveal_strlit("fulfillment");
            lemma_plain_text_is_normal("fulfillment"@);
        },
    }
}

/// Every RuleSink value reads back from its own name through
/// [`RuleSink::from_name`], and a name reads as the same value once it is
/// trimmed and lower-cased.
pub proof fn lemma_rule_sink_from_name_laws(x: RuleSink, t: Seq<char>)
    ensures
        RuleSink::parse_name(ascii_lower(trimmed(x.spelling()))) == Some(x),
        RuleSink::parse_name(ascii_lower(trimmed(t))) == RuleSink::parse_name(
            ascii_lower(trimmed(ascii_lower(trimmed(t)))),
        ),
{
    lemma_normal_form_is_stable(t);
    lemma_rule_sink_names_round_trip(x);
    match x {
        RuleSink::Envelope => {
            reveal_strlit("envelope");
            lemma_plain_text_is_normal("envelope"@);
        },
        RuleSink::GateReport => {
            reveal_strlit("gate-report");
            lemma_plain_text_is_normal("gate-report"@);
        },
        RuleSink::OwnedStore => {
            reveal_strlit("owned-store");
            lemma_plain_text_is_normal("owned-store"@);
        },
    }
}

/// Every GateKind value reads back from its own name through
/// [`GateKind::from_name`], and a name reads as the same value once it is
/// trimmed and lower-cased.
pub proof fn lemma_gate_kind_from_name_laws(x: GateKind, t: Seq<char>)
    ensures
        GateKind::parse_name(ascii_lower(trimmed(x.spelling()))) == Some(x),
        GateKind::parse_name(ascii_lower(trimmed(t))) == GateKind::parse_name(
            ascii_lower(trimmed(ascii_lower(trimmed(t)))),
        ),
{
    lemma_normal_form_is_stable(t);
    lemma_gate_kind_names_round_trip(x);
    match x {
        GateKind::Advisory => {
            reveal_strlit("advisory");
            lemma_plain_text_is_normal("advisory"@);
        },
        GateKind::Blocking => {
            reveal_strlit("blocking");
            lemma_plain_text_is_normal("blocking"@);
        },
    }
}

/// Every Cadence value reads back from its own name through
/// [`Cadence::from_name`], and a name reads as the same value once it is
/// trimmed and lower-cased.
pub proof fn lemma_cadence_from_name_laws(x: Cadence, t: Seq<char>)
    ensures
        Cadence::parse_name(ascii_lower(trimmed(x.spelling()))) == Some(x),
        Cadence::parse_name(ascii_lower(trimmed(t))) == Cadence::parse_name(
            ascii_lower(trimmed(ascii_lower(trimmed(t)))),
        ),
{
    lemma_normal_form_is_stable(t);
    lemma_cadence_names_round_trip(x);
    match x {
        Cadence::PerCircuit => {
            reveal_strlit("per-circuit");
            lemma_plain_text_is_normal("per-circuit"@);
        },
        Cadence::Incremental => {
            reveal_strlit("incremental");
            lemma_plain_text_is_normal("incremental"@);
        },
    }
}

/// Every FixKind value reads back from its own name through
/// [`FixKind::from_name`], and a name reads as the same value once it is
/// trimmed and lower-cased.
pub proof fn lemma_fix_kind_from_name_laws(x: FixKind, t: Seq<char>)
    ensures
        FixKind::parse_name(ascii_lower(trimmed(x.spelling()))) == Some(x),
        FixKind::parse_name(ascii_lower(trimmed(t))) == FixKind::parse_name(
            ascii_lower(trimmed(ascii_lower(trimmed(t)))),
        ),
{
    lemma_normal_form_is_stable(t);
    lemma_fix_kind_names_round_trip(x);
    match x {
        FixKind::NoFix => {
            reveal_strlit("none");
            lemma_plain_text_is_normal("none"@);
        },
        FixKind::QuickFix => {
            reveal_strlit("quick-fix");
            lemma_plain_text_is_normal("quick-fix"@);
        },
        FixKind::Suggestion => {
            reveal_strlit("suggestion");
            lemma_plain_text_is_normal("suggestion"@);
        },
    }
}

} // verus!
