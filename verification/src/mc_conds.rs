//! Conditions of `if` branches and the parameters they read.
use vstd::prelude::*;
use crate::mc_ids::{ids_text, IdsSegModel, McIds};
use crate::strs::{join_sep, join_sep_exec};
use crate::text::{chars_of, owned, parse_i64, parse_i64_chars, push_str, str_eq};

verus! {

/// The lexical family a condition value was written in: a bare word only
/// ever equals a bare word, a quoted string a quoted string.
#[derive(Debug, Clone, Copy, PartialEq, Eq, Structural)]
pub enum CondFamily {
    /// A bare identifier, a keyword constant, or a name standing for itself.
    Bare,
    /// A quoted string literal.
    Quoted,
    /// A numeric or unit literal.
    Numeric,
    /// Text read off the enclosing definition; outside the bare/quoted gate.
    Def,
}

impl CondFamily {
    /// Whether this family takes part in the bare/quoted gate.
    pub fn is_word_family(self) -> (r: bool)
        ensures
            r == (self == CondFamily::Bare || self == CondFamily::Quoted),
    {
        match self {
            CondFamily::Bare | CondFamily::Quoted => true,
            _ => false,
        }
    }
}

/// One bound parameter as the condition evaluator sees it: the name, the
/// value text (never quoted), and the family the value was written in.
#[derive(Debug)]
pub struct CondParam {
    pub name: McIds,
    pub text: String,
    pub family: CondFamily,
}

/// The family a value text was most plausibly written in, for producers
/// that hold only the text: quoted when it opens with a quote (`"` or `'`),
/// numeric when the value engine reads it as a unit value (`reads_as_unit`)
/// or when it is an `i64` numeral, bare otherwise.
pub open spec fn guessed_family(text: Seq<char>, reads_as_unit: bool) -> CondFamily {
    if text.len() > 0 && (text[0] == '"' || text[0] == '\'') {
        CondFamily::Quoted
    } else if reads_as_unit || parse_i64(text) is Some {
        CondFamily::Numeric
    } else {
        CondFamily::Bare
    }
}

/// The family a value text was most plausibly written in; whether the value
/// engine reads the text as a unit value is handed in as `reads_as_unit`.
pub fn guess_family(text: &str, reads_as_unit: bool) -> (r: CondFamily)
    ensures
        r == guessed_family(text@, reads_as_unit),
{
    let c = chars_of(text);
    if c.len() > 0 && (c[0] == '"' || c[0] == '\'') {
        CondFamily::Quoted
    } else if reads_as_unit || parse_i64_chars(c.as_slice()).is_some() {
        CondFamily::Numeric
    } else {
        CondFamily::Bare
    }
}

impl CondParam {
    /// A parameter whose family is guessed from its text alone.
    pub fn guessed(name: McIds, text: String, reads_as_unit: bool) -> (r: CondParam)
        ensures
            r.name@ == name@,
            r.text@ == text@,
            r.family == guessed_family(text@, reads_as_unit),
    {
        let family = guess_family(text.as_str(), reads_as_unit);
        CondParam { name, text, family }
    }
}

/// One member of an `in` list with its lexical family.
#[derive(Debug, Clone, PartialEq, Eq)]
pub struct InMember {
    pub text: String,
    pub family: CondFamily,
}

/// Arithmetic operator of an expression operand.
#[derive(Debug, Clone, Copy, PartialEq, Eq, Structural)]
pub enum CondArithOp {
    Add,
    Sub,
    Mul,
    Div,
}

/// One side of a condition.
#[derive(Debug)]
pub enum McCondOperand {
    Ident(McIds),
    /// A numeric literal token (`2`, `0x01`, `100mA`).
    Literal(String),
    /// A quoted string literal, stored unquoted.
    StrLit(String),
    /// A keyword constant (`HIGH`/`LOW`).
    Word(String),
    /// An arithmetic expression operand (`count == 2 + 3`).
    Expr { op: CondArithOp, left: Box<McCondOperand>, right: Box<McCondOperand> },
}

/// A condition judge.
#[derive(Debug)]
pub enum McCondition {
    Eq { left: McCondOperand, right: McCondOperand },
    NotEq { left: McCondOperand, right: McCondOperand },
    Lt { left: McCondOperand, right: McCondOperand },
    Gt { left: McCondOperand, right: McCondOperand },
    LtEq { left: McCondOperand, right: McCondOperand },
    GtEq { left: McCondOperand, right: McCondOperand },
    /// Bitwise AND: true when the bitwise result is non-zero.
    BitAnd { left: McCondOperand, right: McCondOperand },
    /// Bitwise OR: true when the bitwise result is non-zero.
    BitOr { left: McCondOperand, right: McCondOperand },
    In { left: McCondOperand, values: Vec<InMember> },
    /// Logical composition of two judges.
    And { left: Box<McCondition>, right: Box<McCondition> },
    Or { left: Box<McCondition>, right: Box<McCondition> },
}

/// Whether an operand reads one of the named parameters: an identifier
/// whose text is one of the names, or an expression either leaf of which
/// reads one.
pub open spec fn operand_reads(o: McCondOperand, names: Seq<Seq<char>>) -> bool
    decreases o,
{
    match o {
        McCondOperand::Ident(ids) => names.contains(ids_text(ids@)),
        McCondOperand::Expr { op: _, left, right } => operand_reads(*left, names) || operand_reads(
            *right,
            names,
        ),
        _ => false,
    }
}

/// Whether a condition reads one of the named parameters.
pub open spec fn condition_reads(c: McCondition, names: Seq<Seq<char>>) -> bool
    decreases c,
{
    match c {
        McCondition::In { left, values: _ } => operand_reads(left, names),
        McCondition::And { left, right } => condition_reads(*left, names) || condition_reads(
            *right,
            names,
        ),
        McCondition::Or { left, right } => condition_reads(*left, names) || condition_reads(
            *right,
            names,
        ),
        McCondition::Eq { left, right } => operand_reads(left, names) || operand_reads(right, names),
        McCondition::NotEq { left, right } => operand_reads(left, names) || operand_reads(
            right,
            names,
        ),
        McCondition::Lt { left, right } => operand_reads(left, names) || operand_reads(right, names),
        McCondition::Gt { left, right } => operand_reads(left, names) || operand_reads(right, names),
        McCondition::LtEq { left, right } => operand_reads(left, names) || operand_reads(
            right,
            names,
        ),
        McCondition::GtEq { left, right } => operand_reads(left, names) || operand_reads(
            right,
            names,
        ),
        McCondition::BitAnd { left, right } => operand_reads(left, names) || operand_reads(
            right,
            names,
        ),
        McCondition::BitOr { left, right } => operand_reads(left, names) || operand_reads(
            right,
            names,
        ),
    }
}

/// Whether a text is one of the names.
fn names_contain(names: &[String], s: &String) -> (r: bool)
    ensures
        r == crate::mc_ida::texts(names@).contains(s@),
{
    let mut i: usize = 0;
    while i < names.len()
        invariant
            0 <= i <= names@.len(),
            forall|j: int| 0 <= j < i ==> names@[j]@ != s@,
        decreases names@.len() - i,
    {
        if str_eq(names[i].as_str(), s.as_str()) {
            assert(crate::mc_ida::texts(names@)[i as int] == s@);
            return true;
        }
        i += 1;
    }
    proof {
        if crate::mc_ida::texts(names@).contains(s@) {
            let k = choose|k: int|
                0 <= k < crate::mc_ida::texts(names@).len() && crate::mc_ida::texts(names@)[k] == s@;
            assert(names@[k]@ == s@);
        }
    }
    false
}

impl McCondition {
    fn operand_reads_param(op: &McCondOperand, param_names: &[String]) -> (r: bool)
        ensures
            r == operand_reads(*op, crate::mc_ida::texts(param_names@)),
        decreases op,
    {
        match op {
            McCondOperand::Ident(ids) => {
                let name = ids.to_string();
                names_contain(param_names, &name)
            },
            McCondOperand::Literal(_) | McCondOperand::StrLit(_) | McCondOperand::Word(_) => false,
            McCondOperand::Expr { left, right, .. } => {
                Self::operand_reads_param(left, param_names) || Self::operand_reads_param(
                    right,
                    param_names,
                )
            },
        }
    }

    /// Whether this condition reads one of `param_names`: such a condition is
    /// decided per instance, by the call site, never for the whole
    /// definition at once.
    pub fn references_param(&self, param_names: &[String]) -> (r: bool)
        ensures
            r == condition_reads(*self, crate::mc_ida::texts(param_names@)),
        decreases self,
    {
        match self {
            McCondition::In { left, .. } => Self::operand_reads_param(left, param_names),
            McCondition::And { left, right } => {
                left.references_param(param_names) || right.references_param(param_names)
            },
            McCondition::Or { left, right } => {
                left.references_param(param_names) || right.references_param(param_names)
            },
            McCondition::Eq { left, right }
            | McCondition::NotEq { left, right }
            | McCondition::Lt { left, right }
            | McCondition::Gt { left, right }
            | McCondition::LtEq { left, right }
            | McCondition::GtEq { left, right }
            | McCondition::BitAnd { left, right }
            | McCondition::BitOr { left, right } => {
                Self::operand_reads_param(left, param_names) || Self::operand_reads_param(
                    right,
                    param_names,
                )
            },
        }
    }
}

// ---------------------------------------------------------------------------
// Display text
// ---------------------------------------------------------------------------

impl CondFamily {
    /// How one side of a family mismatch is named in a diagnostic:
    /// `bare word 'FAST'`, `text 'FAST'`, `number '2'`, `definition text 'x'`.
    pub fn label(self, text: &str) -> (r: String)
        ensures
            r@ == (match self {
                CondFamily::Bare => "bare word '"@,
                CondFamily::Quoted => "text '"@,
                CondFamily::Numeric => "number '"@,
                CondFamily::Def => "definition text '"@,
            }) + text@ + "'"@,
    {
        let mut out = match self {
            CondFamily::Bare => owned("bare word '"),
            CondFamily::Quoted => owned("text '"),
            CondFamily::Numeric => owned("number '"),
            CondFamily::Def => owned("definition text '"),
        };
        push_str(&mut out, text);
        push_str(&mut out, "'");
        out
    }
}

impl CondArithOp {
    /// The operator's symbol.
    pub fn symbol(self) -> (r: &'static str)
        ensures
            r@ == op_symbol(self),
    {
        match self {
            CondArithOp::Add => "+",
            CondArithOp::Sub => "-",
            CondArithOp::Mul => "*",
            CondArithOp::Div => "/",
        }
    }
}

/// The symbol of an arithmetic operator.
pub open spec fn op_symbol(op: CondArithOp) -> Seq<char> {
    match op {
        CondArithOp::Add => "+"@,
        CondArithOp::Sub => "-"@,
        CondArithOp::Mul => "*"@,
        CondArithOp::Div => "/"@,
    }
}

/// The text of an operand: a name or literal as written, a string literal
/// in double quotes, an expression in parentheses.
pub open spec fn operand_text(o: McCondOperand) -> Seq<char>
    decreases o,
{
    match o {
        McCondOperand::Ident(ids) => ids_text(ids@),
        McCondOperand::Literal(s) => s@,
        McCondOperand::StrLit(s) => "\""@ + s@ + "\""@,
        McCondOperand::Word(s) => s@,
        McCondOperand::Expr { op, left, right } => "("@ + operand_text(*left) + " "@ + op_symbol(op)
            + " "@ + operand_text(*right) + ")"@,
    }
}

/// The text of an `in` list member: quoted when written quoted.
pub open spec fn member_text(m: InMember) -> Seq<char> {
    match m.family {
        CondFamily::Quoted => "\""@ + m.text@ + "\""@,
        _ => m.text@,
    }
}

/// The operator text between the two sides of a comparing judge.
pub open spec fn judge_text(l: McCondOperand, sym: Seq<char>, r: McCondOperand) -> Seq<char> {
    operand_text(l) + sym + operand_text(r)
}

/// The text of a condition.
pub open spec fn condition_text(c: McCondition) -> Seq<char>
    decreases c,
{
    match c {
        McCondition::Eq { left, right } => judge_text(left, " == "@, right),
        McCondition::NotEq { left, right } => judge_text(left, " != "@, right),
        McCondition::Lt { left, right } => judge_text(left, " < "@, right),
        McCondition::Gt { left, right } => judge_text(left, " > "@, right),
        McCondition::LtEq { left, right } => judge_text(left, " <= "@, right),
        McCondition::GtEq { left, right } => judge_text(left, " >= "@, right),
        McCondition::BitAnd { left, right } => judge_text(left, " & "@, right),
        McCondition::BitOr { left, right } => judge_text(left, " | "@, right),
        McCondition::In { left, values } => operand_text(left) + " in ["@ + join_sep(
            values@.map_values(|m: InMember| member_text(m)),
            ", "@,
        ) + "]"@,
        McCondition::And { left, right } => "("@ + condition_text(*left) + ") && ("@
            + condition_text(*right) + ")"@,
        McCondition::Or { left, right } => "("@ + condition_text(*left) + ") || ("@
            + condition_text(*right) + ")"@,
    }
}

impl McCondOperand {
    /// The operand's text.
    pub fn to_string(&self) -> (r: String)
        ensures
            r@ == operand_text(*self),
        decreases self,
    {
        match self {
            McCondOperand::Ident(ids) => ids.to_string(),
            McCondOperand::Literal(s) => s.clone(),
            McCondOperand::StrLit(s) => {
                let mut out = owned("\"");
                push_str(&mut out, s.as_str());
                push_str(&mut out, "\"");
                out
            },
            McCondOperand::Word(s) => s.clone(),
            McCondOperand::Expr { op, left, right } => {
                let mut out = owned("(");
                let l = left.to_string();
                push_str(&mut out, l.as_str());
                push_str(&mut out, " ");
                push_str(&mut out, op.symbol());
                push_str(&mut out, " ");
                let r = right.to_string();
                push_str(&mut out, r.as_str());
                push_str(&mut out, ")");
                out
            },
        }
    }
}

fn judge_string(l: &McCondOperand, sym: &str, r: &McCondOperand) -> (out: String)
    ensures
        out@ == judge_text(*l, sym@, *r),
{
    let mut out = l.to_string();
    push_str(&mut out, sym);
    let rs = r.to_string();
    push_str(&mut out, rs.as_str());
    out
}

fn member_strings(values: &Vec<InMember>) -> (r: Vec<String>)
    ensures
        crate::mc_ida::texts(r@) == values@.map_values(|m: InMember| member_text(m)),
{
    let mut out: Vec<String> = Vec::new();
    let mut i: usize = 0;
    while i < values.len()
        invariant
            0 <= i <= values@.len(),
            crate::mc_ida::texts(out@) == values@.take(i as int).map_values(|m: InMember| member_text(m)),
        decreases values@.len() - i,
    {
        let m = &values[i];
        let t = match m.family {
            CondFamily::Quoted => {
                let mut q = owned("\"");
                push_str(&mut q, m.text.as_str());
                push_str(&mut q, "\"");
                q
            },
            _ => m.text.clone(),
        };
        let ghost before = out@;
        out.push(t);
        assert(crate::mc_ida::texts(out@) =~= crate::mc_ida::texts(before).push(t@));
        assert(values@.take(i + 1).map_values(|m: InMember| member_text(m)) =~= values@.take(
            i as int,
        ).map_values(|m: InMember| member_text(m)).push(member_text(values@[i as int])));
        i += 1;
    }
    assert(values@.take(values@.len() as int) =~= values@);
    out
}

impl McCondition {
    /// The condition's text: `a == b`, `x in [1, "q"]`, `(p) && (q)`.
    pub fn to_string(&self) -> (r: String)
        ensures
            r@ == condition_text(*self),
        decreases self,
    {
        match self {
            McCondition::Eq { left, right } => judge_string(left, " == ", right),
            McCondition::NotEq { left, right } => judge_string(left, " != ", right),
            McCondition::Lt { left, right } => judge_string(left, " < ", right),
            McCondition::Gt { left, right } => judge_string(left, " > ", right),
            McCondition::LtEq { left, right } => judge_string(left, " <= ", right),
            McCondition::GtEq { left, right } => judge_string(left, " >= ", right),
            McCondition::BitAnd { left, right } => judge_string(left, " & ", right),
            McCondition::BitOr { left, right } => judge_string(left, " | ", right),
            McCondition::In { left, values } => {
                let mut out = left.to_string();
                push_str(&mut out, " in [");
                let ms = member_strings(values);
                let j = join_sep_exec(ms.as_slice(), ", ");
                push_str(&mut out, j.as_str());
                push_str(&mut out, "]");
                out
            },
            McCondition::And { left, right } => {
                let mut out = owned("(");
                let l = left.to_string();
                push_str(&mut out, l.as_str());
                push_str(&mut out, ") && (");
                let r = right.to_string();
                push_str(&mut out, r.as_str());
                push_str(&mut out, ")");
                out
            },
            McCondition::Or { left, right } => {
                let mut out = owned("(");
                let l = left.to_string();
                push_str(&mut out, l.as_str());
                push_str(&mut out, ") || (");
                let r = right.to_string();
                push_str(&mut out, r.as_str());
                push_str(&mut out, ")");
                out
            },
        }
    }
}


// ---------------------------------------------------------------------------
// Judging, around the value engine
// ---------------------------------------------------------------------------

/// Whether two operands of these families may be compared: two word
/// families meet only when they are the same family; any other family is
/// left to the value engine.
pub open spec fn families_meet(l: CondFamily, r: CondFamily) -> bool {
    !((l == CondFamily::Bare || l == CondFamily::Quoted) && (r == CondFamily::Bare || r
        == CondFamily::Quoted) && l != r)
}

/// [`families_meet`]: a bare word never meets a quoted string. A
/// comparison whose families do not meet is a family mismatch; an `in`
/// member whose family does not meet the left side's never matches it.
pub fn families_meet_exec(l: CondFamily, r: CondFamily) -> (b: bool)
    ensures
        b == families_meet(l, r),
{
    !(l.is_word_family() && r.is_word_family() && l != r)
}

/// What the left judge of `&&` or `||` decides.
#[derive(Debug, Clone, Copy, PartialEq, Eq, Structural)]
pub enum LogicStep {
    /// The composition is decided: this is its value.
    Decided(bool),
    /// The right judge decides.
    ReadRight,
}

/// The short circuit of `&&` (`is_and`) and `||`: a left judge that is
/// false under `&&`, or true under `||`, decides; otherwise the right judge
/// does.
pub fn logic_step(is_and: bool, left: bool) -> (r: LogicStep)
    ensures
        r == (if left != is_and {
            LogicStep::Decided(left)
        } else {
            LogicStep::ReadRight
        }),
{
    if left != is_and {
        LogicStep::Decided(left)
    } else {
        LogicStep::ReadRight
    }
}

/// A bitwise judge (`address & 0x01`, `address | 0x01`) on two integers:
/// satisfied when the result is not zero.
pub fn bitwise_judge(is_and: bool, l: i64, r: i64) -> (b: bool)
    ensures
        b == (if is_and {
            (l & r) != 0
        } else {
            (l | r) != 0
        }),
{
    if is_and {
        (l & r) != 0
    } else {
        (l | r) != 0
    }
}

/// The verdict of an `in` judge from the value engine's verdict on each
/// member (`Some(equal)`, or `None` where the engine failed): members are
/// read in order, a member whose family does not meet the left side's is
/// passed over, the first equal member satisfies the judge, and an engine
/// failure met before that ends it with no verdict.
pub open spec fn in_verdict(
    left: CondFamily,
    families: Seq<CondFamily>,
    equal: Seq<Option<bool>>,
    i: int,
) -> Option<bool>
    decreases families.len() - i,
{
    if i < 0 || i >= families.len() {
        Some(false)
    } else if !families_meet(left, families[i]) {
        in_verdict(left, families, equal, i + 1)
    } else {
        match equal[i] {
            None => None,
            Some(true) => Some(true),
            Some(false) => in_verdict(left, families, equal, i + 1),
        }
    }
}

/// [`in_verdict`] from the first member.
pub fn in_judge(left: CondFamily, families: &Vec<CondFamily>, equal: &Vec<Option<bool>>) -> (r:
    Option<bool>)
    requires
        families@.len() == equal@.len(),
    ensures
        r == in_verdict(left, families@, equal@, 0),
{
    let mut i: usize = 0;
    while i < families.len()
        invariant
            i <= families@.len(),
            families@.len() == equal@.len(),
            in_verdict(left, families@, equal@, 0) == in_verdict(left, families@, equal@, i as int),
        decreases families@.len() - i,
    {
        if families_meet_exec(left, families[i]) {
            match equal[i] {
                None => {
                    return None;
                },
                Some(true) => {
                    return Some(true);
                },
                Some(false) => {},
            }
        }
        i += 1;
    }
    Some(false)
}


/// How one side of a family mismatch is named (see [`CondFamily::label`]).
pub open spec fn family_label(f: CondFamily, text: Seq<char>) -> Seq<char> {
    (match f {
        CondFamily::Bare => "bare word '"@,
        CondFamily::Quoted => "text '"@,
        CondFamily::Numeric => "number '"@,
        CondFamily::Def => "definition text '"@,
    }) + text + "'"@
}

/// What the operand resolver and the value engine answered for one judge of
/// a condition: a comparison, a bitwise judge or an `in` list.
#[derive(Debug)]
pub enum LeafAnswer {
    /// A comparison: each side's text and family, and the engine's verdict
    /// on the two texts (`None` where the engine failed).
    Compare {
        left_text: String,
        left_family: CondFamily,
        right_text: String,
        right_family: CondFamily,
        holds: Option<bool>,
    },
    /// A bitwise judge: the two sides' integers (`Some(None)` when a side
    /// is not an integer; `None` where resolving a side failed).
    Bits(Option<Option<(i64, i64)>>),
    /// An `in` judge: the left side's family (`None` where resolving it
    /// failed) and, per member, the engine's verdict on equality (`None`
    /// where it failed).
    Member { left_family: Option<CondFamily>, equal: Vec<Option<bool>> },
}

/// Model of a [`LeafAnswer`].
pub enum LeafModel {
    Compare(Seq<char>, CondFamily, Seq<char>, CondFamily, Option<bool>),
    Bits(Option<Option<(i64, i64)>>),
    Member(Option<CondFamily>, Seq<Option<bool>>),
}

impl View for LeafAnswer {
    type V = LeafModel;

    open spec fn view(&self) -> LeafModel {
        match self {
            LeafAnswer::Compare { left_text, left_family, right_text, right_family, holds } =>
                LeafModel::Compare(left_text@, *left_family, right_text@, *right_family, *holds),
            LeafAnswer::Bits(b) => LeafModel::Bits(*b),
            LeafAnswer::Member { left_family, equal } => LeafModel::Member(*left_family, equal@),
        }
    }
}

/// The outcome of judging a condition.
#[derive(Debug)]
pub enum JudgeOutcome {
    /// The condition holds or does not.
    Holds(bool),
    /// A bare word met a quoted string; the two sides as a diagnostic names
    /// them.
    FamilyMismatch { lhs: String, rhs: String },
    /// The value engine failed, or an answer was missing or did not fit.
    EngineFailed,
}

/// Model of a [`JudgeOutcome`].
pub enum OutcomeModel {
    Holds(bool),
    Mismatch(Seq<char>, Seq<char>),
    Failed,
}

impl View for JudgeOutcome {
    type V = OutcomeModel;

    open spec fn view(&self) -> OutcomeModel {
        match self {
            JudgeOutcome::Holds(b) => OutcomeModel::Holds(*b),
            JudgeOutcome::FamilyMismatch { lhs, rhs } => OutcomeModel::Mismatch(lhs@, rhs@),
            JudgeOutcome::EngineFailed => OutcomeModel::Failed,
        }
    }
}

/// Number of judges (comparisons, bitwise and `in` judges) in a condition.
pub open spec fn judge_count(c: McCondition) -> nat
    decreases c,
{
    match c {
        McCondition::And { left, right } => judge_count(*left) + judge_count(*right),
        McCondition::Or { left, right } => judge_count(*left) + judge_count(*right),
        _ => 1,
    }
}

/// The families of an `in` list's members.
pub open spec fn member_families(v: Seq<InMember>) -> Seq<CondFamily> {
    v.map_values(|m: InMember| m.family)
}

/// The outcome of a single judge from its answer.
pub open spec fn leaf_outcome(c: McCondition, a: LeafModel) -> OutcomeModel {
    match c {
        McCondition::In { values, .. } => match a {
            LeafModel::Member(Some(lf), equal) => if equal.len() == values@.len() {
                match in_verdict(lf, member_families(values@), equal, 0) {
                    Some(b) => OutcomeModel::Holds(b),
                    None => OutcomeModel::Failed,
                }
            } else {
                OutcomeModel::Failed
            },
            _ => OutcomeModel::Failed,
        },
        McCondition::BitAnd { .. } => match a {
            LeafModel::Bits(Some(Some((l, r)))) => OutcomeModel::Holds((l & r) != 0),
            LeafModel::Bits(Some(None)) => OutcomeModel::Holds(false),
            _ => OutcomeModel::Failed,
        },
        McCondition::BitOr { .. } => match a {
            LeafModel::Bits(Some(Some((l, r)))) => OutcomeModel::Holds((l | r) != 0),
            LeafModel::Bits(Some(None)) => OutcomeModel::Holds(false),
            _ => OutcomeModel::Failed,
        },
        _ => match a {
            LeafModel::Compare(lt, lf, rt, rf, holds) => if !families_meet(lf, rf) {
                OutcomeModel::Mismatch(family_label(lf, lt), family_label(rf, rt))
            } else {
                match holds {
                    Some(b) => OutcomeModel::Holds(b),
                    None => OutcomeModel::Failed,
                }
            },
            _ => OutcomeModel::Failed,
        },
    }
}

/// The outcome of a condition whose judges are answered by `answers[i..]`
/// in written order: `&&` and `||` read their right side only where the
/// left one does not decide, and any mismatch or failure ends the judging.
pub open spec fn judge_at(c: McCondition, answers: Seq<LeafModel>, i: int) -> OutcomeModel
    decreases c,
{
    match c {
        McCondition::And { left, right } => match judge_at(*left, answers, i) {
            OutcomeModel::Holds(b) => if b != true {
                OutcomeModel::Holds(b)
            } else {
                judge_at(*right, answers, i + judge_count(*left))
            },
            other => other,
        },
        McCondition::Or { left, right } => match judge_at(*left, answers, i) {
            OutcomeModel::Holds(b) => if b != false {
                OutcomeModel::Holds(b)
            } else {
                judge_at(*right, answers, i + judge_count(*left))
            },
            other => other,
        },
        _ => if 0 <= i < answers.len() {
            leaf_outcome(c, answers[i])
        } else {
            OutcomeModel::Failed
        },
    }
}

proof fn lemma_judge_past_end(c: McCondition, answers: Seq<LeafModel>, i: int)
    requires
        i >= answers.len(),
    ensures
        judge_at(c, answers, i) == OutcomeModel::Failed,
    decreases c,
{
    match c {
        McCondition::And { left, right } => {
            lemma_judge_past_end(*left, answers, i);
        },
        McCondition::Or { left, right } => {
            lemma_judge_past_end(*left, answers, i);
        },
        _ => {},
    }
}

/// `&&` and `||` compose their sides' outcomes, the right side judged from
/// the answers after the left side's: `a || b` holds exactly when `a` holds,
/// or `a` does not and `b` does, and fails to hold exactly when neither
/// holds; `a && b` holds exactly when both hold, and fails to hold exactly
/// when `a` does not, or `a` does and `b` does not. A mismatch or failure of
/// the left side is the outcome; one of the right side is the outcome when
/// the right side is read.
pub proof fn logic_composition_law(
    l: McCondition,
    r: McCondition,
    answers: Seq<LeafModel>,
    i: int,
)
    ensures
        ({
            let a = judge_at(l, answers, i);
            let b = judge_at(r, answers, i + judge_count(l));
            let or = judge_at(McCondition::Or { left: Box::new(l), right: Box::new(r) }, answers, i);
            let and = judge_at(
                McCondition::And { left: Box::new(l), right: Box::new(r) },
                answers,
                i,
            );
            &&& (or == OutcomeModel::Holds(true)) <==> (a == OutcomeModel::Holds(true) || (a
                == OutcomeModel::Holds(false) && b == OutcomeModel::Holds(true)))
            &&& (or == OutcomeModel::Holds(false)) <==> (a == OutcomeModel::Holds(false) && b
                == OutcomeModel::Holds(false))
            &&& (and == OutcomeModel::Holds(true)) <==> (a == OutcomeModel::Holds(true) && b
                == OutcomeModel::Holds(true))
            &&& (and == OutcomeModel::Holds(false)) <==> (a == OutcomeModel::Holds(false) || (a
                == OutcomeModel::Holds(true) && b == OutcomeModel::Holds(false)))
            &&& !(a is Holds) ==> or == a && and == a
            &&& a == OutcomeModel::Holds(false) ==> or == b
            &&& a == OutcomeModel::Holds(true) ==> and == b
        }),
{
}

/// A bare word against a quoted string, either way round.
pub open spec fn cross_family(a: CondFamily, b: CondFamily) -> bool {
    (a == CondFamily::Bare && b == CondFamily::Quoted) || (a == CondFamily::Quoted && b
        == CondFamily::Bare)
}

proof fn lemma_in_verdict_meaning(
    lf: CondFamily,
    fam: Seq<CondFamily>,
    eq: Seq<Option<bool>>,
    i: int,
)
    requires
        eq.len() == fam.len(),
        0 <= i <= fam.len(),
    ensures
        in_verdict(lf, fam, eq, i) == Some(true) ==> exists|k: int|
            i <= k < fam.len() && !cross_family(lf, fam[k]) && #[trigger] eq[k] == Some(true),
        in_verdict(lf, fam, eq, i) == Some(false) ==> forall|k: int|
            i <= k < fam.len() && !cross_family(lf, fam[k]) ==> #[trigger] eq[k] == Some(false),
        (forall|k: int|
            i <= k < fam.len() && !cross_family(lf, fam[k]) ==> #[trigger] eq[k] == Some(false))
            ==> in_verdict(lf, fam, eq, i) == Some(false),
    decreases fam.len() - i,
{
    if i < fam.len() {
        lemma_in_verdict_meaning(lf, fam, eq, i + 1);
    }
}

/// A comparison judge is a family mismatch exactly when a bare word meets a
/// quoted string; otherwise it holds or not as the value engine answered,
/// and fails where the engine failed. An `in` judge holds only where some
/// member of a family the left side can meet was found equal, does not
/// hold only where every such member was found unequal, and does not hold
/// whenever every such member was found unequal.
pub proof fn leaf_judge_law(c: McCondition, a: LeafModel)
    ensures
        (c is Eq || c is NotEq || c is Lt || c is Gt || c is LtEq || c is GtEq) ==> (a matches
            LeafModel::Compare(lt, lf, rt, rf, holds) ==> {
            let o = judge_at(c, seq![a], 0);
            &&& (o is Mismatch) <==> cross_family(lf, rf)
            &&& !cross_family(lf, rf) ==> (match holds {
                Some(b) => o == OutcomeModel::Holds(b),
                None => o == OutcomeModel::Failed,
            })
        }),
        (c matches McCondition::In { values, .. }) ==> (a matches LeafModel::Member(
            Some(lf),
            equal,
        ) ==> equal.len() == c->values@.len() ==> {
            let o = judge_at(c, seq![a], 0);
            let fam = member_families(c->values@);
            &&& o == OutcomeModel::Holds(true) ==> exists|k: int|
                0 <= k < fam.len() && !cross_family(lf, fam[k]) && #[trigger] equal[k]
                    == Some(true)
            &&& o == OutcomeModel::Holds(false) ==> forall|k: int|
                0 <= k < fam.len() && !cross_family(lf, fam[k]) ==> #[trigger] equal[k]
                    == Some(false)
            &&& (forall|k: int|
                0 <= k < fam.len() && !cross_family(lf, fam[k]) ==> #[trigger] equal[k]
                    == Some(false)) ==> o == OutcomeModel::Holds(false)
        }),
{
    if let McCondition::In { values, .. } = c {
        if let LeafModel::Member(Some(lf), equal) = a {
            if equal.len() == values@.len() {
                lemma_in_verdict_meaning(lf, member_families(values@), equal, 0);
            }
        }
    }
}

/// A bitwise judge on two integers: `|` holds exactly when either is
/// non-zero; `&` holds only where `|` does, never against zero, and on
/// equal integers exactly when they are non-zero. A side that is no integer
/// makes either judge not hold; a side that could not be resolved makes it
/// fail.
pub proof fn bitwise_judge_law(
    l: McCondOperand,
    r: McCondOperand,
    x: i64,
    y: i64,
)
    ensures
        ({
            let and = McCondition::BitAnd { left: l, right: r };
            let or = McCondition::BitOr { left: l, right: r };
            let ints = LeafModel::Bits(Some(Some((x, y))));
            &&& (judge_at(or, seq![ints], 0) == OutcomeModel::Holds(true)) <==> (x != 0 || y != 0)
            &&& judge_at(or, seq![ints], 0) is Holds
            &&& judge_at(and, seq![ints], 0) is Holds
            &&& judge_at(and, seq![ints], 0) == OutcomeModel::Holds(true) ==> judge_at(
                or,
                seq![ints],
                0,
            ) == OutcomeModel::Holds(true)
            &&& y == 0 ==> judge_at(and, seq![ints], 0) == OutcomeModel::Holds(false)
            &&& x == y ==> ((judge_at(and, seq![ints], 0) == OutcomeModel::Holds(true)) <==> x
                != 0)
            &&& judge_at(and, seq![LeafModel::Bits(Some(None))], 0) == OutcomeModel::Holds(false)
            &&& judge_at(or, seq![LeafModel::Bits(Some(None))], 0) == OutcomeModel::Holds(false)
            &&& judge_at(and, seq![LeafModel::Bits(None)], 0) == OutcomeModel::Failed
            &&& judge_at(or, seq![LeafModel::Bits(None)], 0) == OutcomeModel::Failed
        }),
{
    assert(((x & y) != 0) ==> ((x | y) != 0)) by (bit_vector);
    assert(((x | y) != 0) <==> (x != 0 || y != 0)) by (bit_vector);
    assert(y == 0 ==> (x & y) == 0) by (bit_vector);
    assert(x == y ==> (((x & y) != 0) <==> x != 0)) by (bit_vector);
}

/// [`judge_count`], capped at the largest index.
fn judge_count_exec(c: &McCondition) -> (r: usize)
    ensures
        r == (if judge_count(*c) > usize::MAX {
            usize::MAX as nat
        } else {
            judge_count(*c)
        }),
    decreases c,
{
    match c {
        McCondition::And { left, right } | McCondition::Or { left, right } => {
            let a = judge_count_exec(left);
            let b = judge_count_exec(right);
            a.saturating_add(b)
        },
        _ => 1,
    }
}

fn leaf_outcome_exec(c: &McCondition, a: &LeafAnswer) -> (r: JudgeOutcome)
    ensures
        r@ == leaf_outcome(*c, a@),
{
    match c {
        McCondition::In { values, .. } => match a {
            LeafAnswer::Member { left_family: Some(left_family), equal } => {
                if equal.len() != values.len() {
                    return JudgeOutcome::EngineFailed;
                }
                let mut fams: Vec<CondFamily> = Vec::new();
                let mut k: usize = 0;
                while k < values.len()
                    invariant
                        k <= values@.len(),
                        fams@ == member_families(values@).take(k as int),
                    decreases values@.len() - k,
                {
                    fams.push(values[k].family);
                    assert(fams@ =~= member_families(values@).take(k + 1));
                    k += 1;
                }
                assert(fams@ =~= member_families(values@));
                match in_judge(*left_family, &fams, equal) {
                    Some(b) => JudgeOutcome::Holds(b),
                    None => JudgeOutcome::EngineFailed,
                }
            },
            _ => JudgeOutcome::EngineFailed,
        },
        McCondition::BitAnd { .. } | McCondition::BitOr { .. } => match a {
            LeafAnswer::Bits(Some(Some((l, r)))) => {
                let is_and = match c {
                    McCondition::BitAnd { .. } => true,
                    _ => false,
                };
                JudgeOutcome::Holds(bitwise_judge(is_and, *l, *r))
            },
            LeafAnswer::Bits(Some(None)) => JudgeOutcome::Holds(false),
            _ => JudgeOutcome::EngineFailed,
        },
        _ => match a {
            LeafAnswer::Compare { left_text, left_family, right_text, right_family, holds } => {
                if !families_meet_exec(*left_family, *right_family) {
                    JudgeOutcome::FamilyMismatch {
                        lhs: left_family.label(left_text.as_str()),
                        rhs: right_family.label(right_text.as_str()),
                    }
                } else {
                    match holds {
                        Some(b) => JudgeOutcome::Holds(*b),
                        None => JudgeOutcome::EngineFailed,
                    }
                }
            },
            _ => JudgeOutcome::EngineFailed,
        },
    }
}

fn judge_from(c: &McCondition, answers: &Vec<LeafAnswer>, i: usize) -> (r: JudgeOutcome)
    ensures
        r@ == judge_at(*c, answers@.map_values(|a: LeafAnswer| a@), i as int),
    decreases c,
{
    let ghost m = answers@.map_values(|a: LeafAnswer| a@);
    if i >= answers.len() {
        proof {
            lemma_judge_past_end(*c, m, i as int);
        }
        return JudgeOutcome::EngineFailed;
    }
    match c {
        McCondition::And { left, right } | McCondition::Or { left, right } => {
            let is_and = match c {
                McCondition::And { .. } => true,
                _ => false,
            };
            let l = judge_from(left, answers, i);
            match l {
                JudgeOutcome::Holds(b) => {
                    match logic_step(is_and, b) {
                        LogicStep::Decided(v) => JudgeOutcome::Holds(v),
                        LogicStep::ReadRight => {
                            let n = judge_count_exec(left);
                            let next = i.saturating_add(n);
                            proof {
                                if i + judge_count(**left) > usize::MAX {
                                    lemma_judge_past_end(**right, m, i + judge_count(**left));
                                    lemma_judge_past_end(**right, m, next as int);
                                }
                            }
                            judge_from(right, answers, next)
                        },
                    }
                },
                other => other,
            }
        },
        _ => {
            let r = leaf_outcome_exec(c, &answers[i]);
            assert(m[i as int] == answers@[i as int]@);
            r
        },
    }
}

impl McCondition {
    /// Judges the condition from the answers the operand resolver and the
    /// value engine gave for its judges, in written order: the bare/quoted
    /// family gate, the `in` list's member gate, the bitwise reading, and
    /// the `&&`/`||` short circuit.
    pub fn judge(&self, answers: &Vec<LeafAnswer>) -> (r: JudgeOutcome)
        ensures
            r@ == judge_at(*self, answers@.map_values(|a: LeafAnswer| a@), 0),
    {
        judge_from(self, answers, 0)
    }

    /// Whether the condition holds; a failed judgement reads as not holding.
    pub fn check_condition(&self, answers: &Vec<LeafAnswer>) -> (r: bool)
        ensures
            r == (judge_at(*self, answers@.map_values(|a: LeafAnswer| a@), 0) == OutcomeModel::Holds(
                true,
            )),
    {
        match self.judge(answers) {
            JudgeOutcome::Holds(b) => b,
            _ => false,
        }
    }
}

} // verus!
