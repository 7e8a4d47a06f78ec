//! Conditions and `if`/`else` chains read from syntax-tree nodes, and the
//! choice of the branch a chain takes.
//!
//! A branch's block is named by its path from the chain's node: the child
//! indices leading down to it.
use vstd::prelude::*;
use crate::mc_conds::{
    CondArithOp, CondFamily, CondParam, InMember, JudgeOutcome, McCondOperand, McCondition,
    OutcomeModel,
};
use crate::mc_ids::{ids_text, IdsSegModel, McIds};
use crate::node_ids::{ids_of, ids_of_exec};
use crate::strs::copy_string;
use crate::syntax::{NodeKind, SyntaxNode};
use crate::text::str_eq;

verus! {

// ---------------------------------------------------------------------------
// Models
// ---------------------------------------------------------------------------

/// Model of a condition operand.
pub enum OperandModel {
    Ident(Seq<IdsSegModel>),
    Literal(Seq<char>),
    StrLit(Seq<char>),
    Word(Seq<char>),
    Expr(CondArithOp, Box<OperandModel>, Box<OperandModel>),
}

/// Model of an operand.
pub open spec fn operand_model(o: McCondOperand) -> OperandModel
    decreases o,
{
    match o {
        McCondOperand::Ident(i) => OperandModel::Ident(i@),
        McCondOperand::Literal(t) => OperandModel::Literal(t@),
        McCondOperand::StrLit(t) => OperandModel::StrLit(t@),
        McCondOperand::Word(t) => OperandModel::Word(t@),
        McCondOperand::Expr { op, left, right } => OperandModel::Expr(
            op,
            Box::new(operand_model(*left)),
            Box::new(operand_model(*right)),
        ),
    }
}

/// The comparison a two-sided judge makes.
#[derive(Debug, Clone, Copy, PartialEq, Eq, Structural)]
pub enum JudgeKind {
    Eq,
    NotEq,
    Lt,
    Gt,
    LtEq,
    GtEq,
    BitAnd,
    BitOr,
}

/// Model of a condition.
pub enum CondModel {
    Judge(JudgeKind, OperandModel, OperandModel),
    In(OperandModel, Seq<(Seq<char>, CondFamily)>),
    And(Box<CondModel>, Box<CondModel>),
    Or(Box<CondModel>, Box<CondModel>),
}

/// Model of an `in` list's members.
pub open spec fn members_model(v: Seq<InMember>) -> Seq<(Seq<char>, CondFamily)> {
    v.map_values(|m: InMember| (m.text@, m.family))
}

/// Model of a condition.
pub open spec fn cond_model(c: McCondition) -> CondModel
    decreases c,
{
    match c {
        McCondition::Eq { left, right } => CondModel::Judge(
            JudgeKind::Eq,
            operand_model(left),
            operand_model(right),
        ),
        McCondition::NotEq { left, right } => CondModel::Judge(
            JudgeKind::NotEq,
            operand_model(left),
            operand_model(right),
        ),
        McCondition::Lt { left, right } => CondModel::Judge(
            JudgeKind::Lt,
            operand_model(left),
            operand_model(right),
        ),
        McCondition::Gt { left, right } => CondModel::Judge(
            JudgeKind::Gt,
            operand_model(left),
            operand_model(right),
        ),
        McCondition::LtEq { left, right } => CondModel::Judge(
            JudgeKind::LtEq,
            operand_model(left),
            operand_model(right),
        ),
        McCondition::GtEq { left, right } => CondModel::Judge(
            JudgeKind::GtEq,
            operand_model(left),
            operand_model(right),
        ),
        McCondition::BitAnd { left, right } => CondModel::Judge(
            JudgeKind::BitAnd,
            operand_model(left),
            operand_model(right),
        ),
        McCondition::BitOr { left, right } => CondModel::Judge(
            JudgeKind::BitOr,
            operand_model(left),
            operand_model(right),
        ),
        McCondition::In { left, values } => CondModel::In(
            operand_model(left),
            members_model(values@),
        ),
        McCondition::And { left, right } => CondModel::And(
            Box::new(cond_model(*left)),
            Box::new(cond_model(*right)),
        ),
        McCondition::Or { left, right } => CondModel::Or(
            Box::new(cond_model(*left)),
            Box::new(cond_model(*right)),
        ),
    }
}

// ---------------------------------------------------------------------------
// Reading conditions
// ---------------------------------------------------------------------------

/// The arithmetic operator an operator node writes.
pub open spec fn arith_of(k: NodeKind) -> Option<CondArithOp> {
    match k {
        NodeKind::OpdPlus => Some(CondArithOp::Add),
        NodeKind::OpdMinus => Some(CondArithOp::Sub),
        NodeKind::OpdMulti => Some(CondArithOp::Mul),
        NodeKind::OpdDivid => Some(CondArithOp::Div),
        _ => None,
    }
}

/// The operand a judge side spells: an identifier, a literal's text, a
/// quoted string, a keyword constant, or an arithmetic expression of two
/// operands; an expression wrapper is looked through.
pub open spec fn operand_of(n: SyntaxNode) -> Option<OperandModel>
    decreases n,
{
    match n.kind {
        NodeKind::Id | NodeKind::Ida => match ids_of(n, Seq::empty()) {
            Some(i) => Some(OperandModel::Ident(i)),
            None => None,
        },
        NodeKind::Int | NodeKind::Hex | NodeKind::Float | NodeKind::UnitValue => Some(
            OperandModel::Literal(n.text@),
        ),
        NodeKind::Str => Some(OperandModel::StrLit(n.text@)),
        NodeKind::Const => Some(OperandModel::Word(n.text@)),
        NodeKind::Opd => if n.children@.len() > 0 {
            match ids_of(n.children@[0], n.children@.skip(1)) {
                Some(i) => Some(OperandModel::Ident(i)),
                None => None,
            }
        } else {
            None
        },
        NodeKind::Expression => if n.children@.len() > 0 {
            operand_of(n.children@[0])
        } else {
            None
        },
        NodeKind::OpdPlus | NodeKind::OpdMinus | NodeKind::OpdMulti | NodeKind::OpdDivid => if n.children@.len()
            >= 2 {
            match (operand_of(n.children@[0]), operand_of(n.children@[1])) {
                (Some(l), Some(r)) => Some(
                    OperandModel::Expr(arith_of(n.kind)->0, Box::new(l), Box::new(r)),
                ),
                _ => None,
            }
        } else {
            None
        },
        _ => None,
    }
}

/// The identifier a bare `in` member spells, looking through operand and
/// expression wrappers.
pub open spec fn bare_ids(n: SyntaxNode) -> Option<Seq<IdsSegModel>>
    decreases n,
{
    if n.kind == NodeKind::Opd || n.kind == NodeKind::Expression {
        if n.children@.len() > 0 {
            bare_ids(n.children@[0])
        } else {
            None
        }
    } else {
        ids_of(n, Seq::empty())
    }
}

/// Whether a node kind writes a bare `in` member.
pub open spec fn bare_kind(k: NodeKind) -> bool {
    k == NodeKind::Id || k == NodeKind::Ida || k == NodeKind::Ids || k == NodeKind::Opd || k
        == NodeKind::Expression
}

/// The member one `in` list item spells: a quoted string, or a bare
/// identifier's text; with `numeric`, also a number's text.
pub open spec fn in_member(n: SyntaxNode, numeric: bool) -> Option<(Seq<char>, CondFamily)> {
    if n.kind == NodeKind::Str {
        Some((n.text@, CondFamily::Quoted))
    } else if bare_kind(n.kind) {
        match bare_ids(n) {
            Some(i) => Some((ids_text(i), CondFamily::Bare)),
            None => None,
        }
    } else if numeric && (n.kind == NodeKind::Int || n.kind == NodeKind::Hex || n.kind
        == NodeKind::Float) {
        Some((n.text@, CondFamily::Numeric))
    } else {
        None
    }
}

/// The members the items `kids` of an `in` list spell, in order.
pub open spec fn in_members(kids: Seq<SyntaxNode>, numeric: bool) -> Seq<(Seq<char>, CondFamily)>
    decreases kids.len(),
{
    if kids.len() == 0 {
        Seq::empty()
    } else {
        in_members(kids.drop_last(), numeric) + match in_member(kids.last(), numeric) {
            Some(m) => seq![m],
            None => Seq::empty(),
        }
    }
}

/// The `in` judge a member vector makes with the first operand read so far
/// (`param == [A, B]` read as `param in [A, B]`); none without a left
/// operand or a member.
pub open spec fn in_array(v: SyntaxNode, left: Option<OperandModel>) -> Option<CondModel> {
    match left {
        Some(l) => if v.children@.len() > 0 && in_members(v.children@, false).len() > 0 {
            Some(CondModel::In(l, in_members(v.children@, false)))
        } else {
            None
        },
        None => None,
    }
}

/// Where reading a judge's sides ends: an `in` judge found on the way, or
/// the operands read.
pub enum SidesEnd {
    Found(CondModel),
    Read(Seq<OperandModel>),
}

/// Reads the sides `kids[i..]` of a judge after the operands `ops`: a
/// member vector turns the judge into an `in` judge when it can; a side
/// with no operand reading is passed over.
pub open spec fn read_sides(kids: Seq<SyntaxNode>, i: int, ops: Seq<OperandModel>) -> SidesEnd
    decreases kids.len() - i,
{
    if i < 0 || i >= kids.len() {
        SidesEnd::Read(ops)
    } else if kids[i].kind == NodeKind::OpdSquareVec {
        match in_array(
            kids[i],
            if ops.len() > 0 {
                Some(ops[0])
            } else {
                None
            },
        ) {
            Some(c) => SidesEnd::Found(c),
            None => read_sides(kids, i + 1, ops),
        }
    } else {
        match operand_of(kids[i]) {
            Some(o) => read_sides(kids, i + 1, ops.push(o)),
            None => read_sides(kids, i + 1, ops),
        }
    }
}

/// The comparison a judge node writes.
pub open spec fn judge_kind(k: NodeKind) -> Option<JudgeKind> {
    match k {
        NodeKind::JudgeEq => Some(JudgeKind::Eq),
        NodeKind::JudgeNotEq => Some(JudgeKind::NotEq),
        NodeKind::JudgeLt => Some(JudgeKind::Lt),
        NodeKind::JudgeGt => Some(JudgeKind::Gt),
        NodeKind::JudgeLtEq => Some(JudgeKind::LtEq),
        NodeKind::JudgeGtEq => Some(JudgeKind::GtEq),
        NodeKind::JudgeBitAnd => Some(JudgeKind::BitAnd),
        NodeKind::JudgeBitOr => Some(JudgeKind::BitOr),
        _ => None,
    }
}

/// The `in` judge an `in` node writes: an identifier (possibly wrapped in
/// an operand) and the members of the vector after it.
pub open spec fn in_condition(n: SyntaxNode) -> Option<CondModel> {
    if n.children@.len() == 0 {
        None
    } else {
        let first = n.children@[0];
        let id_node = if first.kind == NodeKind::Opd && first.children@.len() > 0 {
            Some(first.children@[0])
        } else if first.kind == NodeKind::Opd {
            None
        } else {
            Some(first)
        };
        match id_node {
            Some(idn) => if (idn.kind == NodeKind::Id || idn.kind == NodeKind::Ida || idn.kind
                == NodeKind::Ids) && ids_of(idn, Seq::empty()) is Some && n.children@.len() > 1 {
                let right = n.children@[1];
                Some(
                    CondModel::In(
                        OperandModel::Ident(ids_of(idn, Seq::empty())->0),
                        if right.kind == NodeKind::OpdSquareVec {
                            in_members(right.children@, true)
                        } else {
                            Seq::empty()
                        },
                    ),
                )
            } else {
                None
            },
            None => None,
        }
    }
}

/// Whether a node kind is a judge.
pub open spec fn is_judge(k: NodeKind) -> bool {
    judge_kind(k) is Some || k == NodeKind::JudgeIn || k == NodeKind::JudgeAnd || k
        == NodeKind::JudgeOr
}

/// The condition a judge node writes: a comparison of its first two
/// operand sides, an `in` judge, or `&&`/`||` of two conditions.
pub open spec fn condition_of(n: SyntaxNode) -> Option<CondModel>
    decreases n,
{
    if n.kind == NodeKind::JudgeAnd || n.kind == NodeKind::JudgeOr {
        if n.children@.len() >= 2 {
            match (condition_of(n.children@[0]), condition_of(n.children@[1])) {
                (Some(l), Some(r)) => Some(
                    if n.kind == NodeKind::JudgeAnd {
                        CondModel::And(Box::new(l), Box::new(r))
                    } else {
                        CondModel::Or(Box::new(l), Box::new(r))
                    },
                ),
                _ => None,
            }
        } else {
            None
        }
    } else if n.kind == NodeKind::JudgeIn {
        in_condition(n)
    } else {
        match judge_kind(n.kind) {
            Some(k) => match read_sides(n.children@, 0, Seq::empty()) {
                SidesEnd::Found(c) => Some(c),
                SidesEnd::Read(ops) => if ops.len() >= 2 {
                    Some(CondModel::Judge(k, ops[0], ops[1]))
                } else {
                    None
                },
            },
            None => None,
        }
    }
}


// ---------------------------------------------------------------------------
// Reading conditions: executable
// ---------------------------------------------------------------------------

/// The model of an optional operand.
pub open spec fn opt_operand(o: Option<McCondOperand>) -> Option<OperandModel> {
    match o {
        Some(x) => Some(operand_model(x)),
        None => None,
    }
}

/// The model of an optional condition.
pub open spec fn opt_cond(o: Option<McCondition>) -> Option<CondModel> {
    match o {
        Some(x) => Some(cond_model(x)),
        None => None,
    }
}

/// The models of a list of operands.
pub open spec fn operand_models(v: Seq<McCondOperand>) -> Seq<OperandModel> {
    v.map_values(|o: McCondOperand| operand_model(o))
}

fn ids_alone(n: &SyntaxNode) -> (r: Option<McIds>)
    ensures
        match r {
            Some(x) => ids_of(*n, Seq::empty()) == Some(x@),
            None => ids_of(*n, Seq::empty()) is None,
        },
{
    let none: Vec<SyntaxNode> = Vec::new();
    assert(none@.skip(0) =~= Seq::<SyntaxNode>::empty());
    match ids_of_exec(n, &none, 0) {
        Some(segments) => Some(McIds { segments }),
        None => None,
    }
}

fn operand_copy(o: &McCondOperand) -> (r: McCondOperand)
    ensures
        operand_model(r) == operand_model(*o),
    decreases o,
{
    match o {
        McCondOperand::Ident(i) => McCondOperand::Ident(i.copy()),
        McCondOperand::Literal(t) => McCondOperand::Literal(copy_string(t)),
        McCondOperand::StrLit(t) => McCondOperand::StrLit(copy_string(t)),
        McCondOperand::Word(t) => McCondOperand::Word(copy_string(t)),
        McCondOperand::Expr { op, left, right } => McCondOperand::Expr {
            op: *op,
            left: Box::new(operand_copy(left)),
            right: Box::new(operand_copy(right)),
        },
    }
}

fn operand_exec(n: &SyntaxNode) -> (r: Option<McCondOperand>)
    ensures
        opt_operand(r) == operand_of(*n),
    decreases n,
{
    match n.kind {
        NodeKind::Id | NodeKind::Ida => match ids_alone(n) {
            Some(i) => Some(McCondOperand::Ident(i)),
            None => None,
        },
        NodeKind::Int | NodeKind::Hex | NodeKind::Float | NodeKind::UnitValue => Some(
            McCondOperand::Literal(copy_string(&n.text)),
        ),
        NodeKind::Str => Some(McCondOperand::StrLit(copy_string(&n.text))),
        NodeKind::Const => Some(McCondOperand::Word(copy_string(&n.text))),
        NodeKind::Opd => {
            if n.children.len() > 0 {
                match ids_of_exec(&n.children[0], &n.children, 1) {
                    Some(segments) => Some(McCondOperand::Ident(McIds { segments })),
                    None => None,
                }
            } else {
                None
            }
        },
        NodeKind::Expression => {
            if n.children.len() > 0 {
                operand_exec(&n.children[0])
            } else {
                None
            }
        },
        NodeKind::OpdPlus | NodeKind::OpdMinus | NodeKind::OpdMulti | NodeKind::OpdDivid => {
            if n.children.len() >= 2 {
                let op = match n.kind {
                    NodeKind::OpdPlus => CondArithOp::Add,
                    NodeKind::OpdMinus => CondArithOp::Sub,
                    NodeKind::OpdMulti => CondArithOp::Mul,
                    _ => CondArithOp::Div,
                };
                match (operand_exec(&n.children[0]), operand_exec(&n.children[1])) {
                    (Some(l), Some(r)) => Some(
                        McCondOperand::Expr { op, left: Box::new(l), right: Box::new(r) },
                    ),
                    _ => None,
                }
            } else {
                None
            }
        },
        _ => None,
    }
}

fn bare_ids_exec(n: &SyntaxNode) -> (r: Option<McIds>)
    ensures
        match r {
            Some(x) => bare_ids(*n) == Some(x@),
            None => bare_ids(*n) is None,
        },
    decreases n,
{
    if n.kind == NodeKind::Opd || n.kind == NodeKind::Expression {
        if n.children.len() > 0 {
            bare_ids_exec(&n.children[0])
        } else {
            None
        }
    } else {
        ids_alone(n)
    }
}

fn in_member_exec(n: &SyntaxNode, numeric: bool) -> (r: Option<InMember>)
    ensures
        match r {
            Some(m) => in_member(*n, numeric) == Some((m.text@, m.family)),
            None => in_member(*n, numeric) is None,
        },
{
    if n.kind == NodeKind::Str {
        Some(InMember { text: copy_string(&n.text), family: CondFamily::Quoted })
    } else if n.kind == NodeKind::Id || n.kind == NodeKind::Ida || n.kind == NodeKind::Ids
        || n.kind == NodeKind::Opd || n.kind == NodeKind::Expression {
        match bare_ids_exec(n) {
            Some(i) => Some(InMember { text: i.to_string(), family: CondFamily::Bare }),
            None => None,
        }
    } else if numeric && (n.kind == NodeKind::Int || n.kind == NodeKind::Hex || n.kind
        == NodeKind::Float) {
        Some(InMember { text: copy_string(&n.text), family: CondFamily::Numeric })
    } else {
        None
    }
}

fn in_members_exec(kids: &Vec<SyntaxNode>, numeric: bool) -> (r: Vec<InMember>)
    ensures
        members_model(r@) == in_members(kids@, numeric),
{
    let mut out: Vec<InMember> = Vec::new();
    let mut i: usize = 0;
    while i < kids.len()
        invariant
            i <= kids@.len(),
            members_model(out@) == in_members(kids@.take(i as int), numeric),
        decreases kids@.len() - i,
    {
        assert(kids@.take(i + 1).drop_last() =~= kids@.take(i as int));
        assert(kids@.take(i + 1).last() == kids@[i as int]);
        let ghost before = out@;
        match in_member_exec(&kids[i], numeric) {
            Some(m) => {
                let ghost mm = (m.text@, m.family);
                out.push(m);
                assert(members_model(out@) =~= members_model(before).push(mm));
            },
            None => {},
        }
        assert(members_model(out@) =~= in_members(kids@.take(i + 1), numeric));
        i += 1;
    }
    assert(kids@.take(kids@.len() as int) =~= kids@);
    out
}

fn in_array_exec(v: &SyntaxNode, left: Option<&McCondOperand>) -> (r: Option<McCondition>)
    ensures
        opt_cond(r) == in_array(
            *v,
            match left {
                Some(l) => Some(operand_model(*l)),
                None => None,
            },
        ),
{
    match left {
        Some(l) => {
            if v.children.len() == 0 {
                return None;
            }
            let values = in_members_exec(&v.children, false);
            if values.len() > 0 {
                let r = McCondition::In { left: operand_copy(l), values };
                assert(cond_model(r) == CondModel::In(operand_model(*l), members_model(values@)));
                Some(r)
            } else {
                None
            }
        },
        None => None,
    }
}

fn judge_of(kind: JudgeKind, left: McCondOperand, right: McCondOperand) -> (r: McCondition)
    ensures
        cond_model(r) == CondModel::Judge(kind, operand_model(left), operand_model(right)),
{
    match kind {
        JudgeKind::Eq => McCondition::Eq { left, right },
        JudgeKind::NotEq => McCondition::NotEq { left, right },
        JudgeKind::Lt => McCondition::Lt { left, right },
        JudgeKind::Gt => McCondition::Gt { left, right },
        JudgeKind::LtEq => McCondition::LtEq { left, right },
        JudgeKind::GtEq => McCondition::GtEq { left, right },
        JudgeKind::BitAnd => McCondition::BitAnd { left, right },
        JudgeKind::BitOr => McCondition::BitOr { left, right },
    }
}

fn judge_kind_exec(k: NodeKind) -> (r: Option<JudgeKind>)
    ensures
        r == judge_kind(k),
{
    match k {
        NodeKind::JudgeEq => Some(JudgeKind::Eq),
        NodeKind::JudgeNotEq => Some(JudgeKind::NotEq),
        NodeKind::JudgeLt => Some(JudgeKind::Lt),
        NodeKind::JudgeGt => Some(JudgeKind::Gt),
        NodeKind::JudgeLtEq => Some(JudgeKind::LtEq),
        NodeKind::JudgeGtEq => Some(JudgeKind::GtEq),
        NodeKind::JudgeBitAnd => Some(JudgeKind::BitAnd),
        NodeKind::JudgeBitOr => Some(JudgeKind::BitOr),
        _ => None,
    }
}

fn in_condition_exec(n: &SyntaxNode) -> (r: Option<McCondition>)
    ensures
        opt_cond(r) == in_condition(*n),
{
    if n.children.len() == 0 {
        return None;
    }
    let first = &n.children[0];
    let idn = if first.kind == NodeKind::Opd {
        if first.children.len() > 0 {
            &first.children[0]
        } else {
            return None;
        }
    } else {
        first
    };
    if !(idn.kind == NodeKind::Id || idn.kind == NodeKind::Ida || idn.kind == NodeKind::Ids) {
        return None;
    }
    let left = match ids_alone(idn) {
        Some(i) => i,
        None => {
            return None;
        },
    };
    if n.children.len() < 2 {
        return None;
    }
    let right = &n.children[1];
    let values = if right.kind == NodeKind::OpdSquareVec {
        in_members_exec(&right.children, true)
    } else {
        Vec::new()
    };
    let r = McCondition::In { left: McCondOperand::Ident(left), values };
    assert(members_model(values@) =~= (if right.kind == NodeKind::OpdSquareVec {
        in_members(right.children@, true)
    } else {
        Seq::empty()
    }));
    Some(r)
}

/// The condition a judge node writes (see [`condition_of`]): a comparison
/// of its first two operand sides, an `in` judge, or `&&`/`||` of two
/// conditions; `None` for a node that writes none.
pub fn condition_from_node(n: &SyntaxNode) -> (r: Option<McCondition>)
    ensures
        opt_cond(r) == condition_of(*n),
    decreases n,
{
    if n.kind == NodeKind::JudgeAnd || n.kind == NodeKind::JudgeOr {
        if n.children.len() >= 2 {
            match (condition_from_node(&n.children[0]), condition_from_node(&n.children[1])) {
                (Some(l), Some(r)) => {
                    if n.kind == NodeKind::JudgeAnd {
                        Some(McCondition::And { left: Box::new(l), right: Box::new(r) })
                    } else {
                        Some(McCondition::Or { left: Box::new(l), right: Box::new(r) })
                    }
                },
                _ => None,
            }
        } else {
            None
        }
    } else if n.kind == NodeKind::JudgeIn {
        in_condition_exec(n)
    } else {
        let kind = match judge_kind_exec(n.kind) {
            Some(k) => k,
            None => {
                return None;
            },
        };
        let kids = &n.children;
        let mut ops: Vec<McCondOperand> = Vec::new();
        let mut i: usize = 0;
        assert(operand_models(ops@) =~= Seq::<OperandModel>::empty());
        while i < kids.len()
            invariant
                i <= kids@.len(),
                kids == n.children,
                judge_kind(n.kind) == Some(kind),
                n.kind != NodeKind::JudgeAnd && n.kind != NodeKind::JudgeOr && n.kind
                    != NodeKind::JudgeIn,
                read_sides(kids@, 0, Seq::empty()) == read_sides(
                    kids@,
                    i as int,
                    operand_models(ops@),
                ),
            decreases kids@.len() - i,
        {
            if kids[i].kind == NodeKind::OpdSquareVec {
                let first = if ops.len() > 0 {
                    Some(&ops[0])
                } else {
                    None
                };
                proof {
                    if ops@.len() > 0 {
                        assert(operand_models(ops@)[0] == operand_model(ops@[0]));
                    }
                }
                match in_array_exec(&kids[i], first) {
                    Some(c) => {
                        return Some(c);
                    },
                    None => {},
                }
            } else {
                let ghost before = ops@;
                match operand_exec(&kids[i]) {
                    Some(o) => {
                        let ghost om = operand_model(o);
                        ops.push(o);
                        assert(operand_models(ops@) =~= operand_models(before).push(om));
                    },
                    None => {},
                }
            }
            i += 1;
        }
        if ops.len() >= 2 {
            let ghost m = operand_models(ops@);
            assert(m[0] == operand_model(ops@[0]) && m[1] == operand_model(ops@[1]));
            let l = ops.remove(0);
            let r = ops.remove(0);
            Some(judge_of(kind, l, r))
        } else {
            None
        }
    }
}


// ---------------------------------------------------------------------------
// `if` / `else` chains
// ---------------------------------------------------------------------------

/// Whether a node kind is an attribute.
pub open spec fn attr_kind(k: NodeKind) -> bool {
    k == NodeKind::AttributePin || k == NodeKind::AttributePinAdd || k == NodeKind::Attribute
}

/// The index of the first attribute among `kids[i..]`, if any.
pub open spec fn first_attr(kids: Seq<SyntaxNode>, i: int) -> Option<int>
    decreases kids.len() - i,
{
    if i < 0 || i >= kids.len() {
        None
    } else if attr_kind(kids[i].kind) {
        Some(i)
    } else {
        first_attr(kids, i + 1)
    }
}

/// Whether some node of `kids` is an `error(...)` clause.
pub open spec fn has_error_clause(kids: Seq<SyntaxNode>) -> bool {
    exists|i: int| 0 <= i < kids.len() && (#[trigger] kids[i]).kind == NodeKind::ErrorClause
}

/// The block a braced body at child index `j` gives: its first attribute
/// when it holds one and no `error(...)` clause, else the body itself.
pub open spec fn body_block(b: SyntaxNode, j: int) -> Seq<usize> {
    match first_attr(b.children@, 0) {
        Some(a) => if !has_error_clause(b.children@) {
            seq![j as usize, a as usize]
        } else {
            seq![j as usize]
        },
        None => seq![j as usize],
    }
}

/// What the children `kids` of an `if` node give: the index of the last
/// judge, the block, and whether a judge was met.
pub open spec fn if_state(kids: Seq<SyntaxNode>) -> (Option<int>, Option<Seq<usize>>, bool)
    decreases kids.len(),
{
    if kids.len() == 0 {
        (None, None, false)
    } else {
        let (c, b, h) = if_state(kids.drop_last());
        let j = kids.len() - 1;
        let k = kids.last();
        if is_judge(k.kind) {
            (Some(j), b, true)
        } else if k.kind == NodeKind::CondBlock || k.kind == NodeKind::Net {
            (c, Some(seq![j as usize]), h)
        } else if k.kind == NodeKind::Body {
            (c, Some(body_block(k, j)), h)
        } else if h && b is None && (attr_kind(k.kind) || k.kind == NodeKind::ErrorClause) {
            (c, Some(seq![j as usize]), h)
        } else {
            (c, b, h)
        }
    }
}

/// The branch an `if` node writes: its condition and the path of its block
/// below the node; none without a readable condition or a block.
pub open spec fn cond_if(n: SyntaxNode) -> Option<(CondModel, Seq<usize>)> {
    let (c, b, h) = if_state(n.children@);
    match c {
        Some(ci) => match condition_of(n.children@[ci]) {
            Some(cond) => match b {
                Some(bp) => Some((cond, bp)),
                None => None,
            },
            None => None,
        },
        None => None,
    }
}

/// What the children `kids` of an `else` node give: the index of the last
/// judge, the last statement block, and the last body-like block.
pub open spec fn else_state(kids: Seq<SyntaxNode>) -> (Option<int>, Option<Seq<usize>>, Option<
    Seq<usize>,
>)
    decreases kids.len(),
{
    if kids.len() == 0 {
        (None, None, None)
    } else {
        let (c, bn, eb) = else_state(kids.drop_last());
        let j = kids.len() - 1;
        let k = kids.last();
        if is_judge(k.kind) {
            (Some(j), bn, eb)
        } else if k.kind == NodeKind::CondBlock || k.kind == NodeKind::Net {
            (c, Some(seq![j as usize]), eb)
        } else if k.kind == NodeKind::Body {
            (c, bn, Some(body_block(k, j)))
        } else if attr_kind(k.kind) || k.kind == NodeKind::ErrorClause {
            (c, bn, Some(seq![j as usize]))
        } else {
            (c, bn, eb)
        }
    }
}

/// The branch an `else` node writes: an `else if` with its condition, or a
/// plain `else`, with the path of its block; none when its condition does
/// not read or it has no block.
pub open spec fn cond_else(n: SyntaxNode) -> Option<(Option<CondModel>, Seq<usize>)> {
    let (c, bn, eb) = else_state(n.children@);
    match c {
        Some(ci) => match condition_of(n.children@[ci]) {
            Some(cond) => Some(
                (
                    Some(cond),
                    match eb {
                        Some(x) => x,
                        None => match bn {
                            Some(x) => x,
                            None => seq![ci as usize],
                        },
                    },
                ),
            ),
            None => None,
        },
        None => match bn {
            Some(x) => Some((None, x)),
            None => match eb {
                Some(x) => Some((None, x)),
                None => None,
            },
        },
    }
}

/// A chain under construction: its conditional branches with their block
/// paths, and the `else` block's path.
pub type ChainModel = (Seq<(CondModel, Seq<usize>)>, Option<Seq<usize>>);

/// The chain after an `if` branch read at path `q`.
pub open spec fn with_if(st: ChainModel, r: Option<(CondModel, Seq<usize>)>, q: Seq<usize>) -> ChainModel {
    match r {
        Some((c, b)) => (st.0.push((c, q + b)), st.1),
        None => st,
    }
}

/// The chain after an `else` branch read at path `q`.
pub open spec fn with_else(
    st: ChainModel,
    r: Option<(Option<CondModel>, Seq<usize>)>,
    q: Seq<usize>,
) -> ChainModel {
    match r {
        Some((Some(c), b)) => (st.0.push((c, q + b)), st.1),
        Some((None, b)) => (st.0, Some(q + b)),
        None => st,
    }
}

/// The chain after the branches nested under node `n` at path `p`.
pub open spec fn nested(n: SyntaxNode, p: Seq<usize>, st: ChainModel) -> ChainModel
    decreases n, 0int, 0int,
{
    nested_list(n.children@, 0, p, st)
}

/// The chain after the branches among `kids[j..]` (children of the node at
/// path `p`) and those nested under them, in order.
pub open spec fn nested_list(kids: Seq<SyntaxNode>, j: int, p: Seq<usize>, st: ChainModel) -> ChainModel
    decreases kids, 1int, kids.len() - j,
{
    if j < 0 || j >= kids.len() {
        st
    } else {
        let c = kids[j];
        let q = p.push(j as usize);
        let st1 = if c.kind == NodeKind::CondIf {
            nested(c, q, with_if(st, cond_if(c), q))
        } else if c.kind == NodeKind::CondElse {
            nested(c, q, with_else(st, cond_else(c), q))
        } else {
            st
        };
        nested_list(kids, j + 1, p, st1)
    }
}

/// The chain an `if` or `else` node starts, with every branch nested under
/// it, in order; none for another node.
pub open spec fn chain_of(n: SyntaxNode) -> Option<ChainModel> {
    let empty: ChainModel = (Seq::empty(), None);
    if n.kind == NodeKind::CondIf {
        Some(nested(n, Seq::empty(), with_if(empty, cond_if(n), Seq::empty())))
    } else if n.kind == NodeKind::CondElse {
        Some(nested(n, Seq::empty(), with_else(empty, cond_else(n), Seq::empty())))
    } else {
        None
    }
}

/// One conditional branch: its condition and the path of its block.
#[derive(Debug)]
pub struct McCond {
    pub condition: McCondition,
    pub block: Vec<usize>,
}

/// An `if`/`else` chain: the conditional branches in order, and the path of
/// the `else` block.
#[derive(Debug)]
pub struct McConds {
    pub if_blocks: Vec<McCond>,
    pub else_block: Option<Vec<usize>>,
}

/// Model of a chain.
pub open spec fn chain_view(c: McConds) -> ChainModel {
    (
        c.if_blocks@.map_values(|b: McCond| (cond_model(b.condition), b.block@)),
        match c.else_block {
            Some(v) => Some(v@),
            None => None,
        },
    )
}

fn first_attr_exec(kids: &Vec<SyntaxNode>) -> (r: Option<usize>)
    ensures
        match r {
            Some(a) => first_attr(kids@, 0) == Some(a as int),
            None => first_attr(kids@, 0) is None,
        },
{
    let mut i: usize = 0;
    while i < kids.len()
        invariant
            i <= kids@.len(),
            first_attr(kids@, 0) == first_attr(kids@, i as int),
        decreases kids@.len() - i,
    {
        let k = kids[i].kind;
        if k == NodeKind::AttributePin || k == NodeKind::AttributePinAdd || k
            == NodeKind::Attribute {
            return Some(i);
        }
        i += 1;
    }
    None
}

fn has_error_exec(kids: &Vec<SyntaxNode>) -> (r: bool)
    ensures
        r == has_error_clause(kids@),
{
    let mut i: usize = 0;
    while i < kids.len()
        invariant
            i <= kids@.len(),
            forall|q: int| 0 <= q < i ==> (#[trigger] kids@[q]).kind != NodeKind::ErrorClause,
        decreases kids@.len() - i,
    {
        if kids[i].kind == NodeKind::ErrorClause {
            assert(kids@[i as int].kind == NodeKind::ErrorClause);
            return true;
        }
        i += 1;
    }
    false
}

fn body_block_exec(b: &SyntaxNode, j: usize) -> (r: Vec<usize>)
    ensures
        r@ == body_block(*b, j as int),
{
    let mut out: Vec<usize> = Vec::new();
    out.push(j);
    match first_attr_exec(&b.children) {
        Some(a) => {
            if !has_error_exec(&b.children) {
                out.push(a);
            }
        },
        None => {},
    }
    assert(out@ =~= body_block(*b, j as int));
    out
}

fn one_path(j: usize) -> (r: Vec<usize>)
    ensures
        r@ == seq![j],
{
    let mut out: Vec<usize> = Vec::new();
    out.push(j);
    assert(out@ =~= seq![j]);
    out
}

/// The model of an optional path.
pub open spec fn opt_path(o: Option<Vec<usize>>) -> Option<Seq<usize>> {
    match o {
        Some(v) => Some(v@),
        None => None,
    }
}

fn cond_if_exec(n: &SyntaxNode) -> (r: Option<(McCondition, Vec<usize>)>)
    ensures
        match r {
            Some((c, b)) => cond_if(*n) == Some((cond_model(c), b@)),
            None => cond_if(*n) is None,
        },
{
    let kids = &n.children;
    let mut c: Option<usize> = None;
    let mut b: Option<Vec<usize>> = None;
    let mut h = false;
    let mut i: usize = 0;
    while i < kids.len()
        invariant
            i <= kids@.len(),
            kids == n.children,
            (
                match c {
                    Some(x) => Some(x as int),
                    None => None,
                },
                opt_path(b),
                h,
            ) == if_state(kids@.take(i as int)),
            c matches Some(x) ==> x < i,
        decreases kids@.len() - i,
    {
        assert(kids@.take(i + 1).drop_last() =~= kids@.take(i as int));
        assert(kids@.take(i + 1).last() == kids@[i as int]);
        let k = &kids[i];
        let judge = judge_kind_exec(k.kind).is_some() || k.kind == NodeKind::JudgeIn || k.kind
            == NodeKind::JudgeAnd || k.kind == NodeKind::JudgeOr;
        if judge {
            c = Some(i);
            h = true;
        } else if k.kind == NodeKind::CondBlock || k.kind == NodeKind::Net {
            b = Some(one_path(i));
        } else if k.kind == NodeKind::Body {
            b = Some(body_block_exec(k, i));
        } else if h && b.is_none() && (k.kind == NodeKind::AttributePin || k.kind
            == NodeKind::AttributePinAdd || k.kind == NodeKind::Attribute || k.kind
            == NodeKind::ErrorClause) {
            b = Some(one_path(i));
        }
        i += 1;
    }
    assert(kids@.take(kids@.len() as int) =~= kids@);
    match c {
        Some(ci) => match condition_from_node(&kids[ci]) {
            Some(cond) => match b {
                Some(bp) => Some((cond, bp)),
                None => None,
            },
            None => None,
        },
        None => None,
    }
}

fn cond_else_exec(n: &SyntaxNode) -> (r: Option<(Option<McCondition>, Vec<usize>)>)
    ensures
        match r {
            Some((c, b)) => cond_else(*n) == Some((opt_cond(c), b@)),
            None => cond_else(*n) is None,
        },
{
    let kids = &n.children;
    let mut c: Option<usize> = None;
    let mut bn: Option<Vec<usize>> = None;
    let mut eb: Option<Vec<usize>> = None;
    let mut i: usize = 0;
    while i < kids.len()
        invariant
            i <= kids@.len(),
            kids == n.children,
            (
                match c {
                    Some(x) => Some(x as int),
                    None => None,
                },
                opt_path(bn),
                opt_path(eb),
            ) == else_state(kids@.take(i as int)),
            c matches Some(x) ==> x < i,
        decreases kids@.len() - i,
    {
        assert(kids@.take(i + 1).drop_last() =~= kids@.take(i as int));
        assert(kids@.take(i + 1).last() == kids@[i as int]);
        let k = &kids[i];
        let judge = judge_kind_exec(k.kind).is_some() || k.kind == NodeKind::JudgeIn || k.kind
            == NodeKind::JudgeAnd || k.kind == NodeKind::JudgeOr;
        if judge {
            c = Some(i);
        } else if k.kind == NodeKind::CondBlock || k.kind == NodeKind::Net {
            bn = Some(one_path(i));
        } else if k.kind == NodeKind::Body {
            eb = Some(body_block_exec(k, i));
        } else if k.kind == NodeKind::AttributePin || k.kind == NodeKind::AttributePinAdd
            || k.kind == NodeKind::Attribute || k.kind == NodeKind::ErrorClause {
            eb = Some(one_path(i));
        }
        i += 1;
    }
    assert(kids@.take(kids@.len() as int) =~= kids@);
    match c {
        Some(ci) => match condition_from_node(&kids[ci]) {
            Some(cond) => {
                let block = match eb {
                    Some(x) => x,
                    None => match bn {
                        Some(x) => x,
                        None => one_path(ci),
                    },
                };
                Some((Some(cond), block))
            },
            None => None,
        },
        None => match bn {
            Some(x) => Some((None, x)),
            None => match eb {
                Some(x) => Some((None, x)),
                None => None,
            },
        },
    }
}

fn path_then(p: &Vec<usize>, tail: &Vec<usize>) -> (r: Vec<usize>)
    ensures
        r@ == p@ + tail@,
{
    let mut out: Vec<usize> = Vec::new();
    let mut i: usize = 0;
    while i < p.len()
        invariant
            i <= p@.len(),
            out@ == p@.take(i as int),
        decreases p@.len() - i,
    {
        out.push(p[i]);
        assert(out@ =~= p@.take(i + 1));
        i += 1;
    }
    let mut k: usize = 0;
    while k < tail.len()
        invariant
            k <= tail@.len(),
            out@ == p@ + tail@.take(k as int),
        decreases tail@.len() - k,
    {
        out.push(tail[k]);
        assert(out@ =~= p@ + tail@.take(k + 1));
        k += 1;
    }
    assert(p@.take(p@.len() as int) =~= p@);
    assert(tail@.take(tail@.len() as int) =~= tail@);
    out
}

fn add_if(st: &mut McConds, r: Option<(McCondition, Vec<usize>)>, q: &Vec<usize>)
    ensures
        chain_view(*final(st)) == with_if(
            chain_view(*old(st)),
            match r {
                Some((c, b)) => Some((cond_model(c), b@)),
                None => None,
            },
            q@,
        ),
{
    match r {
        Some((c, b)) => {
            let block = path_then(q, &b);
            let ghost cm = cond_model(c);
            let ghost before = st.if_blocks@;
            st.if_blocks.push(McCond { condition: c, block });
            assert(st.if_blocks@.map_values(|x: McCond| (cond_model(x.condition), x.block@))
                =~= before.map_values(|x: McCond| (cond_model(x.condition), x.block@)).push(
                (cm, q@ + b@),
            ));
        },
        None => {},
    }
}

fn add_else(st: &mut McConds, r: Option<(Option<McCondition>, Vec<usize>)>, q: &Vec<usize>)
    ensures
        chain_view(*final(st)) == with_else(
            chain_view(*old(st)),
            match r {
                Some((c, b)) => Some((opt_cond(c), b@)),
                None => None,
            },
            q@,
        ),
{
    match r {
        Some((Some(c), b)) => {
            add_if(st, Some((c, b)), q);
        },
        Some((None, b)) => {
            st.else_block = Some(path_then(q, &b));
        },
        None => {},
    }
}

fn nested_exec(n: &SyntaxNode, p: &Vec<usize>, st: &mut McConds)
    ensures
        chain_view(*final(st)) == nested(*n, p@, chain_view(*old(st))),
    decreases n,
{
    let kids = &n.children;
    let ghost st0 = chain_view(*st);
    let mut j: usize = 0;
    while j < kids.len()
        invariant
            j <= kids@.len(),
            kids == n.children,
            nested_list(kids@, 0, p@, st0) == nested_list(kids@, j as int, p@, chain_view(*st)),
        decreases kids@.len() - j,
    {
        let c = &kids[j];
        let q = path_then(p, &one_path(j));
        assert(q@ =~= p@.push(j));
        if c.kind == NodeKind::CondIf {
            let r = cond_if_exec(c);
            add_if(st, r, &q);
            nested_exec(c, &q, st);
        } else if c.kind == NodeKind::CondElse {
            let r = cond_else_exec(c);
            add_else(st, r, &q);
            nested_exec(c, &q, st);
        }
        j += 1;
    }
}

impl McConds {
    /// The chain an `if` or `else` node starts (see [`chain_of`]): its own
    /// branch, then every `if` and `else` branch nested under it, in order,
    /// each block named by its path below the node; `None` for another
    /// node.
    pub fn from_node(n: &SyntaxNode) -> (r: Option<McConds>)
        ensures
            match r {
                Some(c) => chain_of(*n) == Some(chain_view(c)),
                None => chain_of(*n) is None,
            },
    {
        let mut st = McConds { if_blocks: Vec::new(), else_block: None };
        let root: Vec<usize> = Vec::new();
        assert(chain_view(st).0 =~= Seq::<(CondModel, Seq<usize>)>::empty());
        if n.kind == NodeKind::CondIf {
            let r = cond_if_exec(n);
            add_if(&mut st, r, &root);
        } else if n.kind == NodeKind::CondElse {
            let r = cond_else_exec(n);
            add_else(&mut st, r, &root);
        } else {
            return None;
        }
        nested_exec(n, &root, &mut st);
        Some(st)
    }
}


// ---------------------------------------------------------------------------
// Choosing a branch
// ---------------------------------------------------------------------------

/// The branch a chain takes.
#[derive(Debug, Clone, Copy, PartialEq, Eq, Structural)]
pub enum BranchChoice {
    /// The conditional branch at this index.
    Branch(usize),
    /// The `else` block.
    Else,
    /// No branch.
    NoBranch,
}

/// The index of the first outcome from `i` on that holds, or the count.
pub open spec fn first_holding(o: Seq<OutcomeModel>, i: int) -> int
    decreases o.len() - i,
{
    if i < 0 || i >= o.len() {
        o.len() as int
    } else if o[i] matches OutcomeModel::Holds(true) {
        i
    } else {
        first_holding(o, i + 1)
    }
}

/// The index of the first outcome from `i` on that failed (a family
/// mismatch or an engine failure), or the count.
pub open spec fn first_failure(o: Seq<OutcomeModel>, i: int) -> int
    decreases o.len() - i,
{
    if i < 0 || i >= o.len() {
        o.len() as int
    } else if o[i] is Holds {
        first_failure(o, i + 1)
    } else {
        i
    }
}

/// The branch a chain takes from its branches' outcomes, in order, and the
/// failure to report: the first branch that holds wins, and then nothing is
/// reported; otherwise the `else` block, if any, is taken, and the first
/// failure met, if any, is reported once.
pub open spec fn select_spec(o: Seq<OutcomeModel>, has_else: bool) -> (BranchChoice, Option<usize>) {
    let h = first_holding(o, 0);
    if h < o.len() {
        (BranchChoice::Branch(h as usize), None)
    } else {
        (
            if has_else {
                BranchChoice::Else
            } else {
                BranchChoice::NoBranch
            },
            if first_failure(o, 0) < o.len() {
                Some(first_failure(o, 0) as usize)
            } else {
                None
            },
        )
    }
}

/// The branch a chain takes and the failure to report (see [`select_spec`]).
pub fn select_branch(outcomes: &Vec<JudgeOutcome>, has_else: bool) -> (r: (BranchChoice, Option<usize>))
    ensures
        r == select_spec(outcomes@.map_values(|x: JudgeOutcome| x@), has_else),
{
    let ghost o = outcomes@.map_values(|x: JudgeOutcome| x@);
    let mut failure: Option<usize> = None;
    let mut i: usize = 0;
    while i < outcomes.len()
        invariant
            i <= outcomes@.len(),
            o == outcomes@.map_values(|x: JudgeOutcome| x@),
            first_holding(o, 0) == first_holding(o, i as int),
            failure is None ==> first_failure(o, 0) == first_failure(o, i as int),
            failure matches Some(f) ==> f < i && first_failure(o, 0) == f,
        decreases outcomes@.len() - i,
    {
        assert(o[i as int] == outcomes@[i as int]@);
        match &outcomes[i] {
            JudgeOutcome::Holds(true) => {
                return (BranchChoice::Branch(i), None);
            },
            JudgeOutcome::Holds(false) => {},
            _ => {
                if failure.is_none() {
                    failure = Some(i);
                }
            },
        }
        i += 1;
    }
    (
        if has_else {
            BranchChoice::Else
        } else {
            BranchChoice::NoBranch
        },
        failure,
    )
}

fn copy_path(v: &Vec<usize>) -> (r: Vec<usize>)
    ensures
        r@ == v@,
{
    let mut out: Vec<usize> = Vec::new();
    let mut i: usize = 0;
    while i < v.len()
        invariant
            i <= v@.len(),
            out@ == v@.take(i as int),
        decreases v@.len() - i,
    {
        out.push(v[i]);
        assert(out@ =~= v@.take(i + 1));
        i += 1;
    }
    assert(v@.take(v@.len() as int) =~= v@);
    out
}

proof fn lemma_first_holding_meaning(o: Seq<OutcomeModel>, i: int)
    requires
        0 <= i <= o.len(),
    ensures
        i <= first_holding(o, i) <= o.len(),
        first_holding(o, i) < o.len() ==> o[first_holding(o, i)] == OutcomeModel::Holds(true),
        forall|k: int| i <= k < first_holding(o, i) ==> #[trigger] o[k] != OutcomeModel::Holds(true),
    decreases o.len() - i,
{
    if i < o.len() {
        lemma_first_holding_meaning(o, i + 1);
    }
}

proof fn lemma_first_failure_meaning(o: Seq<OutcomeModel>, i: int)
    requires
        0 <= i <= o.len(),
    ensures
        i <= first_failure(o, i) <= o.len(),
        first_failure(o, i) < o.len() ==> !(o[first_failure(o, i)] is Holds),
        forall|k: int| i <= k < first_failure(o, i) ==> (#[trigger] o[k] is Holds),
    decreases o.len() - i,
{
    if i < o.len() {
        lemma_first_failure_meaning(o, i + 1);
    }
}

/// A chain takes the first branch whose condition holds, and only when no
/// condition holds does it fall to the `else` block (or to none); a failure
/// is reported only when no condition holds, and then it is the first
/// outcome that neither held nor failed to hold; none is reported when
/// every outcome is a plain verdict.
pub proof fn branch_choice_law(o: Seq<OutcomeModel>, has_else: bool)
    requires
        o.len() <= usize::MAX,
    ensures
        ({
            let (choice, failure) = select_spec(o, has_else);
            &&& (choice matches BranchChoice::Branch(h) ==> h < o.len() && o[h as int]
                == OutcomeModel::Holds(true) && forall|k: int|
                0 <= k < h ==> #[trigger] o[k] != OutcomeModel::Holds(true))
            &&& (!(choice is Branch) ==> forall|k: int|
                0 <= k < o.len() ==> #[trigger] o[k] != OutcomeModel::Holds(true))
            &&& (!(choice is Branch) ==> (choice is Else <==> has_else))
            &&& (choice is Branch ==> failure is None)
            &&& (failure matches Some(f) ==> f < o.len() && !(o[f as int] is Holds) && forall|
                k: int|
                0 <= k < f ==> (#[trigger] o[k] is Holds))
            &&& (!(choice is Branch) && failure is None ==> forall|k: int|
                0 <= k < o.len() ==> (#[trigger] o[k] is Holds))
        }),
{
    lemma_first_holding_meaning(o, 0);
    lemma_first_failure_meaning(o, 0);
}

/// The block a chain's choice names.
pub open spec fn chosen_block(c: McConds, choice: BranchChoice) -> Option<Seq<usize>> {
    match choice {
        BranchChoice::Branch(h) => Some(c.if_blocks@[h as int].block@),
        BranchChoice::Else => match c.else_block {
            Some(v) => Some(v@),
            None => None,
        },
        BranchChoice::NoBranch => None,
    }
}

proof fn lemma_first_holding_range(o: Seq<OutcomeModel>, i: int)
    requires
        0 <= i <= o.len(),
    ensures
        i <= first_holding(o, i) <= o.len(),
    decreases o.len() - i,
{
    if i < o.len() {
        lemma_first_holding_range(o, i + 1);
    }
}

impl McConds {
    /// The block the chain runs, from the outcomes of its conditions in
    /// order, and the index of the failure to report: the first branch
    /// whose condition holds, else the `else` block, else none; a failure
    /// is reported only when no branch holds, and then only the first.
    pub fn evaluate(&self, outcomes: &Vec<JudgeOutcome>) -> (r: (Option<Vec<usize>>, Option<usize>))
        requires
            outcomes@.len() == self.if_blocks@.len(),
        ensures
            ({
                let (choice, failure) = select_spec(
                    outcomes@.map_values(|x: JudgeOutcome| x@),
                    self.else_block is Some,
                );
                &&& r.1 == failure
                &&& (match r.0 {
                    Some(b) => Some(b@),
                    None => None,
                }) == chosen_block(*self, choice)
            }),
    {
        let (choice, failure) = select_branch(outcomes, self.else_block.is_some());
        proof {
            lemma_first_holding_range(outcomes@.map_values(|x: JudgeOutcome| x@), 0);
        }
        let block = match choice {
            BranchChoice::Branch(h) => Some(copy_path(&self.if_blocks[h].block)),
            BranchChoice::Else => match &self.else_block {
                Some(v) => Some(copy_path(v)),
                None => None,
            },
            BranchChoice::NoBranch => None,
        };
        (block, failure)
    }
}

// ---------------------------------------------------------------------------
// Resolving operands
// ---------------------------------------------------------------------------

/// Model of the bound parameters: name text, value text, family.
pub open spec fn params_model(v: Seq<CondParam>) -> Seq<(Seq<char>, Seq<char>, CondFamily)> {
    v.map_values(|p: CondParam| (ids_text(p.name@), p.text@, p.family))
}

/// Model of a definition's named values.
pub open spec fn def_model(v: Seq<(String, String)>) -> Seq<(Seq<char>, Seq<char>)> {
    v.map_values(|e: (String, String)| (e.0@, e.1@))
}

/// The value of the first parameter named `name`, with its family.
pub open spec fn param_value(ps: Seq<(Seq<char>, Seq<char>, CondFamily)>, name: Seq<char>, i: int) -> Option<
    (Seq<char>, CondFamily),
>
    decreases ps.len() - i,
{
    if i < 0 || i >= ps.len() {
        None
    } else if ps[i].0 == name {
        Some((ps[i].1, ps[i].2))
    } else {
        param_value(ps, name, i + 1)
    }
}

/// The value the first entry named `name` of a definition declares.
pub open spec fn def_value(d: Seq<(Seq<char>, Seq<char>)>, name: Seq<char>, i: int) -> Option<Seq<char>>
    decreases d.len() - i,
{
    if i < 0 || i >= d.len() {
        None
    } else if d[i].0 == name {
        Some(d[i].1)
    } else {
        def_value(d, name, i + 1)
    }
}

/// The text and family an operand stands for: an identifier is the value
/// of the parameter it names, else the value the enclosing definition
/// declares under it, else its own text as a bare word; a number is
/// numeric, a quoted string quoted, a keyword bare. An arithmetic operand
/// has no text face (the value engine folds it).
pub open spec fn resolve_spec(
    op: OperandModel,
    ps: Seq<(Seq<char>, Seq<char>, CondFamily)>,
    def: Option<Seq<(Seq<char>, Seq<char>)>>,
) -> Option<(Seq<char>, CondFamily)> {
    match op {
        OperandModel::Ident(i) => match param_value(ps, ids_text(i), 0) {
            Some(v) => Some(v),
            None => match def {
                Some(d) => match def_value(d, ids_text(i), 0) {
                    Some(t) => Some((t, CondFamily::Def)),
                    None => Some((ids_text(i), CondFamily::Bare)),
                },
                None => Some((ids_text(i), CondFamily::Bare)),
            },
        },
        OperandModel::Literal(t) => Some((t, CondFamily::Numeric)),
        OperandModel::StrLit(t) => Some((t, CondFamily::Quoted)),
        OperandModel::Word(t) => Some((t, CondFamily::Bare)),
        OperandModel::Expr(..) => None,
    }
}

/// The text and family an operand stands for (see [`resolve_spec`]);
/// `def` holds the names the enclosing definition declares, with their
/// value texts, where there is one.
pub fn resolve_operand(
    op: &McCondOperand,
    params: &Vec<CondParam>,
    def: Option<&Vec<(String, String)>>,
) -> (r: Option<(String, CondFamily)>)
    ensures
        match r {
            Some((t, f)) => resolve_spec(
                operand_model(*op),
                params_model(params@),
                match def {
                    Some(d) => Some(def_model(d@)),
                    None => None,
                },
            ) == Some((t@, f)),
            None => resolve_spec(
                operand_model(*op),
                params_model(params@),
                match def {
                    Some(d) => Some(def_model(d@)),
                    None => None,
                },
            ) is None,
        },
{
    match op {
        McCondOperand::Ident(ids) => {
            let name = ids.to_string();
            let ghost ps = params_model(params@);
            let mut i: usize = 0;
            while i < params.len()
                invariant
                    i <= params@.len(),
                    ps == params_model(params@),
                    name@ == ids_text(ids@),
                    operand_model(*op) == OperandModel::Ident(ids@),
                    param_value(ps, name@, 0) == param_value(ps, name@, i as int),
                decreases params@.len() - i,
            {
                let pn = params[i].name.to_string();
                assert(ps[i as int] == (ids_text(params@[i as int].name@), params@[i as int].text@, params@[i as int].family));
                if str_eq(pn.as_str(), name.as_str()) {
                    return Some((copy_string(&params[i].text), params[i].family));
                }
                i += 1;
            }
            match def {
                Some(d) => {
                    let ghost dm = def_model(d@);
                    let mut k: usize = 0;
                    while k < d.len()
                        invariant
                            k <= d@.len(),
                            dm == def_model(d@),
                            def == Some(d),
                            name@ == ids_text(ids@),
                            operand_model(*op) == OperandModel::Ident(ids@),
                            param_value(params_model(params@), name@, 0) is None,
                            def_value(dm, name@, 0) == def_value(dm, name@, k as int),
                        decreases d@.len() - k,
                    {
                        assert(dm[k as int] == (d@[k as int].0@, d@[k as int].1@));
                        if str_eq(d[k].0.as_str(), name.as_str()) {
                            return Some((copy_string(&d[k].1), CondFamily::Def));
                        }
                        k += 1;
                    }
                    Some((name, CondFamily::Bare))
                },
                None => Some((name, CondFamily::Bare)),
            }
        },
        McCondOperand::Literal(t) => Some((copy_string(t), CondFamily::Numeric)),
        McCondOperand::StrLit(t) => Some((copy_string(t), CondFamily::Quoted)),
        McCondOperand::Word(t) => Some((copy_string(t), CondFamily::Bare)),
        McCondOperand::Expr { .. } => None,
    }
}

} // verus!
