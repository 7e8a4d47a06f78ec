//! The parser's syntax tree as plain data: a node has a kind, the text the
//! parser attached to it, its place in the source, and its sub-nodes in
//! order. The siblings that follow a node are found through its parent.
use vstd::prelude::*;
use crate::mc_ida::{parse_ida, IdaSegModel, McIda};
use crate::mc_literal::McInt;
use crate::text::{chars_of, is_white, parse_i64, parse_i64_chars, unicode_white};

verus! {

/// The grammar symbol a node stands for.
#[derive(Debug, Clone, Copy, PartialEq, Eq, Structural)]
pub enum NodeKind {
    /// A plain identifier.
    Id,
    /// An identifier with square groups (`D[0:7]`).
    Ida,
    /// An integer literal.
    Int,
    /// An integer literal followed by a unit (`5 V`).
    UnitInt,
    /// A dotted or indexed identifier list.
    Ids,
    /// A parameter wrapper.
    Param,
    /// An operand wrapper.
    Opd,
    /// The `this` keyword operand.
    OpdThis,
    /// The `pins` keyword operand.
    OpdPins,
    /// A `.member` or `.int` suffix.
    OpdDot,
    /// A `{...}` member group.
    OpdCurly,
    /// An `a:b` range.
    OpdColon,
    /// A `[...]` member vector written as an operand.
    OpdSquareVec,
    /// A bare `[...]` member vector.
    SquareVec,
    /// An expression.
    Expression,
    /// The `_` operand.
    OpdUscore,
    /// An instance written in operand position.
    Instance,
    /// The `role` formal.
    Role,
    /// A typed declaration (`name::CLASS(...)`).
    Declare,
    /// A unit-value declaration (`volt::UV.VOLT = 5V`).
    DeclareUv,
    /// A string literal; its text is the content between the quotes.
    Str,
    /// The name of a called function or class.
    Name,
    /// A hexadecimal literal.
    Hex,
    /// A decimal fraction literal.
    Float,
    /// A value with a unit (`5V`).
    UnitValue,
    /// A keyword constant (`HIGH`).
    Const,
    /// The `NC` operand: not connected.
    OpdNc,
    /// A unit value at another (`1Mbps@0.5m`).
    UnitValueAt,
    /// A plus-minus range (`5V±5%`).
    RangePlusMinus,
    /// A tilde range (`2.5V~5.5V`).
    OpdTilde,
    /// `a + b`.
    OpdPlus,
    /// `a - b`.
    OpdMinus,
    /// `a * b`.
    OpdMulti,
    /// `a / b`.
    OpdDivid,
    /// `a == b`.
    JudgeEq,
    /// `a != b`.
    JudgeNotEq,
    /// `a < b`.
    JudgeLt,
    /// `a > b`.
    JudgeGt,
    /// `a <= b`.
    JudgeLtEq,
    /// `a >= b`.
    JudgeGtEq,
    /// `a & b`.
    JudgeBitAnd,
    /// `a | b`.
    JudgeBitOr,
    /// `a in [...]`.
    JudgeIn,
    /// `c && d`.
    JudgeAnd,
    /// `c || d`.
    JudgeOr,
    /// An `if` branch.
    CondIf,
    /// An `else` or `else if` branch.
    CondElse,
    /// A branch's statement block.
    CondBlock,
    /// A connection statement.
    Net,
    /// A braced body.
    Body,
    /// A pin attribute.
    AttributePin,
    /// An added pin attribute.
    AttributePinAdd,
    /// An attribute.
    Attribute,
    /// An `error(...)` clause.
    ErrorClause,
    /// A direction word (`in`, `psnk`) before parameters.
    IoType,
    /// Any other symbol.
    Other,
}

/// One node of the syntax tree.
#[derive(Debug)]
pub struct SyntaxNode {
    pub kind: NodeKind,
    pub text: String,
    pub pos: u32,
    pub len: u32,
    pub children: Vec<SyntaxNode>,
}

/// Length of the run of non-blank characters that opens `s`.
pub open spec fn word_len(s: Seq<char>) -> nat
    decreases s.len(),
{
    if s.len() > 0 && !unicode_white(s[0]) {
        1 + word_len(s.drop_first())
    } else {
        0
    }
}

/// Number of blank characters that open `s`.
pub open spec fn blank_len(s: Seq<char>) -> nat
    decreases s.len(),
{
    if s.len() > 0 && unicode_white(s[0]) {
        1 + blank_len(s.drop_first())
    } else {
        0
    }
}

/// The first blank-separated word of `s` (empty when `s` holds none).
pub open spec fn first_word(s: Seq<char>) -> Seq<char> {
    let t = s.skip(blank_len(s) as int);
    t.take(word_len(t) as int)
}

proof fn lemma_blank_len(s: Seq<char>, k: int)
    requires
        0 <= k <= s.len(),
        forall|j: int| 0 <= j < k ==> unicode_white(#[trigger] s[j]),
        k < s.len() ==> !unicode_white(s[k]),
    ensures
        blank_len(s) == k,
    decreases s.len(),
{
    if k > 0 {
        let t = s.drop_first();
        assert forall|j: int| 0 <= j < k - 1 implies unicode_white(#[trigger] t[j]) by {
            assert(t[j] == s[j + 1]);
        }
        if k - 1 < t.len() {
            assert(t[k - 1] == s[k]);
        }
        lemma_blank_len(t, k - 1);
    }
}

proof fn lemma_word_len(s: Seq<char>, k: int)
    requires
        0 <= k <= s.len(),
        forall|j: int| 0 <= j < k ==> !unicode_white(#[trigger] s[j]),
        k < s.len() ==> unicode_white(s[k]),
    ensures
        word_len(s) == k,
    decreases s.len(),
{
    if k > 0 {
        let t = s.drop_first();
        assert forall|j: int| 0 <= j < k - 1 implies !unicode_white(#[trigger] t[j]) by {
            assert(t[j] == s[j + 1]);
        }
        if k - 1 < t.len() {
            assert(t[k - 1] == s[k]);
        }
        lemma_word_len(t, k - 1);
    }
}

/// The first blank-separated word of a character list.
pub fn first_word_chars(s: &[char]) -> (r: Vec<char>)
    ensures
        r@ == first_word(s@),
{
    let n = s.len();
    let mut a: usize = 0;
    while a < n && is_white(s[a])
        invariant
            a <= n,
            n == s@.len(),
            forall|j: int| 0 <= j < a ==> unicode_white(#[trigger] s@[j]),
        decreases n - a,
    {
        a += 1;
    }
    proof {
        lemma_blank_len(s@, a as int);
    }
    let ghost t = s@.skip(a as int);
    let mut out: Vec<char> = Vec::new();
    let mut b: usize = a;
    while b < n && !is_white(s[b])
        invariant
            a <= b <= n,
            n == s@.len(),
            t == s@.skip(a as int),
            out@ == t.take(b - a),
            forall|j: int| 0 <= j < b - a ==> !unicode_white(#[trigger] t[j]),
        decreases n - b,
    {
        out.push(s[b]);
        assert(out@ =~= t.take(b + 1 - a));
        b += 1;
    }
    proof {
        if b < n {
            assert(t[b - a] == s@[b as int]);
        }
        lemma_word_len(t, (b - a) as int);
    }
    out
}

/// The integer a node denotes: the numeral of an integer node, the leading
/// numeral of an integer-with-unit node; none for any other node or for
/// text that is no `i64` numeral.
pub open spec fn node_int(n: SyntaxNode) -> Option<i64> {
    match n.kind {
        NodeKind::Int => parse_i64(n.text@),
        NodeKind::UnitInt => parse_i64(first_word(n.text@)),
        _ => None,
    }
}

/// The IDA segments a node's text parses to, when there are any.
pub open spec fn node_ida(n: SyntaxNode) -> Option<Seq<IdaSegModel>> {
    if parse_ida(n.text@).len() > 0 {
        Some(parse_ida(n.text@))
    } else {
        None
    }
}

impl McInt {
    /// The integer literal a node denotes.
    pub fn from_node(n: &SyntaxNode) -> (r: Option<McInt>)
        ensures
            r matches Some(x) ==> node_int(*n) == Some(x.value),
            r is None ==> node_int(*n) is None,
    {
        match n.kind {
            NodeKind::Int => {
                let c = chars_of(n.text.as_str());
                match parse_i64_chars(c.as_slice()) {
                    Some(v) => Some(McInt { value: v }),
                    None => None,
                }
            },
            NodeKind::UnitInt => {
                let c = chars_of(n.text.as_str());
                let w = first_word_chars(c.as_slice());
                match parse_i64_chars(w.as_slice()) {
                    Some(v) => Some(McInt { value: v }),
                    None => None,
                }
            },
            _ => None,
        }
    }
}

impl McIda {
    /// The IDA a node's text spells, unless it parses to no segment.
    pub fn from_node(n: &SyntaxNode) -> (r: Option<McIda>)
        ensures
            r matches Some(x) ==> node_ida(*n) == Some(x@),
            r is None ==> node_ida(*n) is None,
    {
        let a = McIda::from(n.text.as_str());
        if a.is_empty() {
            None
        } else {
            Some(a)
        }
    }
}

} // verus!
