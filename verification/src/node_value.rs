//! Call arguments read from syntax-tree nodes without a lookup context: the
//! placeholder `_`, `NC`, keyword constants, integer, hexadecimal, decimal
//! fraction and string literals, and identifiers.
use vstd::prelude::*;
use crate::mc_ids::{IdsSegModel, McIds};
use crate::mc_literal::{McConst, McHex, McInt, McString};
use crate::mc_param::{val_model, McParamValue, ValModel};
use crate::node_ids::node_ids;
use crate::numerals::{float_text, float_text_exec, parse_hex, parse_hex_chars};
use crate::strs::copy_string;
use crate::syntax::{node_int, NodeKind, SyntaxNode};
use crate::text::{chars_of, owned};

verus! {

/// An argument form whose value another reader gives.
#[derive(Debug, Clone, Copy, PartialEq, Eq)]
pub enum UnreadForm {
    /// An attribute block with attribute entries (`{ cap = 1uF }`).
    AttributeBlock,
    /// A unit value or a range of unit values (`3.3V`, `2.5V~5.5V`).
    UnitValue,
}

/// What reading an argument node gives.
#[derive(Debug)]
pub enum ArgRead {
    /// The argument's value.
    Value(McParamValue),
    /// The node holds no argument value; the argument is dropped.
    Dropped,
    /// A form whose value another reader gives.
    Unread(UnreadForm),
}

/// Model of what reading an argument node gives.
pub enum ArgModel {
    Value(ValModel),
    Dropped,
    Unread(UnreadForm),
}

/// The model of a read.
pub open spec fn arg_model(r: ArgRead) -> ArgModel {
    match r {
        ArgRead::Value(v) => ArgModel::Value(val_model(v)),
        ArgRead::Dropped => ArgModel::Dropped,
        ArgRead::Unread(f) => ArgModel::Unread(f),
    }
}

/// An identifier argument: kept when it has segments.
pub open spec fn ids_arg(o: Option<Seq<IdsSegModel>>) -> ArgModel {
    match o {
        Some(i) => if i.len() > 0 {
            ArgModel::Value(ValModel::Ids(i))
        } else {
            ArgModel::Dropped
        },
        None => ArgModel::Dropped,
    }
}

/// Whether one of the nodes is an attribute.
pub open spec fn has_attribute(kids: Seq<SyntaxNode>) -> bool {
    exists|k: int| 0 <= k < kids.len() && (#[trigger] kids[k]).kind == NodeKind::Attribute
}

/// The argument a node gives: a parameter wrapper gives what its first
/// child gives; `_` and `NC` give themselves; an attribute block with no
/// attribute gives an empty block, and one with attributes is read
/// elsewhere; a keyword constant, an `i64` numeral, a hexadecimal literal
/// in the `i64` range, a decimal fraction `f64` accepts, and a string give
/// their values; unit values and ranges are read elsewhere; a unit-value
/// declaration gives the name of its instance; any other node gives the
/// identifier it spells. What gives nothing, or an identifier with no
/// segment, is dropped.
pub open spec fn node_arg(n: SyntaxNode) -> ArgModel
    decreases n,
{
    match n.kind {
        NodeKind::Param => if n.children@.len() > 0 {
            node_arg(n.children@[0])
        } else {
            ArgModel::Dropped
        },
        NodeKind::OpdUscore => ArgModel::Value(ValModel::Blank("_"@)),
        NodeKind::OpdNc => ArgModel::Value(ValModel::NotConnected("NC"@)),
        NodeKind::Body => if n.children@.len() == 0 {
            ArgModel::Dropped
        } else if has_attribute(n.children@) {
            ArgModel::Unread(UnreadForm::AttributeBlock)
        } else {
            ArgModel::Value(ValModel::InlineAttrs(Seq::empty()))
        },
        NodeKind::Const => ArgModel::Value(ValModel::Keyword(n.text@)),
        NodeKind::Int => match node_int(n) {
            Some(v) => ArgModel::Value(ValModel::Int(v)),
            None => ArgModel::Dropped,
        },
        NodeKind::Hex => match parse_hex(n.text@) {
            Some(v) => ArgModel::Value(ValModel::Hex(v, n.text@)),
            None => ArgModel::Dropped,
        },
        NodeKind::Float => if float_text(n.text@) {
            ArgModel::Value(ValModel::Float(n.text@))
        } else {
            ArgModel::Dropped
        },
        NodeKind::Str => ArgModel::Value(ValModel::Str(n.text@)),
        NodeKind::UnitValue
        | NodeKind::UnitValueAt
        | NodeKind::RangePlusMinus
        | NodeKind::OpdTilde => ArgModel::Unread(UnreadForm::UnitValue),
        NodeKind::DeclareUv => if n.children@.len() > 1 && n.children@[1].kind
            == NodeKind::Instance && n.children@[1].children@.len() > 0 {
            ids_arg(node_ids(n.children@[1].children@[0]))
        } else {
            ArgModel::Dropped
        },
        _ => ids_arg(node_ids(n)),
    }
}

fn ids_read(n: &SyntaxNode) -> (r: ArgRead)
    ensures
        arg_model(r) == ids_arg(node_ids(*n)),
{
    match McIds::from_node(n) {
        Some(ids) => if ids.is_empty() {
            ArgRead::Dropped
        } else {
            ArgRead::Value(McParamValue::Ids(ids))
        },
        None => ArgRead::Dropped,
    }
}

fn any_attribute(kids: &Vec<SyntaxNode>) -> (r: bool)
    ensures
        r == has_attribute(kids@),
{
    let mut i: usize = 0;
    while i < kids.len()
        invariant
            i <= kids@.len(),
            forall|k: int| 0 <= k < i ==> (#[trigger] kids@[k]).kind != NodeKind::Attribute,
        decreases kids@.len() - i,
    {
        if kids[i].kind == NodeKind::Attribute {
            assert(kids@[i as int].kind == NodeKind::Attribute);
            return true;
        }
        i += 1;
    }
    false
}

/// A bare `[...]` vector with members is never dropped: it stays an
/// identifier argument (and so does one wrapped in a parameter node).
pub proof fn square_vector_stays_identifier(n: SyntaxNode)
    requires
        n.kind == NodeKind::SquareVec,
        n.children@.len() > 0,
    ensures
        node_arg(n) matches ArgModel::Value(ValModel::Ids(i)) && i.len() == 1,
        forall|w: SyntaxNode|
            w.kind == NodeKind::Param && w.children@.len() > 0 && w.children@[0] == n
                ==> #[trigger] node_arg(w) == node_arg(n),
{
    assert(node_ids(n) == Some(
        seq![IdsSegModel::Square(crate::node_ids::square_list(n.children@, 0))],
    ));
}

impl McParamValue {
    /// The argument a syntax node gives when no lookup context is at hand
    /// (instance arguments such as `mcu(V3V3, V1V2)`): see `node_arg`. A
    /// bare `[VDD, GND]` vector, like any identifier, stays an identifier.
    pub fn from_node(n: &SyntaxNode) -> (r: ArgRead)
        ensures
            arg_model(r) == node_arg(*n),
        decreases *n,
    {
        match n.kind {
            NodeKind::Param => {
                if n.children.len() > 0 {
                    McParamValue::from_node(&n.children[0])
                } else {
                    ArgRead::Dropped
                }
            },
            NodeKind::OpdUscore => ArgRead::Value(McParamValue::NONE(owned("_"))),
            NodeKind::OpdNc => ArgRead::Value(McParamValue::NC(owned("NC"))),
            NodeKind::Body => {
                if n.children.len() == 0 {
                    ArgRead::Dropped
                } else if any_attribute(&n.children) {
                    ArgRead::Unread(UnreadForm::AttributeBlock)
                } else {
                    let attrs = Vec::new();
                    let r = ArgRead::Value(McParamValue::InlineAttrs(attrs));
                    proof {
                        crate::mc_param::lemma_inner_val_models(McParamValue::InlineAttrs(attrs));
                        assert(crate::mc_param::named_models(attrs@) =~= Seq::empty());
                    }
                    r
                }
            },
            NodeKind::Const => ArgRead::Value(
                McParamValue::Const(McConst::Keyword(copy_string(&n.text))),
            ),
            NodeKind::Int => match McInt::from_node(n) {
                Some(x) => ArgRead::Value(McParamValue::Int(x)),
                None => ArgRead::Dropped,
            },
            NodeKind::Hex => {
                let c = chars_of(n.text.as_str());
                match parse_hex_chars(c.as_slice()) {
                    Some(v) => ArgRead::Value(
                        McParamValue::Hex(McHex { value: v, hex_str: copy_string(&n.text) }),
                    ),
                    None => ArgRead::Dropped,
                }
            },
            NodeKind::Float => {
                let c = chars_of(n.text.as_str());
                if float_text_exec(c.as_slice()) {
                    ArgRead::Value(McParamValue::Float(copy_string(&n.text)))
                } else {
                    ArgRead::Dropped
                }
            },
            NodeKind::Str => ArgRead::Value(
                McParamValue::String(McString { value: copy_string(&n.text) }),
            ),
            NodeKind::UnitValue
            | NodeKind::UnitValueAt
            | NodeKind::RangePlusMinus
            | NodeKind::OpdTilde => ArgRead::Unread(UnreadForm::UnitValue),
            NodeKind::DeclareUv => {
                if n.children.len() > 1 && n.children[1].kind == NodeKind::Instance
                    && n.children[1].children.len() > 0 {
                    ids_read(&n.children[1].children[0])
                } else {
                    ArgRead::Dropped
                }
            },
            _ => ids_read(n),
        }
    }
}

} // verus!
