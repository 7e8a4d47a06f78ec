//! Identifiers and operands read from syntax-tree nodes.
//!
//! A node is read together with the siblings that follow it in its
//! parent's list: `this` and `pins` take their member and index suffixes
//! from there, and so does an operand's dotted tail.
use vstd::prelude::*;
use crate::mc_ida::{parse_ida, McIda};
use crate::mc_ids::{ids_models, lemma_inner_models, IdsSegModel, IdsSegment, McIds};
use crate::mc_literal::McInt;
use crate::mc_opd::{McOpd, OpdModel};
use crate::syntax::{node_ida, node_int, NodeKind, SyntaxNode};

verus! {

// ---------------------------------------------------------------------------
// Specification
// ---------------------------------------------------------------------------

/// The one-element list of a present segment, the empty list otherwise.
pub open spec fn opt_seg(o: Option<IdsSegModel>) -> Seq<IdsSegModel> {
    match o {
        Some(x) => seq![x],
        None => Seq::empty(),
    }
}

/// The range two integer sub-nodes of a node spell (`a:b`).
pub open spec fn colon_slice(n: SyntaxNode) -> Option<IdsSegModel> {
    if n.children@.len() >= 2 {
        match (node_int(n.children@[0]), node_int(n.children@[1])) {
            (Some(a), Some(b)) => Some(IdsSegModel::Slice(a, b)),
            _ => None,
        }
    } else {
        None
    }
}

/// The segment one member of a `{...}` group spells: an integer, an IDA or
/// an integer range.
pub open spec fn curly_member(n: SyntaxNode) -> Option<IdsSegModel> {
    match n.kind {
        NodeKind::Int => match node_int(n) {
            Some(v) => Some(IdsSegModel::Int(v)),
            None => None,
        },
        NodeKind::Id | NodeKind::Ida => match node_ida(n) {
            Some(a) => Some(IdsSegModel::Ida(a)),
            None => None,
        },
        NodeKind::OpdColon => colon_slice(n),
        _ => None,
    }
}

/// The segments the members of a `{...}` group spell, in order.
pub open spec fn curly_members(kids: Seq<SyntaxNode>) -> Seq<IdsSegModel>
    decreases kids.len(),
{
    if kids.len() == 0 {
        Seq::empty()
    } else {
        curly_members(kids.drop_last()) + opt_seg(curly_member(kids.last()))
    }
}

/// The group segment a `{...}` node spells; none without members.
pub open spec fn curly_seg(n: SyntaxNode) -> Option<IdsSegModel> {
    if n.children@.len() > 0 {
        Some(IdsSegModel::Curly(curly_members(n.children@)))
    } else {
        None
    }
}

/// The suffix a `.x` node spells: `.int` or `.member`.
pub open spec fn dot_member(n: SyntaxNode) -> Option<IdsSegModel> {
    if n.children@.len() > 0 {
        let s = n.children@[0];
        match s.kind {
            NodeKind::Int => match node_int(s) {
                Some(v) => Some(IdsSegModel::DotInt(v)),
                None => None,
            },
            NodeKind::Id | NodeKind::Ida => match node_ida(s) {
                Some(a) => Some(IdsSegModel::DotIda(a)),
                None => None,
            },
            _ => None,
        }
    } else {
        None
    }
}

/// The segment one part of a dotted identifier list spells.
pub open spec fn ids_member(n: SyntaxNode) -> Option<IdsSegModel> {
    match n.kind {
        NodeKind::Int => match node_int(n) {
            Some(v) => Some(IdsSegModel::Int(v)),
            None => None,
        },
        NodeKind::Id | NodeKind::Ida => match node_ida(n) {
            Some(a) => Some(IdsSegModel::Ida(a)),
            None => None,
        },
        NodeKind::OpdDot => dot_member(n),
        NodeKind::OpdCurly => curly_seg(n),
        _ => None,
    }
}

/// The segments the parts of a dotted identifier list spell, in order.
pub open spec fn ids_members(kids: Seq<SyntaxNode>) -> Seq<IdsSegModel>
    decreases kids.len(),
{
    if kids.len() == 0 {
        Seq::empty()
    } else {
        ids_members(kids.drop_last()) + opt_seg(ids_member(kids.last()))
    }
}

/// The `.int` suffix a node spells after a keyword operand.
pub open spec fn dot_int_tail(d: SyntaxNode) -> Seq<IdsSegModel> {
    if d.kind == NodeKind::OpdDot && d.children@.len() > 0 && d.children@[0].kind
        == NodeKind::Int {
        match node_int(d.children@[0]) {
            Some(v) => seq![IdsSegModel::DotInt(v)],
            None => Seq::empty(),
        }
    } else {
        Seq::empty()
    }
}

/// The segments of a keyword operand (`this`, `pins`) followed by `sibs`:
/// the keyword, then a member that is not a `.x` node, then a `.int`.
pub open spec fn keyword_ids(word: Seq<char>, sibs: Seq<SyntaxNode>) -> Seq<IdsSegModel> {
    let head = seq![IdsSegModel::Ida(parse_ida(word))];
    if sibs.len() == 0 {
        head
    } else if sibs[0].kind != NodeKind::OpdDot {
        match node_ida(sibs[0]) {
            Some(a) => head.push(IdsSegModel::DotIda(a)) + (if sibs.len() > 1 {
                dot_int_tail(sibs[1])
            } else {
                Seq::empty()
            }),
            None => head,
        }
    } else {
        head + dot_int_tail(sibs[0])
    }
}

/// The segments node `n`, followed by the siblings `sibs`, spells as an
/// identifier; none for a node that spells no identifier.
pub open spec fn ids_of(n: SyntaxNode, sibs: Seq<SyntaxNode>) -> Option<Seq<IdsSegModel>>
    decreases n, 0int, 0int,
{
    match n.kind {
        NodeKind::Id | NodeKind::Ida => Some(
            match node_ida(n) {
                Some(a) => seq![IdsSegModel::Ida(a)],
                None => Seq::empty(),
            },
        ),
        NodeKind::Param | NodeKind::Opd => if n.children@.len() > 0 {
            ids_of(n.children@[0], n.children@.skip(1))
        } else {
            None
        },
        NodeKind::OpdThis => Some(keyword_ids("this"@, sibs)),
        NodeKind::OpdPins => Some(keyword_ids("pins"@, sibs)),
        NodeKind::OpdSquareVec | NodeKind::SquareVec => if n.children@.len() > 0 {
            Some(seq![IdsSegModel::Square(square_list(n.children@, 0))])
        } else {
            Some(Seq::empty())
        },
        NodeKind::Ids => if n.children@.len() > 0 {
            Some(ids_members(n.children@))
        } else {
            None
        },
        _ => None,
    }
}

/// The segment element `j` of a `[...]` vector spells: the first segment of
/// the identifier it (or, for an operand, its sub-node) spells, else an
/// integer, an IDA, a nested vector, or an `a:b` range.
pub open spec fn square_item(kids: Seq<SyntaxNode>, j: int) -> Option<IdsSegModel>
    decreases kids, 1int, 0int,
{
    if 0 <= j < kids.len() {
        let e = kids[j];
        if e.kind == NodeKind::Opd && e.children@.len() == 0 {
            None
        } else {
            let first = if e.kind == NodeKind::Opd {
                ids_of(e.children@[0], e.children@.skip(1))
            } else {
                ids_of(e, kids.skip(j + 1))
            };
            let node = if e.kind == NodeKind::Opd {
                e.children@[0]
            } else {
                e
            };
            match first {
                Some(s) if s.len() > 0 => Some(s[0]),
                _ => match node.kind {
                    NodeKind::Int => match node_int(node) {
                        Some(v) => Some(IdsSegModel::Int(v)),
                        None => None,
                    },
                    NodeKind::Id | NodeKind::Ida => match node_ida(node) {
                        Some(a) => Some(IdsSegModel::Ida(a)),
                        None => None,
                    },
                    NodeKind::Ids => if node.children@.len() > 0 {
                        Some(IdsSegModel::Square(square_list(node.children@, 0)))
                    } else {
                        None
                    },
                    NodeKind::Expression => if node.children@.len() > 0
                        && node.children@[0].kind == NodeKind::OpdColon {
                        colon_slice(node.children@[0])
                    } else {
                        None
                    },
                    NodeKind::OpdColon => colon_slice(node),
                    _ => None,
                },
            }
        }
    } else {
        None
    }
}

/// The segments elements `j..` of a `[...]` vector spell, in order.
pub open spec fn square_list(kids: Seq<SyntaxNode>, j: int) -> Seq<IdsSegModel>
    decreases kids, 2int, kids.len() - j,
{
    if 0 <= j < kids.len() {
        opt_seg(square_item(kids, j)) + square_list(kids, j + 1)
    } else {
        Seq::empty()
    }
}


/// The suffix segments the siblings `sibs` that follow an operand's head
/// add to it: `.x` suffixes, `{...}` groups and `[...]` vectors.
pub open spec fn append_member(n: SyntaxNode) -> Option<IdsSegModel> {
    match n.kind {
        NodeKind::OpdDot => dot_member(n),
        NodeKind::OpdCurly => curly_seg(n),
        NodeKind::OpdSquareVec => if n.children@.len() > 0 {
            Some(IdsSegModel::Square(square_list(n.children@, 0)))
        } else {
            None
        },
        _ => None,
    }
}

/// The segments the siblings that follow an operand's head add to it.
pub open spec fn append_segs(sibs: Seq<SyntaxNode>) -> Seq<IdsSegModel>
    decreases sibs.len(),
{
    if sibs.len() == 0 {
        Seq::empty()
    } else {
        append_segs(sibs.drop_last()) + opt_seg(append_member(sibs.last()))
    }
}

/// The identifier an instance written as an operand names: that of its
/// first sub-node, or of the sub-node of that sub-node when it is an operand.
pub open spec fn instance_ids(s: SyntaxNode) -> Option<Seq<IdsSegModel>> {
    if s.children@.len() > 0 {
        let c = s.children@[0];
        match ids_of(c, s.children@.skip(1)) {
            Some(i) => Some(i),
            None => if c.kind == NodeKind::Opd && c.children@.len() > 0 {
                ids_of(c.children@[0], c.children@.skip(1))
            } else {
                None
            },
        }
    } else {
        None
    }
}

/// The operand node `n`, followed by the siblings `sibs`, spells.
pub open spec fn opd_of(n: SyntaxNode, sibs: Seq<SyntaxNode>) -> Option<OpdModel> {
    match n.kind {
        NodeKind::Opd => if n.children@.len() > 0 {
            let s = n.children@[0];
            let rest = n.children@.skip(1);
            match s.kind {
                NodeKind::OpdUscore => Some(OpdModel::Uscore),
                NodeKind::Id | NodeKind::Ida | NodeKind::Ids => match ids_of(s, rest) {
                    Some(i) => Some(OpdModel::Id(i + append_segs(rest))),
                    None => None,
                },
                NodeKind::OpdThis => Some(
                    OpdModel::This(seq![IdsSegModel::Ida(parse_ida("this"@))] + append_segs(rest)),
                ),
                NodeKind::OpdPins => Some(
                    OpdModel::Pins(seq![IdsSegModel::Ida(parse_ida("pins"@))] + append_segs(rest)),
                ),
                NodeKind::Instance => match instance_ids(s) {
                    Some(i) => Some(OpdModel::Id(i)),
                    None => None,
                },
                _ => None,
            }
        } else {
            None
        },
        NodeKind::Id | NodeKind::Ida | NodeKind::Ids => match ids_of(n, sibs) {
            Some(i) => Some(OpdModel::Id(i + append_segs(sibs))),
            None => None,
        },
        NodeKind::Instance => match instance_ids(n) {
            Some(i) => Some(OpdModel::Id(i)),
            None => None,
        },
        _ => None,
    }
}

/// The identifier a node standing alone spells.
pub open spec fn node_ids(n: SyntaxNode) -> Option<Seq<IdsSegModel>> {
    ids_of(n, Seq::empty())
}

/// The operand a node standing alone spells.
pub open spec fn node_opd(n: SyntaxNode) -> Option<OpdModel> {
    opd_of(n, Seq::empty())
}

// ---------------------------------------------------------------------------
// Reading
// ---------------------------------------------------------------------------

/// The model of an optional segment.
pub open spec fn seg_opt(o: Option<IdsSegment>) -> Option<IdsSegModel> {
    match o {
        Some(s) => Some(s@),
        None => None,
    }
}

/// The models of an optional segment list.
pub open spec fn segs_opt(o: Option<Vec<IdsSegment>>) -> Option<Seq<IdsSegModel>> {
    match o {
        Some(v) => Some(ids_models(v@)),
        None => None,
    }
}

fn push_opt(out: &mut Vec<IdsSegment>, o: Option<IdsSegment>)
    ensures
        ids_models(final(out)@) == ids_models(old(out)@) + opt_seg(seg_opt(o)),
{
    if let Some(x) = o {
        out.push(x);
    }
    assert(ids_models(out@) =~= ids_models(old(out)@) + opt_seg(seg_opt(o)));
}

fn int_seg(n: &SyntaxNode) -> (r: Option<IdsSegment>)
    ensures
        seg_opt(r) == (match node_int(*n) {
            Some(v) => Some(IdsSegModel::Int(v)),
            None => None,
        }),
{
    match McInt::from_node(n) {
        Some(x) => Some(IdsSegment::Int(Box::new(x))),
        None => None,
    }
}

fn ida_seg(n: &SyntaxNode) -> (r: Option<IdsSegment>)
    ensures
        seg_opt(r) == (match node_ida(*n) {
            Some(a) => Some(IdsSegModel::Ida(a)),
            None => None,
        }),
{
    match McIda::from_node(n) {
        Some(x) => Some(IdsSegment::Ida(Box::new(x))),
        None => None,
    }
}

fn colon_slice_exec(n: &SyntaxNode) -> (r: Option<IdsSegment>)
    ensures
        seg_opt(r) == colon_slice(*n),
{
    if n.children.len() >= 2 {
        match (McInt::from_node(&n.children[0]), McInt::from_node(&n.children[1])) {
            (Some(a), Some(b)) => Some(IdsSegment::Slice { from: Box::new(a), to: Box::new(b) }),
            _ => None,
        }
    } else {
        None
    }
}

fn curly_member_exec(n: &SyntaxNode) -> (r: Option<IdsSegment>)
    ensures
        seg_opt(r) == curly_member(*n),
{
    match n.kind {
        NodeKind::Int => int_seg(n),
        NodeKind::Id | NodeKind::Ida => ida_seg(n),
        NodeKind::OpdColon => colon_slice_exec(n),
        _ => None,
    }
}

fn curly_seg_exec(n: &SyntaxNode) -> (r: Option<IdsSegment>)
    ensures
        seg_opt(r) == curly_seg(*n),
{
    if n.children.len() == 0 {
        return None;
    }
    let mut out: Vec<IdsSegment> = Vec::new();
    let mut i: usize = 0;
    while i < n.children.len()
        invariant
            i <= n.children@.len(),
            ids_models(out@) == curly_members(n.children@.take(i as int)),
        decreases n.children@.len() - i,
    {
        assert(n.children@.take(i + 1).drop_last() =~= n.children@.take(i as int));
        let m = curly_member_exec(&n.children[i]);
        push_opt(&mut out, m);
        i += 1;
    }
    assert(n.children@.take(n.children@.len() as int) =~= n.children@);
    proof {
        lemma_inner_models(out);
    }
    Some(IdsSegment::Curly(out))
}

fn dot_member_exec(n: &SyntaxNode) -> (r: Option<IdsSegment>)
    ensures
        seg_opt(r) == dot_member(*n),
{
    if n.children.len() == 0 {
        return None;
    }
    let s = &n.children[0];
    match s.kind {
        NodeKind::Int => match McInt::from_node(s) {
            Some(x) => Some(IdsSegment::DotInt(Box::new(x))),
            None => None,
        },
        NodeKind::Id | NodeKind::Ida => match McIda::from_node(s) {
            Some(x) => Some(IdsSegment::DotIda(Box::new(x))),
            None => None,
        },
        _ => None,
    }
}

fn ids_member_exec(n: &SyntaxNode) -> (r: Option<IdsSegment>)
    ensures
        seg_opt(r) == ids_member(*n),
{
    match n.kind {
        NodeKind::Int => int_seg(n),
        NodeKind::Id | NodeKind::Ida => ida_seg(n),
        NodeKind::OpdDot => dot_member_exec(n),
        NodeKind::OpdCurly => curly_seg_exec(n),
        _ => None,
    }
}

fn ids_members_exec(kids: &Vec<SyntaxNode>) -> (r: Vec<IdsSegment>)
    ensures
        ids_models(r@) == ids_members(kids@),
{
    let mut out: Vec<IdsSegment> = Vec::new();
    let mut i: usize = 0;
    while i < kids.len()
        invariant
            i <= kids@.len(),
            ids_models(out@) == ids_members(kids@.take(i as int)),
        decreases kids@.len() - i,
    {
        assert(kids@.take(i + 1).drop_last() =~= kids@.take(i as int));
        let m = ids_member_exec(&kids[i]);
        push_opt(&mut out, m);
        i += 1;
    }
    assert(kids@.take(kids@.len() as int) =~= kids@);
    out
}

fn dot_int_tail_exec(d: &SyntaxNode, out: &mut Vec<IdsSegment>)
    ensures
        ids_models(final(out)@) == ids_models(old(out)@) + dot_int_tail(*d),
{
    if d.kind == NodeKind::OpdDot && d.children.len() > 0 && d.children[0].kind == NodeKind::Int {
        let o = match McInt::from_node(&d.children[0]) {
            Some(x) => Some(IdsSegment::DotInt(Box::new(x))),
            None => None,
        };
        push_opt(out, o);
    }
    assert(ids_models(out@) =~= ids_models(old(out)@) + dot_int_tail(*d));
}

fn keyword_ids_exec(this: bool, kids: &Vec<SyntaxNode>, from: usize) -> (r: Vec<IdsSegment>)
    requires
        from <= kids@.len(),
    ensures
        ids_models(r@) == keyword_ids(
            if this {
                "this"@
            } else {
                "pins"@
            },
            kids@.skip(from as int),
        ),
{
    let ghost sibs = kids@.skip(from as int);
    let ghost word = if this {
        "this"@
    } else {
        "pins"@
    };
    let mut out: Vec<IdsSegment> = Vec::new();
    let head = if this {
        McIda::from("this")
    } else {
        McIda::from("pins")
    };
    out.push(IdsSegment::Ida(Box::new(head)));
    assert(ids_models(out@) =~= seq![IdsSegModel::Ida(parse_ida(word))]);
    if from >= kids.len() {
        return out;
    }
    let c = &kids[from];
    assert(sibs[0] == kids@[from as int]);
    if c.kind != NodeKind::OpdDot {
        match McIda::from_node(c) {
            Some(a) => {
                out.push(IdsSegment::DotIda(Box::new(a)));
                assert(ids_models(out@) =~= seq![IdsSegModel::Ida(parse_ida(word))].push(
                    IdsSegModel::DotIda(a@),
                ));
                if from + 1 < kids.len() {
                    assert(sibs[1] == kids@[from + 1]);
                    dot_int_tail_exec(&kids[from + 1], &mut out);
                } else {
                    assert(ids_models(out@) + Seq::<IdsSegModel>::empty() =~= ids_models(out@));
                }
            },
            None => {},
        }
    } else {
        dot_int_tail_exec(c, &mut out);
    }
    out
}

/// The segments node `n`, followed by `kids[from..]`, spells.
pub(crate) fn ids_of_exec(n: &SyntaxNode, kids: &Vec<SyntaxNode>, from: usize) -> (r: Option<Vec<IdsSegment>>)
    requires
        from <= kids@.len(),
    ensures
        segs_opt(r) == ids_of(*n, kids@.skip(from as int)),
    decreases *n, 0int, 0int,
{
    match n.kind {
        NodeKind::Id | NodeKind::Ida => {
            let mut out: Vec<IdsSegment> = Vec::new();
            let o = ida_seg(n);
            push_opt(&mut out, o);
            Some(out)
        },
        NodeKind::Param | NodeKind::Opd => {
            if n.children.len() > 0 {
                ids_of_exec(&n.children[0], &n.children, 1)
            } else {
                None
            }
        },
        NodeKind::OpdThis => Some(keyword_ids_exec(true, kids, from)),
        NodeKind::OpdPins => Some(keyword_ids_exec(false, kids, from)),
        NodeKind::OpdSquareVec | NodeKind::SquareVec => {
            let mut out: Vec<IdsSegment> = Vec::new();
            if n.children.len() > 0 {
                let items = square_list_exec(&n.children);
                proof {
                    lemma_inner_models(items);
                }
                out.push(IdsSegment::Square(items));
                assert(ids_models(out@) =~= seq![
                    IdsSegModel::Square(square_list(n.children@, 0)),
                ]);
            }
            Some(out)
        },
        NodeKind::Ids => {
            if n.children.len() > 0 {
                Some(ids_members_exec(&n.children))
            } else {
                None
            }
        },
        _ => None,
    }
}

fn first_segment(v: Vec<IdsSegment>) -> (r: Option<IdsSegment>)
    ensures
        v@.len() > 0 ==> seg_opt(r) == Some(ids_models(v@)[0]),
        v@.len() == 0 ==> r is None,
{
    let mut v = v;
    if v.len() > 0 {
        Some(v.remove(0))
    } else {
        None
    }
}

/// The segment element `j` of a `[...]` vector spells.
fn square_item_exec(kids: &Vec<SyntaxNode>, j: usize) -> (r: Option<IdsSegment>)
    requires
        j < kids@.len(),
    ensures
        seg_opt(r) == square_item(kids@, j as int),
    decreases kids@, 1int, 0int,
{
    let len = kids.len();
    let e = &kids[j];
    if e.kind == NodeKind::Opd && e.children.len() == 0 {
        return None;
    }
    let first = if e.kind == NodeKind::Opd {
        ids_of_exec(&e.children[0], &e.children, 1)
    } else {
        assert(j < len);
        ids_of_exec(e, kids, j + 1)
    };
    let node = if e.kind == NodeKind::Opd {
        &e.children[0]
    } else {
        e
    };
    if let Some(v) = first {
        if v.len() > 0 {
            return first_segment(v);
        }
    }
    match node.kind {
        NodeKind::Int => int_seg(node),
        NodeKind::Id | NodeKind::Ida => ida_seg(node),
        NodeKind::Ids => {
            if node.children.len() > 0 {
                let items = square_list_exec(&node.children);
                proof {
                    lemma_inner_models(items);
                }
                Some(IdsSegment::Square(items))
            } else {
                None
            }
        },
        NodeKind::Expression => {
            if node.children.len() > 0 && node.children[0].kind == NodeKind::OpdColon {
                colon_slice_exec(&node.children[0])
            } else {
                None
            }
        },
        NodeKind::OpdColon => colon_slice_exec(node),
        _ => None,
    }
}

/// The segments the elements of a `[...]` vector spell.
fn square_list_exec(kids: &Vec<SyntaxNode>) -> (r: Vec<IdsSegment>)
    ensures
        ids_models(r@) == square_list(kids@, 0),
    decreases kids@, 2int, 0int,
{
    let mut out: Vec<IdsSegment> = Vec::new();
    let mut j: usize = 0;
    while j < kids.len()
        invariant
            j <= kids@.len(),
            ids_models(out@) + square_list(kids@, j as int) == square_list(kids@, 0),
        decreases kids@.len() - j,
    {
        let m = square_item_exec(kids, j);
        let ghost before = ids_models(out@);
        push_opt(&mut out, m);
        assert(before + square_list(kids@, j as int) =~= ids_models(out@) + square_list(
            kids@,
            j + 1,
        ));
        j += 1;
    }
    assert(ids_models(out@) + Seq::<IdsSegModel>::empty() =~= ids_models(out@));
    out
}

fn append_member_exec(n: &SyntaxNode) -> (r: Option<IdsSegment>)
    ensures
        seg_opt(r) == append_member(*n),
{
    match n.kind {
        NodeKind::OpdDot => dot_member_exec(n),
        NodeKind::OpdCurly => curly_seg_exec(n),
        NodeKind::OpdSquareVec => {
            if n.children.len() > 0 {
                let items = square_list_exec(&n.children);
                proof {
                    lemma_inner_models(items);
                }
                Some(IdsSegment::Square(items))
            } else {
                None
            }
        },
        _ => None,
    }
}

/// Adds the suffix segments of the siblings `kids[from..]`.
fn append_exec(out: &mut Vec<IdsSegment>, kids: &Vec<SyntaxNode>, from: usize)
    requires
        from <= kids@.len(),
    ensures
        ids_models(final(out)@) == ids_models(old(out)@) + append_segs(kids@.skip(from as int)),
{
    let ghost sibs = kids@.skip(from as int);
    let ghost start = ids_models(out@);
    let mut i: usize = from;
    while i < kids.len()
        invariant
            from <= i <= kids@.len(),
            sibs == kids@.skip(from as int),
            ids_models(out@) == start + append_segs(sibs.take(i - from)),
        decreases kids@.len() - i,
    {
        assert(sibs.take(i + 1 - from).drop_last() =~= sibs.take(i - from));
        assert(sibs.take(i + 1 - from).last() == kids@[i as int]);
        let m = append_member_exec(&kids[i]);
        let ghost before = ids_models(out@);
        push_opt(out, m);
        assert(ids_models(out@) =~= start + append_segs(sibs.take(i + 1 - from)));
        i += 1;
    }
    assert(sibs.take(kids@.len() - from) =~= sibs);
}

fn instance_ids_exec(s: &SyntaxNode) -> (r: Option<Vec<IdsSegment>>)
    ensures
        segs_opt(r) == instance_ids(*s),
{
    if s.children.len() == 0 {
        return None;
    }
    let c = &s.children[0];
    match ids_of_exec(c, &s.children, 1) {
        Some(i) => Some(i),
        None => {
            if c.kind == NodeKind::Opd && c.children.len() > 0 {
                ids_of_exec(&c.children[0], &c.children, 1)
            } else {
                None
            }
        },
    }
}

/// The identifier an operand names after its head: the head's segments
/// followed by the suffixes of `kids[from..]`.
fn with_suffixes(head: Vec<IdsSegment>, kids: &Vec<SyntaxNode>, from: usize) -> (r: McIds)
    requires
        from <= kids@.len(),
    ensures
        r@ == ids_models(head@) + append_segs(kids@.skip(from as int)),
{
    let mut segments = head;
    append_exec(&mut segments, kids, from);
    McIds { segments }
}

fn opd_of_exec(n: &SyntaxNode, kids: &Vec<SyntaxNode>, from: usize) -> (r: Option<McOpd>)
    requires
        from <= kids@.len(),
    ensures
        (match r {
            Some(o) => Some(o@),
            None => None,
        }) == opd_of(*n, kids@.skip(from as int)),
{
    match n.kind {
        NodeKind::Opd => {
            if n.children.len() == 0 {
                return None;
            }
            let s = &n.children[0];
            match s.kind {
                NodeKind::OpdUscore => Some(McOpd::Uscore),
                NodeKind::Id | NodeKind::Ida | NodeKind::Ids => match ids_of_exec(
                    s,
                    &n.children,
                    1,
                ) {
                    Some(i) => Some(McOpd::Id(with_suffixes(i, &n.children, 1))),
                    None => None,
                },
                NodeKind::OpdThis => {
                    let head = McIds::from("this");
                    Some(McOpd::This(with_suffixes(head.segments, &n.children, 1)))
                },
                NodeKind::OpdPins => {
                    let head = McIds::from("pins");
                    Some(McOpd::Pins(with_suffixes(head.segments, &n.children, 1)))
                },
                NodeKind::Instance => match instance_ids_exec(s) {
                    Some(i) => Some(McOpd::Id(McIds { segments: i })),
                    None => None,
                },
                _ => None,
            }
        },
        NodeKind::Id | NodeKind::Ida | NodeKind::Ids => match ids_of_exec(n, kids, from) {
            Some(i) => Some(McOpd::Id(with_suffixes(i, kids, from))),
            None => None,
        },
        NodeKind::Instance => match instance_ids_exec(n) {
            Some(i) => Some(McOpd::Id(McIds { segments: i })),
            None => None,
        },
        _ => None,
    }
}

impl McIds {
    /// The identifier a syntax node spells: an identifier, a dotted or
    /// grouped identifier list, a `[...]` vector, `this` or `pins` with
    /// their suffixes, or the identifier inside a parameter or operand
    /// wrapper; `None` for a node that spells no identifier.
    pub fn from_node(node: &SyntaxNode) -> (r: Option<McIds>)
        ensures
            (match r {
                Some(x) => Some(x@),
                None => None,
            }) == node_ids(*node),
    {
        let none: Vec<SyntaxNode> = Vec::new();
        match ids_of_exec(node, &none, 0) {
            Some(segments) => Some(McIds { segments }),
            None => None,
        }
    }
}

impl McIds {
    /// Adds the suffix segments that the sibling nodes `sibs` spell: `.x`
    /// suffixes, `{...}` groups and `[...]` vectors; other nodes add none.
    pub fn append(&mut self, sibs: &Vec<SyntaxNode>)
        ensures
            final(self)@ == old(self)@ + append_segs(sibs@),
    {
        assert(sibs@.skip(0) =~= sibs@);
        append_exec(&mut self.segments, sibs, 0);
    }

    /// The identifier node `kids[k]` spells, followed by the suffixes of the
    /// nodes after it (`TTL.7400`, whose `.7400` follows the name node).
    pub fn new_with_dot(kids: &Vec<SyntaxNode>, k: usize) -> (r: Option<McIds>)
        requires
            k < kids@.len(),
        ensures
            (match r {
                Some(x) => Some(x@),
                None => None,
            }) == (match ids_of(kids@[k as int], kids@.skip(k + 1)) {
                Some(i) => Some(i + append_segs(kids@.skip(k + 1))),
                None => None,
            }),
    {
        let len = kids.len();
        assert(k < len);
        match ids_of_exec(&kids[k], kids, k + 1) {
            Some(head) => Some(with_suffixes(head, kids, k + 1)),
            None => None,
        }
    }
}

impl McOpd {
    /// The operand a syntax node spells: `_`, an identifier with its dotted,
    /// grouped and vector suffixes, `this` or `pins` with theirs, or an
    /// instance written in operand position; `None` for any other node.
    pub fn from_node(node: &SyntaxNode) -> (r: Option<McOpd>)
        ensures
            (match r {
                Some(o) => Some(o@),
                None => None,
            }) == node_opd(*node),
    {
        let none: Vec<SyntaxNode> = Vec::new();
        opd_of_exec(node, &none, 0)
    }
}

/// An identifier node reads as its text does: the whole text is one IDA
/// segment, as [`McIds::from`] makes of it.
pub proof fn lemma_id_node_reads_like_its_text(n: SyntaxNode)
    requires
        n.kind == NodeKind::Id || n.kind == NodeKind::Ida,
        parse_ida(n.text@).len() > 0,
    ensures
        node_ids(n) == Some(seq![IdsSegModel::Ida(parse_ida(n.text@))]),
{
}

/// An operand reads as the identifier inside it, followed by the suffixes
/// of the nodes after that identifier.
pub proof fn lemma_operand_is_its_identifier(n: SyntaxNode)
    requires
        n.kind == NodeKind::Opd,
        n.children@.len() > 0,
        n.children@[0].kind == NodeKind::Id || n.children@[0].kind == NodeKind::Ida
            || n.children@[0].kind == NodeKind::Ids,
    ensures
        node_opd(n) == (match ids_of(n.children@[0], n.children@.skip(1)) {
            Some(i) => Some(OpdModel::Id(i + append_segs(n.children@.skip(1)))),
            None => None,
        }),
        node_ids(n) == ids_of(n.children@[0], n.children@.skip(1)),
{
}

} // verus!
