//! A definition's parameter list read from syntax-tree nodes: every
//! declaration it makes, and the definition and port spans of the names it
//! declares.
//!
//! The list is read as a sequence of steps: record a span under a name,
//! give a vector parameter's whole bracket its span, or add a declaration.
use vstd::prelude::*;
use std::ops::Range;
use crate::enum_classes::EnumClasses;
use crate::mc_ids::{ids_text, IdsSegModel, McIds};
use crate::mc_param_type::McParamType;
use crate::mc_paramd::{
    decl_kind_model, decl_primary, ids_list, opt_text, port_key, primary_name, replace_last,
    spans_after, spans_under, DeclKindModel, McParamDeclare, McParamDeclareKind, McParamDeclares,
};
use crate::node_decl::{has_shape, node_decl_in, owned_ids, param_stalls, root_of, DeclShape};
use crate::node_fcall::{node_span, spans_fit};
use crate::node_ids::{ids_of, ids_of_exec};
use crate::syntax::{NodeKind, SyntaxNode};
use crate::text::{utf8_len, utf8_len_capped};

verus! {

// ---------------------------------------------------------------------------
// Steps and their effect
// ---------------------------------------------------------------------------

/// One step of reading a parameter list.
pub enum ParseStep {
    /// Record a span under a name.
    Store(Seq<char>, (usize, usize)),
    /// Give a vector parameter's whole bracket its exact span.
    Whole(Seq<char>, (usize, usize)),
    /// Add a declaration of this shape, with this type classification.
    Push(DeclShape, McParamType),
}

/// The definition spans under `k` after the steps `acts`, from the spans
/// `d0`.
pub open spec fn def_at(d0: Seq<crate::mc_paramd::SpanList>, acts: Seq<ParseStep>, k: Seq<char>) -> Option<
    Seq<(usize, usize)>,
>
    decreases acts.len(),
{
    if acts.len() == 0 {
        spans_under(d0, k)
    } else {
        let prev = def_at(d0, acts.drop_last(), k);
        match acts.last() {
            ParseStep::Store(n, s) => if n == k {
                Some(
                    match prev {
                        Some(o) => o.push(s),
                        None => seq![s],
                    },
                )
            } else {
                prev
            },
            ParseStep::Whole(n, s) => if n == k {
                replace_last(
                    match prev {
                        Some(o) => Some(o),
                        None => Some(seq![s]),
                    },
                    s,
                )
            } else {
                prev
            },
            ParseStep::Push(..) => prev,
        }
    }
}

/// The port spans under `k` after the steps `acts`, from the definition
/// spans `d0` and the port spans `p0`.
pub open spec fn port_at(
    d0: Seq<crate::mc_paramd::SpanList>,
    p0: Seq<crate::mc_paramd::SpanList>,
    acts: Seq<ParseStep>,
    k: Seq<char>,
) -> Option<Seq<(usize, usize)>>
    decreases acts.len(),
{
    if acts.len() == 0 {
        spans_under(p0, k)
    } else {
        let prev = port_at(d0, p0, acts.drop_last(), k);
        match acts.last() {
            ParseStep::Store(n, s) => if port_key(n) == k {
                Some(
                    match prev {
                        Some(o) => o.push(s),
                        None => seq![s],
                    },
                )
            } else {
                prev
            },
            ParseStep::Whole(n, s) => {
                let p1 = if def_at(d0, acts.drop_last(), n) is None && k == port_key(n) {
                    Some(
                        match prev {
                            Some(o) => o.push(s),
                            None => seq![s],
                        },
                    )
                } else {
                    prev
                };
                if k == n {
                    replace_last(p1, s)
                } else {
                    p1
                }
            },
            ParseStep::Push(..) => prev,
        }
    }
}

/// The declarations the steps `acts` add, in order.
pub open spec fn pushes(acts: Seq<ParseStep>) -> Seq<(DeclShape, McParamType)>
    decreases acts.len(),
{
    if acts.len() == 0 {
        Seq::empty()
    } else {
        pushes(acts.drop_last()) + match acts.last() {
            ParseStep::Push(s, t) => seq![(s, t)],
            _ => Seq::empty(),
        }
    }
}

/// The primary name of a declaration of this form; a vector has none.
pub open spec fn shape_primary(k: DeclKindModel) -> Option<Seq<char>> {
    match k {
        DeclKindModel::Role(n, _) => primary_name(n),
        DeclKindModel::Single(n) => primary_name(n),
        DeclKindModel::Multiple(_) => None,
        DeclKindModel::UValue(n, _) => primary_name(n),
        DeclKindModel::EnumClass(n, _, _) => primary_name(n),
    }
}

/// Whether a declaration list holds `decls0` followed by the declarations
/// of `acts`, and its spans are those the steps `acts` leave from `d0` and
/// `p0`.
pub open spec fn after_steps(
    st: McParamDeclares,
    decls0: Seq<McParamDeclare>,
    d0: Seq<crate::mc_paramd::SpanList>,
    p0: Seq<crate::mc_paramd::SpanList>,
    acts: Seq<ParseStep>,
) -> bool {
    &&& st.wf()
    &&& st.declares@.len() == decls0.len() + pushes(acts).len()
    &&& st.declares@.take(decls0.len() as int) == decls0
    &&& forall|j: int|
        0 <= j < pushes(acts).len() ==> has_shape(
            #[trigger] st.declares@[decls0.len() + j],
            pushes(acts)[j].0,
            pushes(acts)[j].1,
        )
    &&& forall|k: Seq<char>|
        #![trigger spans_under(st.def_spans@, k)]
        spans_under(st.def_spans@, k) == def_at(d0, acts, k)
    &&& forall|k: Seq<char>|
        #![trigger spans_under(st.port_spans@, k)]
        spans_under(st.port_spans@, k) == port_at(d0, p0, acts, k)
}

// ---------------------------------------------------------------------------
// The steps a parameter list makes
// ---------------------------------------------------------------------------

/// The span a typed declaration's name gets: it precedes the declaration
/// node by its own length and the two bytes of `::` (clamped at the node's
/// start), and spans the name's UTF-8 length (capped at the largest offset).
pub open spec fn name_span(pos: u32, name: Seq<char>) -> (usize, usize) {
    let l = utf8_len(name);
    let start: int = if pos > l + 2 {
        pos - (l + 2)
    } else {
        pos as int
    };
    (
        start as usize,
        if start + l > usize::MAX {
            usize::MAX
        } else {
            (start + l) as usize
        },
    )
}

/// A declaration of the node followed by `sibs`, added with no span.
pub open spec fn declare_steps(
    n: SyntaxNode,
    sibs: Seq<SyntaxNode>,
    pt: McParamType,
    prefer: Option<Seq<char>>,
    enums: Seq<(Seq<char>, Seq<Seq<char>>)>,
) -> Seq<ParseStep> {
    match node_decl_in(n, sibs, prefer, enums, pt.kind@) {
        Ok(shape) => seq![ParseStep::Push(shape, pt)],
        Err(_) => Seq::empty(),
    }
}

/// The node and siblings a vector member names: its first sub-node, or
/// itself when it has none.
pub open spec fn member_node(kids: Seq<SyntaxNode>, j: int) -> (SyntaxNode, Seq<SyntaxNode>) {
    if kids[j].children@.len() > 0 {
        (kids[j].children@[0], kids[j].children@.skip(1))
    } else {
        (kids[j], kids.skip(j + 1))
    }
}

/// The spans the members `kids[j..]` of a vector record, each under its
/// own name.
pub open spec fn member_steps(kids: Seq<SyntaxNode>, j: int) -> Seq<ParseStep>
    decreases kids.len() - j,
{
    if j < 0 || j >= kids.len() {
        Seq::empty()
    } else {
        let (m, ms) = member_node(kids, j);
        (match ids_of(m, ms) {
            Some(i) => seq![ParseStep::Store(ids_text(i), node_span(m))],
            None => Seq::empty(),
        }) + member_steps(kids, j + 1)
    }
}

/// No parameter wrapper in the tree lacks a sub-node.
pub open spec fn no_empty_param(n: SyntaxNode) -> bool
    decreases n,
{
    &&& !(n.kind == NodeKind::Param && n.children@.len() == 0)
    &&& forall|i: int| 0 <= i < n.children@.len() ==> no_empty_param(#[trigger] n.children@[i])
}

/// A parameter node the list reader takes: every node's span fits the
/// offsets, and no parameter wrapper lacks a sub-node.
pub open spec fn readable(n: SyntaxNode) -> bool {
    spans_fit(n) && no_empty_param(n)
}

/// A tree without empty parameter wrappers never stalls.
pub proof fn lemma_no_stall(n: SyntaxNode)
    requires
        no_empty_param(n),
    ensures
        !param_stalls(n),
    decreases n,
{
    if n.kind == NodeKind::Param {
        assert(no_empty_param(n.children@[0]));
        lemma_no_stall(n.children@[0]);
    }
}

/// The node (with its siblings) an instance child of a typed declaration
/// names.
pub open spec fn instance_target(c: SyntaxNode) -> (SyntaxNode, Seq<SyntaxNode>) {
    let inner = c.children@[0];
    if inner.kind == NodeKind::Opd && inner.children@.len() > 0 {
        (inner.children@[0], inner.children@.skip(1))
    } else {
        (inner, c.children@.skip(1))
    }
}

/// Whether a node is a vector.
pub open spec fn is_vector(k: NodeKind) -> bool {
    k == NodeKind::SquareVec || k == NodeKind::OpdSquareVec
}

/// The index of the first instance child among `kids[i..]` that names a
/// vector.
pub open spec fn first_vector_instance(kids: Seq<SyntaxNode>, i: int) -> Option<int>
    decreases kids.len() - i,
{
    if i < 0 || i >= kids.len() {
        None
    } else if kids[i].kind == NodeKind::Instance && kids[i].children@.len() > 0 && is_vector(
        instance_target(kids[i]).0.kind,
    ) {
        Some(i)
    } else {
        first_vector_instance(kids, i + 1)
    }
}

/// The spans a typed declaration's vector name records: each member's, then
/// the whole bracket's exact span.
pub open spec fn vector_steps(d: SyntaxNode) -> Seq<ParseStep> {
    match first_vector_instance(d.children@, 0) {
        Some(i) => {
            let (v, vs) = instance_target(d.children@[i]);
            member_steps(v.children@, 0) + match ids_of(v, vs) {
                Some(w) => seq![ParseStep::Whole(ids_text(w), node_span(v))],
                None => Seq::empty(),
            }
        },
        None => Seq::empty(),
    }
}

/// A typed declaration: its name's span, its vector's spans, then the
/// declaration.
pub open spec fn register_steps(
    n: SyntaxNode,
    sibs: Seq<SyntaxNode>,
    pt: McParamType,
    prefer: Option<Seq<char>>,
    enums: Seq<(Seq<char>, Seq<Seq<char>>)>,
) -> Seq<ParseStep> {
    match node_decl_in(n, sibs, prefer, enums, pt.kind@) {
        Ok(shape) => (match shape_primary(shape.0) {
            Some(name) => seq![ParseStep::Store(name, name_span(n.pos, name))],
            None => Seq::empty(),
        }) + vector_steps(n) + seq![ParseStep::Push(shape, pt)],
        Err(_) => Seq::empty(),
    }
}

/// The spans a vector declaration's members record, all with one span.
pub open spec fn members_span_steps(ms: Seq<Seq<IdsSegModel>>, s: (usize, usize)) -> Seq<ParseStep>
    decreases ms.len(),
{
    if ms.len() == 0 {
        Seq::empty()
    } else {
        members_span_steps(ms.drop_last(), s) + match primary_name(ms.last()) {
            Some(p) => seq![ParseStep::Store(p, s)],
            None => Seq::empty(),
        }
    }
}

/// The node a direction word's operand declares: a vector itself, else the
/// first sub-node, looking through one more operand wrapper.
pub open spec fn operand_target(c: SyntaxNode, sibs: Seq<SyntaxNode>) -> (SyntaxNode, Seq<SyntaxNode>) {
    if is_vector(c.kind) {
        (c, sibs)
    } else {
        let c1 = if c.children@.len() > 0 {
            (c.children@[0], c.children@.skip(1))
        } else {
            (c, sibs)
        };
        if c1.0.kind == NodeKind::Opd && c1.0.children@.len() > 0 {
            (c1.0.children@[0], c1.0.children@.skip(1))
        } else {
            c1
        }
    }
}

/// The steps one operand after a direction word makes: a named formal
/// records its span under its name; an operand or vector records its span
/// under its name, or under each member's; a typed declaration registers.
pub open spec fn io_item_steps(
    c: SyntaxNode,
    sibs: Seq<SyntaxNode>,
    pt: McParamType,
    prefer: Option<Seq<char>>,
    enums: Seq<(Seq<char>, Seq<Seq<char>>)>,
) -> Seq<ParseStep> {
    if c.kind == NodeKind::Id || c.kind == NodeKind::Ida || c.kind == NodeKind::Ids {
        match node_decl_in(c, sibs, prefer, enums, pt.kind@) {
            Ok(shape) => (match shape_primary(shape.0) {
                Some(p) => seq![ParseStep::Store(p, node_span(c))],
                None => Seq::empty(),
            }) + seq![ParseStep::Push(shape, pt)],
            Err(_) => Seq::empty(),
        }
    } else if c.kind == NodeKind::Opd || is_vector(c.kind) {
        let (t, ts) = operand_target(c, sibs);
        match node_decl_in(t, ts, prefer, enums, pt.kind@) {
            Ok(shape) => (match shape.0 {
                DeclKindModel::Multiple(ms) => members_span_steps(ms, node_span(c)),
                _ => match shape_primary(shape.0) {
                    Some(p) => seq![ParseStep::Store(p, node_span(c))],
                    None => Seq::empty(),
                },
            }) + seq![ParseStep::Push(shape, pt)],
            Err(_) => Seq::empty(),
        }
    } else if c.kind == NodeKind::Declare {
        register_steps(c, sibs, pt, prefer, enums)
    } else {
        Seq::empty()
    }
}

/// The steps of the operands `ps[k..j]` that follow a direction word in the
/// list, each with its own type classification.
pub open spec fn io_list_steps(
    ps: Seq<SyntaxNode>,
    ts: Seq<McParamType>,
    k: int,
    j: int,
    prefer: Option<Seq<char>>,
    enums: Seq<(Seq<char>, Seq<Seq<char>>)>,
) -> Seq<ParseStep>
    decreases j - k,
{
    if k < 0 || k >= j || k >= ps.len() {
        Seq::empty()
    } else {
        io_item_steps(ps[k], ps.skip(k + 1), ts[k], prefer, enums) + io_list_steps(
            ps,
            ts,
            k + 1,
            j,
            prefer,
            enums,
        )
    }
}

/// The steps of the operands `kids[m..]` a direction word holds itself,
/// all with the direction word's type classification.
pub open spec fn io_own_steps(
    kids: Seq<SyntaxNode>,
    m: int,
    pt: McParamType,
    prefer: Option<Seq<char>>,
    enums: Seq<(Seq<char>, Seq<Seq<char>>)>,
) -> Seq<ParseStep>
    decreases kids.len() - m,
{
    if m < 0 || m >= kids.len() {
        Seq::empty()
    } else {
        io_item_steps(kids[m], kids.skip(m + 1), pt, prefer, enums) + io_own_steps(
            kids,
            m + 1,
            pt,
            prefer,
            enums,
        )
    }
}

/// The index of the next direction word in `ps` from `k` on, or the count.
pub open spec fn next_io(ps: Seq<SyntaxNode>, k: int) -> int
    decreases ps.len() - k,
{
    if k < 0 || k >= ps.len() {
        ps.len() as int
    } else if ps[k].kind == NodeKind::IoType {
        k
    } else {
        next_io(ps, k + 1)
    }
}

/// The next direction word is past `k` and within the list.
pub proof fn lemma_next_io_bound(ps: Seq<SyntaxNode>, k: int)
    requires
        0 <= k,
    ensures
        next_io(ps, k) <= ps.len(),
        k <= ps.len() ==> k <= next_io(ps, k),
    decreases ps.len() - k,
{
    if k < ps.len() && ps[k].kind != NodeKind::IoType {
        lemma_next_io_bound(ps, k + 1);
    }
}

/// The steps the parameters `ps[i..]` make, each with its type
/// classification in `ts`:
/// - a named formal records its span under its name, then is declared;
/// - a unit-value declaration records its name's span and is declared;
/// - a typed declaration registers (name span, vector spans, declaration);
/// - a vector records each member's span, then is declared;
/// - a direction word takes the operands up to the next direction word
///   (or, with none after it, the operands it holds itself) and makes their
///   steps;
/// - anything else is declared.
pub open spec fn list_steps(
    ps: Seq<SyntaxNode>,
    ts: Seq<McParamType>,
    i: int,
    prefer: Option<Seq<char>>,
    enums: Seq<(Seq<char>, Seq<Seq<char>>)>,
) -> Seq<ParseStep>
    decreases ps.len() - i, 0int,
{
    if i < 0 || i >= ps.len() {
        Seq::empty()
    } else {
        let pn = ps[i];
        let pt = ts[i];
        let sibs = ps.skip(i + 1);
        let (inner, isibs) = if pn.kind == NodeKind::Param && pn.children@.len() > 0 {
            crate::node_decl::descend(pn.children@[0], pn.children@.skip(1))
        } else {
            (pn, sibs)
        };
        if inner.kind == NodeKind::Id || inner.kind == NodeKind::Ida || inner.kind
            == NodeKind::Ids {
            (match ids_of(inner, isibs) {
                Some(x) => seq![ParseStep::Store(ids_text(x), node_span(inner))],
                None => Seq::empty(),
            }) + declare_steps(pn, sibs, pt, prefer, enums) + list_steps(
                ps,
                ts,
                i + 1,
                prefer,
                enums,
            )
        } else if inner.kind == NodeKind::DeclareUv {
            (match node_decl_in(inner, isibs, prefer, enums, pt.kind@) {
                Ok(shape) => (match shape_primary(shape.0) {
                    Some(name) => seq![ParseStep::Store(name, name_span(inner.pos, name))],
                    None => Seq::empty(),
                }) + seq![ParseStep::Push(shape, pt)],
                Err(_) => declare_steps(pn, sibs, pt, prefer, enums),
            }) + list_steps(ps, ts, i + 1, prefer, enums)
        } else if inner.kind == NodeKind::Declare {
            register_steps(inner, isibs, pt, prefer, enums) + list_steps(
                ps,
                ts,
                i + 1,
                prefer,
                enums,
            )
        } else if inner.kind == NodeKind::SquareVec {
            member_steps(inner.children@, 0) + declare_steps(pn, sibs, pt, prefer, enums)
                + list_steps(ps, ts, i + 1, prefer, enums)
        } else if inner.kind == NodeKind::IoType {
            let j = next_io(ps, i + 1);
            proof {
                lemma_next_io_bound(ps, i + 1);
            }
            if j > i + 1 {
                io_list_steps(ps, ts, i + 1, j, prefer, enums) + list_steps(
                    ps,
                    ts,
                    j,
                    prefer,
                    enums,
                )
            } else {
                io_own_steps(inner.children@, 1, pt, prefer, enums) + list_steps(
                    ps,
                    ts,
                    i + 1,
                    prefer,
                    enums,
                )
            }
        } else {
            declare_steps(pn, sibs, pt, prefer, enums) + list_steps(ps, ts, i + 1, prefer, enums)
        }
    }
}


// ---------------------------------------------------------------------------
// Reading: executable
// ---------------------------------------------------------------------------

/// The list a reading starts from: its declarations, definition spans and
/// port spans.
pub type Start = (Seq<McParamDeclare>, Seq<crate::mc_paramd::SpanList>, Seq<crate::mc_paramd::SpanList>);

/// Whether `st` is the start `g` after the steps `acts`.
pub open spec fn at(st: McParamDeclares, g: Start, acts: Seq<ParseStep>) -> bool {
    after_steps(st, g.0, g.1, g.2, acts)
}

fn step_store(
    st: &mut McParamDeclares,
    name: &str,
    s: (usize, usize),
    Ghost(g): Ghost<Start>,
    Ghost(acts): Ghost<Seq<ParseStep>>,
)
    requires
        at(*old(st), g, acts),
    ensures
        at(*final(st), g, acts.push(ParseStep::Store(name@, s))),
        final(st).net_ref_spans@ == old(st).net_ref_spans@,
        final(st).enclosing_component_name == old(st).enclosing_component_name,
{
    let ghost a = acts.push(ParseStep::Store(name@, s));
    assert(a.drop_last() =~= acts);
    assert(pushes(a) =~= pushes(acts));
    st.store_def_span(name, Range { start: s.0, end: s.1 });
    assert forall|k: Seq<char>| #![trigger spans_under(st.def_spans@, k)]
        spans_under(st.def_spans@, k) == def_at(g.1, a, k) by {}
    assert forall|k: Seq<char>| #![trigger spans_under(st.port_spans@, k)]
        spans_under(st.port_spans@, k) == port_at(g.1, g.2, a, k) by {}
}

fn step_whole(
    st: &mut McParamDeclares,
    name: &str,
    s: (usize, usize),
    Ghost(g): Ghost<Start>,
    Ghost(acts): Ghost<Seq<ParseStep>>,
)
    requires
        at(*old(st), g, acts),
    ensures
        at(*final(st), g, acts.push(ParseStep::Whole(name@, s))),
        final(st).net_ref_spans@ == old(st).net_ref_spans@,
        final(st).enclosing_component_name == old(st).enclosing_component_name,
{
    let ghost a = acts.push(ParseStep::Whole(name@, s));
    assert(a.drop_last() =~= acts);
    assert(pushes(a) =~= pushes(acts));
    st.set_whole_span(name, Range { start: s.0, end: s.1 });
    assert forall|k: Seq<char>| #![trigger spans_under(st.def_spans@, k)]
        spans_under(st.def_spans@, k) == def_at(g.1, a, k) by {}
    assert forall|k: Seq<char>| #![trigger spans_under(st.port_spans@, k)]
        spans_under(st.port_spans@, k) == port_at(g.1, g.2, a, k) by {}
}

fn step_push(
    st: &mut McParamDeclares,
    d: McParamDeclare,
    Ghost(shape): Ghost<DeclShape>,
    Ghost(pt): Ghost<McParamType>,
    Ghost(g): Ghost<Start>,
    Ghost(acts): Ghost<Seq<ParseStep>>,
)
    requires
        at(*old(st), g, acts),
        has_shape(d, shape, pt),
    ensures
        at(*final(st), g, acts.push(ParseStep::Push(shape, pt))),
        final(st).net_ref_spans@ == old(st).net_ref_spans@,
        final(st).enclosing_component_name == old(st).enclosing_component_name,
{
    let ghost a = acts.push(ParseStep::Push(shape, pt));
    assert(a.drop_last() =~= acts);
    assert(pushes(a) =~= pushes(acts).push((shape, pt)));
    let ghost before = st.declares@;
    st.declares.push(d);
    assert(st.declares@ =~= before.push(d));
    assert(st.declares@.take(g.0.len() as int) =~= before.take(g.0.len() as int));
    assert forall|j: int| 0 <= j < pushes(a).len() implies has_shape(
        #[trigger] st.declares@[g.0.len() + j],
        pushes(a)[j].0,
        pushes(a)[j].1,
    ) by {
        if j < pushes(acts).len() {
            assert(st.declares@[g.0.len() + j] == before[g.0.len() + j]);
        }
    }
    assert forall|k: Seq<char>| #![trigger spans_under(st.def_spans@, k)]
        spans_under(st.def_spans@, k) == def_at(g.1, a, k) by {}
    assert forall|k: Seq<char>| #![trigger spans_under(st.port_spans@, k)]
        spans_under(st.port_spans@, k) == port_at(g.1, g.2, a, k) by {}
}

proof fn lemma_has_shape_same_type(d: McParamDeclare, shape: DeclShape, a: McParamType, b: McParamType)
    requires
        has_shape(d, shape, a),
        a.kind@ == b.kind@,
        a.direction == b.direction,
    ensures
        has_shape(d, shape, b),
{
}

proof fn lemma_shape_primary(d: McParamDeclare)
    ensures
        decl_primary(d) == shape_primary(decl_kind_model(d.kind)),
{
}

fn span_exec(n: &SyntaxNode) -> (r: (usize, usize))
    requires
        n.pos + n.len <= u32::MAX,
    ensures
        r == node_span(*n),
{
    let end: u32 = n.pos + n.len;
    (n.pos as usize, end as usize)
}

fn declare_exec(
    st: &mut McParamDeclares,
    n: &SyntaxNode,
    kids: &Vec<SyntaxNode>,
    from: usize,
    pt: &McParamType,
    prefer: &Option<String>,
    enums: &EnumClasses,
    Ghost(g): Ghost<Start>,
    Ghost(acts): Ghost<Seq<ParseStep>>,
)
    requires
        at(*old(st), g, acts),
        from <= kids@.len(),
        no_empty_param(*n),
    ensures
        at(
            *final(st),
            g,
            acts + declare_steps(*n, kids@.skip(from as int), *pt, opt_text(*prefer), enums@),
        ),
        final(st).net_ref_spans@ == old(st).net_ref_spans@,
        final(st).enclosing_component_name == old(st).enclosing_component_name,
{
    proof {
        if n.kind == NodeKind::Param {
            assert(no_empty_param(n.children@[0]));
            lemma_no_stall(n.children@[0]);
        }
    }
    let ghost res = node_decl_in(*n, kids@.skip(from as int), opt_text(*prefer), enums@, pt.kind@);
    let pc = pt.copy();
    let ghost pcg = pc;
    match McParamDeclare::from_node_in(n, kids, from, prefer, pc, enums) {
        Ok(d) => {
            let ghost shape = res->Ok_0;
            proof {
                lemma_has_shape_same_type(d, shape, pcg, *pt);
            }
            step_push(st, d, Ghost(shape), Ghost(*pt), Ghost(g), Ghost(acts));
            assert(acts.push(ParseStep::Push(shape, *pt)) =~= acts + seq![ParseStep::Push(shape, *pt)]);
        },
        Err(_) => {
            assert(acts + Seq::<ParseStep>::empty() =~= acts);
        },
    }
}

fn member_steps_exec(
    st: &mut McParamDeclares,
    kids: &Vec<SyntaxNode>,
    Ghost(g): Ghost<Start>,
    Ghost(acts): Ghost<Seq<ParseStep>>,
)
    requires
        at(*old(st), g, acts),
        forall|j: int| 0 <= j < kids@.len() ==> spans_fit(#[trigger] kids@[j]),
    ensures
        at(*final(st), g, acts + member_steps(kids@, 0)),
        final(st).net_ref_spans@ == old(st).net_ref_spans@,
        final(st).enclosing_component_name == old(st).enclosing_component_name,
{
    let ghost mut done = acts;
    let mut j: usize = 0;
    let n = kids.len();
    while j < n
        invariant
            j <= n,
            n == kids@.len(),
            forall|q: int| 0 <= q < kids@.len() ==> spans_fit(#[trigger] kids@[q]),
            at(*st, g, done),
            done + member_steps(kids@, j as int) == acts + member_steps(kids@, 0),
            st.net_ref_spans@ == old(st).net_ref_spans@,
            st.enclosing_component_name == old(st).enclosing_component_name,
        decreases n - j,
    {
        let p = &kids[j];
        assert(spans_fit(kids@[j as int]));
        let ghost mn = member_node(kids@, j as int);
        let ghost before = done;
        if p.children.len() > 0 {
            assert(spans_fit(p.children@[0]));
            match ids_of_exec(&p.children[0], &p.children, 1) {
                Some(segments) => {
                    let name = McIds { segments }.to_string();
                    let sp = span_exec(&p.children[0]);
                    step_store(st, name.as_str(), sp, Ghost(g), Ghost(done));
                    proof {
                        done = done.push(ParseStep::Store(name@, sp));
                    }
                },
                None => {},
            }
        } else {
            match ids_of_exec(p, kids, j + 1) {
                Some(segments) => {
                    let name = McIds { segments }.to_string();
                    let sp = span_exec(p);
                    step_store(st, name.as_str(), sp, Ghost(g), Ghost(done));
                    proof {
                        done = done.push(ParseStep::Store(name@, sp));
                    }
                },
                None => {},
            }
        }
        assert(done + member_steps(kids@, j + 1) =~= before + member_steps(kids@, j as int));
        j += 1;
    }
    assert(done + member_steps(kids@, n as int) =~= done);
}

fn instance_target_exec(c: &SyntaxNode) -> (r: (&SyntaxNode, &Vec<SyntaxNode>))
    requires
        c.children@.len() > 0,
    ensures
        r.1@.len() >= 1,
        instance_target(*c) == (*r.0, r.1@.skip(1)),
        (c.children@[0].kind == NodeKind::Opd && c.children@[0].children@.len() > 0 && *r.0
            == c.children@[0].children@[0]) || *r.0 == c.children@[0],
{
    let inner = &c.children[0];
    if inner.kind == NodeKind::Opd && inner.children.len() > 0 {
        (&inner.children[0], &inner.children)
    } else {
        (inner, &c.children)
    }
}

fn first_vector_exec(kids: &Vec<SyntaxNode>) -> (r: Option<usize>)
    ensures
        match r {
            Some(i) => first_vector_instance(kids@, 0) == Some(i as int) && i < kids@.len()
                && kids@[i as int].kind == NodeKind::Instance && kids@[i as int].children@.len() > 0,
            None => first_vector_instance(kids@, 0) is None,
        },
{
    let mut i: usize = 0;
    while i < kids.len()
        invariant
            i <= kids@.len(),
            first_vector_instance(kids@, 0) == first_vector_instance(kids@, i as int),
        decreases kids@.len() - i,
    {
        let c = &kids[i];
        if c.kind == NodeKind::Instance && c.children.len() > 0 {
            let (v, _) = instance_target_exec(c);
            if v.kind == NodeKind::SquareVec || v.kind == NodeKind::OpdSquareVec {
                return Some(i);
            }
        }
        i += 1;
    }
    None
}

fn vector_exec(
    st: &mut McParamDeclares,
    d: &SyntaxNode,
    Ghost(g): Ghost<Start>,
    Ghost(acts): Ghost<Seq<ParseStep>>,
)
    requires
        at(*old(st), g, acts),
        spans_fit(*d),
    ensures
        at(*final(st), g, acts + vector_steps(*d)),
        final(st).net_ref_spans@ == old(st).net_ref_spans@,
        final(st).enclosing_component_name == old(st).enclosing_component_name,
{
    let kids = &d.children;
    let i = match first_vector_exec(kids) {
        Some(i) => i,
        None => {
            assert(acts + Seq::<ParseStep>::empty() =~= acts);
            return;
        },
    };
    let c = &kids[i];
    assert(spans_fit(kids@[i as int]));
    assert(spans_fit(c.children@[0]));
    let (v, vs) = instance_target_exec(c);
    proof {
        if c.children@[0].kind == NodeKind::Opd && c.children@[0].children@.len() > 0 {
            assert(spans_fit(c.children@[0].children@[0]));
        }
        assert(spans_fit(*v));
        assert forall|j: int| 0 <= j < v.children@.len() implies spans_fit(#[trigger] v.children@[j]) by {}
    }
    member_steps_exec(st, &v.children, Ghost(g), Ghost(acts));
    let ghost done = acts + member_steps(v.children@, 0);
    match ids_of_exec(v, vs, 1) {
        Some(segments) => {
            let name = McIds { segments }.to_string();
            let sp = span_exec(v);
            step_whole(st, name.as_str(), sp, Ghost(g), Ghost(done));
            assert(done.push(ParseStep::Whole(name@, sp)) =~= acts + vector_steps(*d));
        },
        None => {
            assert(done + Seq::<ParseStep>::empty() =~= acts + vector_steps(*d));
        },
    }
}

/// The span a typed declaration's name gets (see [`name_span`]).
fn name_span_exec(pos: u32, name: &str) -> (r: (usize, usize))
    ensures
        r == name_span(pos, name@),
{
    let l = utf8_len_capped(name);
    let pu = pos as usize;
    let start = if l < usize::MAX - 2 && pu > l + 2 {
        pu - (l + 2)
    } else {
        pu
    };
    (start, start.saturating_add(l))
}

fn register_exec(
    st: &mut McParamDeclares,
    n: &SyntaxNode,
    kids: &Vec<SyntaxNode>,
    from: usize,
    pt: &McParamType,
    prefer: &Option<String>,
    enums: &EnumClasses,
    Ghost(g): Ghost<Start>,
    Ghost(acts): Ghost<Seq<ParseStep>>,
)
    requires
        at(*old(st), g, acts),
        from <= kids@.len(),
        no_empty_param(*n),
        spans_fit(*n),
    ensures
        at(
            *final(st),
            g,
            acts + register_steps(*n, kids@.skip(from as int), *pt, opt_text(*prefer), enums@),
        ),
        final(st).net_ref_spans@ == old(st).net_ref_spans@,
        final(st).enclosing_component_name == old(st).enclosing_component_name,
{
    proof {
        if n.kind == NodeKind::Param {
            assert(no_empty_param(n.children@[0]));
            lemma_no_stall(n.children@[0]);
        }
    }
    let ghost res = node_decl_in(*n, kids@.skip(from as int), opt_text(*prefer), enums@, pt.kind@);
    let pc = pt.copy();
    let ghost pcg = pc;
    match McParamDeclare::from_node_in(n, kids, from, prefer, pc, enums) {
        Ok(d) => {
            let ghost shape = res->Ok_0;
            proof {
                lemma_has_shape_same_type(d, shape, pcg, *pt);
                lemma_shape_primary(d);
            }
            let ghost mut done = acts;
            match d.get_primary_name() {
                Some(name) => {
                    let sp = name_span_exec(n.pos, name.as_str());
                    step_store(st, name.as_str(), sp, Ghost(g), Ghost(done));
                    proof {
                        done = done.push(ParseStep::Store(name@, sp));
                    }
                },
                None => {},
            }
            let ghost d1 = done;
            vector_exec(st, n, Ghost(g), Ghost(d1));
            let ghost d2 = d1 + vector_steps(*n);
            step_push(st, d, Ghost(shape), Ghost(*pt), Ghost(g), Ghost(d2));
            assert(d2.push(ParseStep::Push(shape, *pt)) =~= acts + register_steps(
                *n,
                kids@.skip(from as int),
                *pt,
                opt_text(*prefer),
                enums@,
            ));
        },
        Err(_) => {
            assert(acts + Seq::<ParseStep>::empty() =~= acts);
        },
    }
}

fn members_span_exec(
    st: &mut McParamDeclares,
    members: &Vec<McIds>,
    sp: (usize, usize),
    Ghost(g): Ghost<Start>,
    Ghost(acts): Ghost<Seq<ParseStep>>,
)
    requires
        at(*old(st), g, acts),
    ensures
        at(*final(st), g, acts + members_span_steps(ids_list(members@), sp)),
        final(st).net_ref_spans@ == old(st).net_ref_spans@,
        final(st).enclosing_component_name == old(st).enclosing_component_name,
{
    let ghost ms = ids_list(members@);
    let ghost mut done = acts;
    let mut k: usize = 0;
    while k < members.len()
        invariant
            k <= members@.len(),
            ms == ids_list(members@),
            at(*st, g, done),
            done == acts + members_span_steps(ms.take(k as int), sp),
            st.net_ref_spans@ == old(st).net_ref_spans@,
            st.enclosing_component_name == old(st).enclosing_component_name,
        decreases members@.len() - k,
    {
        assert(ms.take(k + 1).drop_last() =~= ms.take(k as int));
        assert(ms.take(k + 1).last() == members@[k as int]@);
        match members[k].get_primary_name() {
            Some(name) => {
                step_store(st, name.as_str(), sp, Ghost(g), Ghost(done));
                proof {
                    done = done.push(ParseStep::Store(name@, sp));
                }
            },
            None => {},
        }
        assert(done =~= acts + members_span_steps(ms.take(k + 1), sp));
        k += 1;
    }
    assert(ms.take(members@.len() as int) =~= ms);
}

fn io_item_exec(
    st: &mut McParamDeclares,
    c: &SyntaxNode,
    kids: &Vec<SyntaxNode>,
    from: usize,
    pt: &McParamType,
    prefer: &Option<String>,
    enums: &EnumClasses,
    Ghost(g): Ghost<Start>,
    Ghost(acts): Ghost<Seq<ParseStep>>,
)
    requires
        at(*old(st), g, acts),
        from <= kids@.len(),
        readable(*c),
    ensures
        at(
            *final(st),
            g,
            acts + io_item_steps(*c, kids@.skip(from as int), *pt, opt_text(*prefer), enums@),
        ),
        final(st).net_ref_spans@ == old(st).net_ref_spans@,
        final(st).enclosing_component_name == old(st).enclosing_component_name,
{
    let ghost steps = io_item_steps(*c, kids@.skip(from as int), *pt, opt_text(*prefer), enums@);
    if c.kind == NodeKind::Id || c.kind == NodeKind::Ida || c.kind == NodeKind::Ids {
        let ghost res = node_decl_in(*c, kids@.skip(from as int), opt_text(*prefer), enums@, pt.kind@);
        let pc = pt.copy();
        let ghost pcg = pc;
        match McParamDeclare::from_node_in(c, kids, from, prefer, pc, enums) {
            Ok(d) => {
                let ghost shape = res->Ok_0;
                proof {
                    lemma_has_shape_same_type(d, shape, pcg, *pt);
                    lemma_shape_primary(d);
                }
                let ghost mut done = acts;
                match d.get_primary_name() {
                    Some(name) => {
                        let sp = span_exec(c);
                        step_store(st, name.as_str(), sp, Ghost(g), Ghost(done));
                        proof {
                            done = done.push(ParseStep::Store(name@, sp));
                        }
                    },
                    None => {},
                }
                let ghost d1 = done;
                step_push(st, d, Ghost(shape), Ghost(*pt), Ghost(g), Ghost(d1));
                assert(d1.push(ParseStep::Push(shape, *pt)) =~= acts + steps);
            },
            Err(_) => {
                assert(acts + Seq::<ParseStep>::empty() =~= acts);
            },
        }
    } else if c.kind == NodeKind::Opd || c.kind == NodeKind::SquareVec || c.kind
        == NodeKind::OpdSquareVec {
        let (t, tk, tf): (&SyntaxNode, &Vec<SyntaxNode>, usize) = if c.kind == NodeKind::SquareVec
            || c.kind == NodeKind::OpdSquareVec {
            (c, kids, from)
        } else {
            let (c1, c1k, c1f): (&SyntaxNode, &Vec<SyntaxNode>, usize) = if c.children.len() > 0 {
                (&c.children[0], &c.children, 1)
            } else {
                (c, kids, from)
            };
            if c1.kind == NodeKind::Opd && c1.children.len() > 0 {
                (&c1.children[0], &c1.children, 1)
            } else {
                (c1, c1k, c1f)
            }
        };
        assert(operand_target(*c, kids@.skip(from as int)) == (*t, tk@.skip(tf as int)));
        proof {
            assert(no_empty_param(*c));
            if c.children@.len() > 0 {
                assert(no_empty_param(c.children@[0]));
                if c.children@[0].children@.len() > 0 {
                    assert(no_empty_param(c.children@[0].children@[0]));
                }
            }
            assert(no_empty_param(*t));
            if t.kind == NodeKind::Param {
                assert(no_empty_param(t.children@[0]));
                lemma_no_stall(t.children@[0]);
            }
        }
        let ghost res = node_decl_in(*t, tk@.skip(tf as int), opt_text(*prefer), enums@, pt.kind@);
        let pc = pt.copy();
        let ghost pcg = pc;
        match McParamDeclare::from_node_in(t, tk, tf, prefer, pc, enums) {
            Ok(d) => {
                let ghost shape = res->Ok_0;
                proof {
                    lemma_has_shape_same_type(d, shape, pcg, *pt);
                    lemma_shape_primary(d);
                }
                let sp = span_exec(c);
                let ghost mut done = acts;
                match &d.kind {
                    McParamDeclareKind::Multiple(members) => {
                        members_span_exec(st, members, sp, Ghost(g), Ghost(done));
                        proof {
                            done = done + members_span_steps(ids_list(members@), sp);
                        }
                    },
                    _ => {
                        match d.get_primary_name() {
                            Some(name) => {
                                step_store(st, name.as_str(), sp, Ghost(g), Ghost(done));
                                proof {
                                    done = done.push(ParseStep::Store(name@, sp));
                                }
                            },
                            None => {},
                        }
                    },
                }
                let ghost d1 = done;
                step_push(st, d, Ghost(shape), Ghost(*pt), Ghost(g), Ghost(d1));
                assert(d1.push(ParseStep::Push(shape, *pt)) =~= acts + steps);
            },
            Err(_) => {
                assert(acts + Seq::<ParseStep>::empty() =~= acts);
            },
        }
    } else if c.kind == NodeKind::Declare {
        register_exec(st, c, kids, from, pt, prefer, enums, Ghost(g), Ghost(acts));
    } else {
        assert(acts + Seq::<ParseStep>::empty() =~= acts);
    }
}

/// The entry `ps[i]` as the list reader sees it: the node below its
/// parameter wrappers, with that node's siblings.
pub open spec fn entry_inner(ps: Seq<SyntaxNode>, i: int) -> (SyntaxNode, Seq<SyntaxNode>) {
    if ps[i].kind == NodeKind::Param && ps[i].children@.len() > 0 {
        crate::node_decl::descend(ps[i].children@[0], ps[i].children@.skip(1))
    } else {
        (ps[i], ps.skip(i + 1))
    }
}

fn entry_inner_exec<'a>(params: &'a Vec<SyntaxNode>, i: usize) -> (r: (&'a SyntaxNode, &'a Vec<SyntaxNode>, usize))
    requires
        i < params@.len(),
        readable(params@[i as int]),
    ensures
        r.2 <= r.1@.len(),
        readable(*r.0),
        entry_inner(params@, i as int) == (*r.0, r.1@.skip(r.2 as int)),
{
    let len = params.len();
    assert(i < len);
    let pn = &params[i];
    if pn.kind == NodeKind::Param && pn.children.len() > 0 {
        let mut s: &SyntaxNode = &pn.children[0];
        let mut k: &Vec<SyntaxNode> = &pn.children;
        let mut f: usize = 1;
        assert(readable(pn.children@[0]));
        while s.kind == NodeKind::Param && s.children.len() > 0
            invariant
                f <= k@.len(),
                readable(*s),
                crate::node_decl::descend(*s, k@.skip(f as int)) == crate::node_decl::descend(
                    pn.children@[0],
                    pn.children@.skip(1),
                ),
            decreases *s,
        {
            assert(readable(s.children@[0]));
            k = &s.children;
            s = &s.children[0];
            f = 1;
        }
        (s, k, f)
    } else {
        (pn, params, i + 1)
    }
}

/// The state of a list reading: the list `st` is the start after `done`,
/// and `done` followed by the steps of the entries from `i` on is the whole
/// reading.
pub open spec fn reading(
    st: McParamDeclares,
    g: Start,
    done: Seq<ParseStep>,
    params: Seq<SyntaxNode>,
    types: Seq<McParamType>,
    i: int,
    pf: Option<Seq<char>>,
    enums: Seq<(Seq<char>, Seq<Seq<char>>)>,
    total: Seq<ParseStep>,
) -> bool {
    at(st, g, done) && done + list_steps(params, types, i, pf, enums) == total
}

#[verifier::rlimit(60)]
fn parse_simple_entry(
    st: &mut McParamDeclares,
    params: &Vec<SyntaxNode>,
    types: &Vec<McParamType>,
    i: usize,
    prefer: &Option<String>,
    enums: &EnumClasses,
    Ghost(g): Ghost<Start>,
    Ghost(done): Ghost<Seq<ParseStep>>,
    Ghost(total): Ghost<Seq<ParseStep>>,
) -> (r: Ghost<Seq<ParseStep>>)
    requires
        i < params@.len(),
        types@.len() == params@.len(),
        forall|q: int| 0 <= q < params@.len() ==> readable(#[trigger] params@[q]),
        reading(*old(st), g, done, params@, types@, i as int, opt_text(*prefer), enums@, total),
        entry_inner(params@, i as int).0.kind != NodeKind::IoType,
    ensures
        reading(*final(st), g, r@, params@, types@, i + 1, opt_text(*prefer), enums@, total),
        final(st).net_ref_spans@ == old(st).net_ref_spans@,
        final(st).enclosing_component_name == old(st).enclosing_component_name,
{
    let ghost pf = opt_text(*prefer);
    let len = params.len();
    assert(i < len);
    let pn = &params[i];
    let pt = &types[i];
    assert(readable(params@[i as int]));
    let ghost rest = list_steps(params@, types@, i as int, pf, enums@);
    let ghost sibs = params@.skip(i + 1);
    let (inner, ik, ifrom) = entry_inner_exec(params, i);
    let ghost isibs = ik@.skip(ifrom as int);
    let ghost mut cur = done;
    if inner.kind == NodeKind::Id || inner.kind == NodeKind::Ida || inner.kind == NodeKind::Ids {
        match ids_of_exec(inner, ik, ifrom) {
            Some(segments) => {
                let name = McIds { segments }.to_string();
                let sp = span_exec(inner);
                step_store(st, name.as_str(), sp, Ghost(g), Ghost(cur));
                proof {
                    cur = cur.push(ParseStep::Store(name@, sp));
                }
            },
            None => {},
        }
        let ghost d1 = cur;
        declare_exec(st, pn, params, i + 1, pt, prefer, enums, Ghost(g), Ghost(d1));
        proof {
            cur = d1 + declare_steps(*pn, sibs, *pt, pf, enums@);
            assert(cur + list_steps(params@, types@, i + 1, pf, enums@) =~= done + rest);
        }
    } else if inner.kind == NodeKind::DeclareUv {
        let ghost res = node_decl_in(*inner, isibs, pf, enums@, pt.kind@);
        let pc = pt.copy();
        let ghost pcg = pc;
        match McParamDeclare::from_node_in(inner, ik, ifrom, prefer, pc, enums) {
            Ok(d) => {
                let ghost shape = res->Ok_0;
                proof {
                    lemma_has_shape_same_type(d, shape, pcg, *pt);
                    lemma_shape_primary(d);
                }
                match d.get_primary_name() {
                    Some(name) => {
                        let sp = name_span_exec(inner.pos, name.as_str());
                        step_store(st, name.as_str(), sp, Ghost(g), Ghost(cur));
                        proof {
                            cur = cur.push(ParseStep::Store(name@, sp));
                        }
                    },
                    None => {},
                }
                let ghost d1 = cur;
                step_push(st, d, Ghost(shape), Ghost(*pt), Ghost(g), Ghost(d1));
                proof {
                    cur = d1.push(ParseStep::Push(shape, *pt));
                }
            },
            Err(_) => {
                let ghost d1 = cur;
                declare_exec(st, pn, params, i + 1, pt, prefer, enums, Ghost(g), Ghost(d1));
                proof {
                    cur = d1 + declare_steps(*pn, sibs, *pt, pf, enums@);
                }
            },
        }
        assert(cur + list_steps(params@, types@, i + 1, pf, enums@) =~= done + rest);
    } else if inner.kind == NodeKind::Declare {
        register_exec(st, inner, ik, ifrom, pt, prefer, enums, Ghost(g), Ghost(cur));
        proof {
            cur = done + register_steps(*inner, isibs, *pt, pf, enums@);
            assert(cur + list_steps(params@, types@, i + 1, pf, enums@) =~= done + rest);
        }
    } else if inner.kind == NodeKind::SquareVec {
        assert forall|j: int| 0 <= j < inner.children@.len() implies spans_fit(
            #[trigger] inner.children@[j],
        ) by {}
        member_steps_exec(st, &inner.children, Ghost(g), Ghost(cur));
        let ghost d1 = done + member_steps(inner.children@, 0);
        declare_exec(st, pn, params, i + 1, pt, prefer, enums, Ghost(g), Ghost(d1));
        proof {
            cur = d1 + declare_steps(*pn, sibs, *pt, pf, enums@);
            assert(cur + list_steps(params@, types@, i + 1, pf, enums@) =~= done + rest);
        }
    } else {
        declare_exec(st, pn, params, i + 1, pt, prefer, enums, Ghost(g), Ghost(cur));
        proof {
            cur = done + declare_steps(*pn, sibs, *pt, pf, enums@);
            assert(cur + list_steps(params@, types@, i + 1, pf, enums@) =~= done + rest);
        }
    }
    Ghost(cur)
}

#[verifier::rlimit(60)]
fn parse_io_entry(
    st: &mut McParamDeclares,
    params: &Vec<SyntaxNode>,
    types: &Vec<McParamType>,
    i: usize,
    prefer: &Option<String>,
    enums: &EnumClasses,
    Ghost(g): Ghost<Start>,
    Ghost(done): Ghost<Seq<ParseStep>>,
    Ghost(total): Ghost<Seq<ParseStep>>,
) -> (r: (usize, Ghost<Seq<ParseStep>>))
    requires
        i < params@.len(),
        types@.len() == params@.len(),
        forall|q: int| 0 <= q < params@.len() ==> readable(#[trigger] params@[q]),
        reading(*old(st), g, done, params@, types@, i as int, opt_text(*prefer), enums@, total),
        entry_inner(params@, i as int).0.kind == NodeKind::IoType,
    ensures
        i < r.0 <= params@.len(),
        reading(*final(st), g, r.1@, params@, types@, r.0 as int, opt_text(*prefer), enums@, total),
        final(st).net_ref_spans@ == old(st).net_ref_spans@,
        final(st).enclosing_component_name == old(st).enclosing_component_name,
{
    let ghost pf = opt_text(*prefer);
    let n = params.len();
    let pt = &types[i];
    let ghost rest = list_steps(params@, types@, i as int, pf, enums@);
    let (inner, _, _) = entry_inner_exec(params, i);
    let ghost mut cur = done;
    let mut j: usize = i + 1;
    while j < n && params[j].kind != NodeKind::IoType
        invariant
            i + 1 <= j <= n,
            n == params@.len(),
            next_io(params@, i + 1) == next_io(params@, j as int),
        decreases n - j,
    {
        j += 1;
    }
    assert(next_io(params@, i + 1) == j);
    if j > i + 1 {
        let mut k: usize = i + 1;
        while k < j
            invariant
                i + 1 <= k <= j <= n,
                n == params@.len(),
                types@.len() == n,
                forall|q: int| 0 <= q < params@.len() ==> readable(#[trigger] params@[q]),
                pf == opt_text(*prefer),
                at(*st, g, cur),
                cur + io_list_steps(params@, types@, k as int, j as int, pf, enums@) == done
                    + io_list_steps(params@, types@, i + 1, j as int, pf, enums@),
                st.net_ref_spans@ == old(st).net_ref_spans@,
                st.enclosing_component_name == old(st).enclosing_component_name,
            decreases j - k,
        {
            let ghost dk = cur;
            assert(readable(params@[k as int]));
            io_item_exec(st, &params[k], params, k + 1, &types[k], prefer, enums, Ghost(g), Ghost(cur));
            proof {
                cur = dk + io_item_steps(params@[k as int], params@.skip(k + 1), types@[k as int], pf, enums@);
                assert(cur + io_list_steps(params@, types@, k + 1, j as int, pf, enums@) =~= dk
                    + io_list_steps(params@, types@, k as int, j as int, pf, enums@));
            }
            k += 1;
        }
        proof {
            assert(cur + io_list_steps(params@, types@, j as int, j as int, pf, enums@) =~= cur);
            assert(cur + list_steps(params@, types@, j as int, pf, enums@) =~= done + rest);
        }
        (j, Ghost(cur))
    } else {
        let own = &inner.children;
        let mut m: usize = 1;
        assert(done + io_own_steps(own@, 1, *pt, pf, enums@) =~= cur + io_own_steps(own@, m as int, *pt, pf, enums@));
        while m < own.len()
            invariant
                1 <= m,
                own == inner.children,
                readable(*inner),
                pf == opt_text(*prefer),
                at(*st, g, cur),
                cur + io_own_steps(own@, m as int, *pt, pf, enums@) == done + io_own_steps(
                    own@,
                    1,
                    *pt,
                    pf,
                    enums@,
                ),
                st.net_ref_spans@ == old(st).net_ref_spans@,
                st.enclosing_component_name == old(st).enclosing_component_name,
            decreases own@.len() - m,
        {
            let ghost dm = cur;
            assert(spans_fit(own@[m as int]) && no_empty_param(own@[m as int]));
            io_item_exec(st, &own[m], own, m + 1, pt, prefer, enums, Ghost(g), Ghost(cur));
            proof {
                cur = dm + io_item_steps(own@[m as int], own@.skip(m + 1), *pt, pf, enums@);
                assert(cur + io_own_steps(own@, m + 1, *pt, pf, enums@) =~= dm + io_own_steps(
                    own@,
                    m as int,
                    *pt,
                    pf,
                    enums@,
                ));
            }
            m += 1;
        }
        proof {
            assert(cur + io_own_steps(own@, m as int, *pt, pf, enums@) =~= cur);
            assert(cur + list_steps(params@, types@, i + 1, pf, enums@) =~= done + rest);
        }
        (i + 1, Ghost(cur))
    }
}

impl McParamDeclares {
    /// Reads a parameter list (see [`list_steps`]): `params` are the list's
    /// entries and `types[i]` the type classification of `params[i]` (and,
    /// for a direction word, of the operands it holds itself). Every
    /// declaration is added in order, each declared name's definition span
    /// is recorded, and under its port key its port span.
    pub fn parse(&mut self, params: &Vec<SyntaxNode>, types: &Vec<McParamType>, enums: &EnumClasses)
        requires
            old(self).wf(),
            types@.len() == params@.len(),
            forall|i: int| 0 <= i < params@.len() ==> readable(#[trigger] params@[i]),
        ensures
            at(
                *final(self),
                (old(self).declares@, old(self).def_spans@, old(self).port_spans@),
                list_steps(
                    params@,
                    types@,
                    0,
                    root_of(owned_ids(old(self).enclosing_component_name)),
                    enums@,
                ),
            ),
            final(self).net_ref_spans@ == old(self).net_ref_spans@,
            final(self).enclosing_component_name == old(self).enclosing_component_name,
    {
        let prefer: Option<String> = match &self.enclosing_component_name {
            Some(e) => e.root_name(),
            None => None,
        };
        let ghost pf = opt_text(prefer);
        assert(pf == root_of(owned_ids(self.enclosing_component_name)));
        let ghost g: Start = (self.declares@, self.def_spans@, self.port_spans@);
        let ghost total = list_steps(params@, types@, 0, pf, enums@);
        let ghost mut done = Seq::<ParseStep>::empty();
        proof {
            assert(self.declares@.take(g.0.len() as int) =~= g.0);
            assert(pushes(done) =~= Seq::<(DeclShape, McParamType)>::empty());
            assert(done + total =~= total);
        }
        let n = params.len();
        let mut i: usize = 0;
        while i < n
            invariant
                i <= n,
                n == params@.len(),
                types@.len() == n,
                forall|q: int| 0 <= q < params@.len() ==> readable(#[trigger] params@[q]),
                pf == opt_text(prefer),
                reading(*self, g, done, params@, types@, i as int, pf, enums@, total),
                self.net_ref_spans@ == old(self).net_ref_spans@,
                self.enclosing_component_name == old(self).enclosing_component_name,
            decreases n - i,
        {
            let (inner, _, _) = entry_inner_exec(params, i);
            if inner.kind == NodeKind::IoType {
                let (next, d) = parse_io_entry(self, params, types, i, &prefer, enums, Ghost(g), Ghost(done), Ghost(total));
                proof {
                    done = d@;
                }
                i = next;
            } else {
                let d = parse_simple_entry(self, params, types, i, &prefer, enums, Ghost(g), Ghost(done), Ghost(total));
                proof {
                    done = d@;
                }
                i += 1;
            }
        }
        assert(done + list_steps(params@, types@, n as int, pf, enums@) =~= done);
    }
}

} // verus!
