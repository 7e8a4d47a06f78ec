//! Which class names a call expression registers for navigation.
//!
//! A call node's sub-nodes are an optional instance (`uC` in `uC.i2c(..)`,
//! or a nested call in `RES(10k).Pullup()`) and the called name. Whether a
//! name is a known instance is asked of the scope; [`fcall_queries`] gives
//! the names to ask about and [`register_choice`] decides from the answers.
use vstd::prelude::*;
use crate::mc_ida::parse_ida;
use crate::mc_ids::{ids_text, IdsSegModel, McIds};
use crate::node_ids::{ids_of, ids_of_exec};
use crate::syntax::{NodeKind, SyntaxNode};
use crate::text::{push_char, push_str};

verus! {

/// Every node of the tree ends within the `u32` offsets.
pub open spec fn spans_fit(n: SyntaxNode) -> bool
    decreases n,
{
    &&& n.pos + n.len <= u32::MAX
    &&& forall|i: int| 0 <= i < n.children@.len() ==> spans_fit(#[trigger] n.children@[i])
}

/// The source span of a node, as start and end offsets.
pub open spec fn node_span(n: SyntaxNode) -> (usize, usize) {
    (n.pos as usize, (n.pos + n.len) as usize)
}

/// What the sub-nodes `kids` of a call say: whether an instance is written,
/// the identifier of the last instance that names one through an operand,
/// the span of the last instance, and the last called name with its span.
pub open spec fn head_scan(kids: Seq<SyntaxNode>) -> (
    bool,
    Option<Seq<IdsSegModel>>,
    Option<(usize, usize)>,
    Option<(Seq<IdsSegModel>, (usize, usize))>,
)
    decreases kids.len(),
{
    if kids.len() == 0 {
        (false, None, None, None)
    } else {
        let (h, i, s, c) = head_scan(kids.drop_last());
        let k = kids.last();
        if k.kind == NodeKind::Instance {
            let named = if k.children@.len() > 0 && k.children@[0].kind == NodeKind::Opd
                && k.children@[0].children@.len() > 0 {
                ids_of(k.children@[0].children@[0], k.children@[0].children@.skip(1))
            } else {
                None
            };
            (true, if named is Some {
                named
            } else {
                i
            }, Some(node_span(k)), c)
        } else if k.kind == NodeKind::Name && k.children@.len() > 0 {
            match ids_of(k.children@[0], k.children@.skip(1)) {
                Some(n) => (h, i, s, Some((n, node_span(k.children@[0])))),
                None => (h, i, s, c),
            }
        } else {
            (h, i, s, c)
        }
    }
}

/// The names registered from the called-name sub-nodes of `kids`.
pub open spec fn name_regs(kids: Seq<SyntaxNode>) -> Seq<(Seq<IdsSegModel>, (usize, usize))>
    decreases kids.len(),
{
    if kids.len() == 0 {
        Seq::empty()
    } else {
        let k = kids.last();
        name_regs(kids.drop_last()) + (if k.kind == NodeKind::Name && k.children@.len() > 0 {
            match ids_of(k.children@[0], k.children@.skip(1)) {
                Some(n) => seq![(n, node_span(k.children@[0]))],
                None => Seq::empty(),
            }
        } else {
            Seq::empty()
        })
    }
}

/// The names a chained call registers: for each instance sub-node, the
/// called names of the call it wraps.
pub open spec fn chained_regs(kids: Seq<SyntaxNode>) -> Seq<(Seq<IdsSegModel>, (usize, usize))>
    decreases kids.len(),
{
    if kids.len() == 0 {
        Seq::empty()
    } else {
        let k = kids.last();
        chained_regs(kids.drop_last()) + (if k.kind == NodeKind::Instance && k.children@.len()
            > 0 {
            let inner = k.children@[0];
            if inner.kind == NodeKind::Opd {
                if inner.children@.len() > 0 {
                    name_regs(inner.children@[0].children@)
                } else {
                    Seq::empty()
                }
            } else {
                name_regs(inner.children@)
            }
        } else {
            Seq::empty()
        })
    }
}

/// The class names a call registers, given whether its instance name
/// (`inst_known`) and its called name (`class_known`) are known instances
/// of the scope. A call on a known instance, or on a nested call, is a
/// method call; a call of a known instance's name constructs it; anything
/// else names a class, dotted with the instance name when there is one,
/// spanning from the instance. A method call on a nested call registers the
/// nested call's class names.
pub open spec fn register_spec(n: SyntaxNode, inst_known: bool, class_known: bool) -> Seq<
    (Seq<IdsSegModel>, (usize, usize)),
> {
    let (has_inst, inst, inst_span, class) = head_scan(n.children@);
    let is_method = has_inst && (inst is None || inst_known);
    let is_ctor = !has_inst && class is Some && class_known;
    if !is_method && !is_ctor {
        match class {
            Some((name, span)) => {
                let full = match inst {
                    Some(i) => seq![IdsSegModel::Ida(parse_ida(ids_text(i) + "."@ + ids_text(name)))],
                    None => name,
                };
                let full_span = match (inst, inst_span) {
                    (Some(_), Some(is)) => if is.0 <= span.0 {
                        (is.0, span.1)
                    } else {
                        span
                    },
                    _ => span,
                };
                seq![(full, full_span)]
            },
            None => Seq::empty(),
        }
    } else if is_method && inst is None {
        chained_regs(n.children@)
    } else {
        Seq::empty()
    }
}

/// The texts whose instance status the decision reads: the instance name
/// and the called name, where written.
pub open spec fn queries_spec(n: SyntaxNode) -> (Option<Seq<char>>, Option<Seq<char>>) {
    let (_, inst, _, class) = head_scan(n.children@);
    (
        match inst {
            Some(i) => Some(ids_text(i)),
            None => None,
        },
        match class {
            Some((c, _)) => Some(ids_text(c)),
            None => None,
        },
    )
}

/// One registration: a class name and its span.
pub open spec fn reg_models(v: Seq<(McIds, (usize, usize))>) -> Seq<(Seq<IdsSegModel>, (usize, usize))> {
    v.map_values(|r: (McIds, (usize, usize))| (r.0@, r.1))
}

fn span_exec(n: &SyntaxNode) -> (r: (usize, usize))
    requires
        n.pos + n.len <= u32::MAX,
    ensures
        r == node_span(*n),
{
    let end: u32 = n.pos + n.len;
    (n.pos as usize, end as usize)
}

fn ids_exec(n: &SyntaxNode, kids: &Vec<SyntaxNode>, from: usize) -> (r: Option<McIds>)
    requires
        from <= kids@.len(),
    ensures
        match r {
            Some(x) => ids_of(*n, kids@.skip(from as int)) == Some(x@),
            None => ids_of(*n, kids@.skip(from as int)) is None,
        },
{
    match ids_of_exec(n, kids, from) {
        Some(segments) => Some(McIds { segments }),
        None => None,
    }
}

struct Head {
    has_inst: bool,
    inst: Option<McIds>,
    inst_span: Option<(usize, usize)>,
    class: Option<(McIds, (usize, usize))>,
}

spec fn head_model(h: Head) -> (
    bool,
    Option<Seq<IdsSegModel>>,
    Option<(usize, usize)>,
    Option<(Seq<IdsSegModel>, (usize, usize))>,
) {
    (
        h.has_inst,
        match h.inst {
            Some(i) => Some(i@),
            None => None,
        },
        h.inst_span,
        match h.class {
            Some((c, s)) => Some((c@, s)),
            None => None,
        },
    )
}

fn head_exec(n: &SyntaxNode) -> (r: Head)
    requires
        spans_fit(*n),
    ensures
        head_model(r) == head_scan(n.children@),
{
    let kids = &n.children;
    let mut h = Head { has_inst: false, inst: None, inst_span: None, class: None };
    let mut i: usize = 0;
    while i < kids.len()
        invariant
            i <= kids@.len(),
            kids == n.children,
            spans_fit(*n),
            head_model(h) == head_scan(kids@.take(i as int)),
        decreases kids@.len() - i,
    {
        assert(kids@.take(i + 1).drop_last() =~= kids@.take(i as int));
        assert(kids@.take(i + 1).last() == kids@[i as int]);
        let k = &kids[i];
        assert(spans_fit(kids@[i as int]));
        if k.kind == NodeKind::Instance {
            let named = if k.children.len() > 0 && k.children[0].kind == NodeKind::Opd
                && k.children[0].children.len() > 0 {
                ids_exec(&k.children[0].children[0], &k.children[0].children, 1)
            } else {
                None
            };
            h.has_inst = true;
            if named.is_some() {
                h.inst = named;
            }
            h.inst_span = Some(span_exec(k));
        } else if k.kind == NodeKind::Name && k.children.len() > 0 {
            assert(spans_fit(k.children@[0]));
            match ids_exec(&k.children[0], &k.children, 1) {
                Some(c) => {
                    let sp = span_exec(&k.children[0]);
                    h.class = Some((c, sp));
                },
                None => {},
            }
        }
        i += 1;
    }
    assert(kids@.take(kids@.len() as int) =~= kids@);
    h
}

fn name_regs_exec(n: &SyntaxNode, out: &mut Vec<(McIds, (usize, usize))>)
    requires
        spans_fit(*n),
    ensures
        reg_models(final(out)@) == reg_models(old(out)@) + name_regs(n.children@),
{
    let kids = &n.children;
    let ghost start = reg_models(out@);
    let mut i: usize = 0;
    while i < kids.len()
        invariant
            i <= kids@.len(),
            kids == n.children,
            spans_fit(*n),
            reg_models(out@) == start + name_regs(kids@.take(i as int)),
        decreases kids@.len() - i,
    {
        assert(kids@.take(i + 1).drop_last() =~= kids@.take(i as int));
        assert(kids@.take(i + 1).last() == kids@[i as int]);
        let k = &kids[i];
        assert(spans_fit(kids@[i as int]));
        let ghost before = out@;
        if k.kind == NodeKind::Name && k.children.len() > 0 {
            assert(spans_fit(k.children@[0]));
            match ids_exec(&k.children[0], &k.children, 1) {
                Some(c) => {
                    let sp = span_exec(&k.children[0]);
                    let ghost cm = c@;
                    out.push((c, sp));
                    assert(out@ =~= before.push((c, sp)));
                    assert(reg_models(before.push((c, sp))) =~= reg_models(before).push((cm, sp)));
                },
                None => {},
            }
        }
        assert(reg_models(out@) =~= start + name_regs(kids@.take(i + 1)));
        i += 1;
    }
    assert(kids@.take(kids@.len() as int) =~= kids@);
}

fn chained_regs_exec(n: &SyntaxNode) -> (r: Vec<(McIds, (usize, usize))>)
    requires
        spans_fit(*n),
    ensures
        reg_models(r@) == chained_regs(n.children@),
{
    let kids = &n.children;
    let mut out: Vec<(McIds, (usize, usize))> = Vec::new();
    let mut i: usize = 0;
    while i < kids.len()
        invariant
            i <= kids@.len(),
            kids == n.children,
            spans_fit(*n),
            reg_models(out@) == chained_regs(kids@.take(i as int)),
        decreases kids@.len() - i,
    {
        assert(kids@.take(i + 1).drop_last() =~= kids@.take(i as int));
        assert(kids@.take(i + 1).last() == kids@[i as int]);
        let k = &kids[i];
        assert(spans_fit(kids@[i as int]));
        let ghost before = reg_models(out@);
        if k.kind == NodeKind::Instance && k.children.len() > 0 {
            let inner = &k.children[0];
            assert(spans_fit(k.children@[0]));
            if inner.kind == NodeKind::Opd {
                if inner.children.len() > 0 {
                    assert(spans_fit(inner.children@[0]));
                    name_regs_exec(&inner.children[0], &mut out);
                } else {
                    assert(before + Seq::<(Seq<IdsSegModel>, (usize, usize))>::empty() =~= before);
                }
            } else {
                name_regs_exec(inner, &mut out);
            }
        } else {
            assert(before + Seq::<(Seq<IdsSegModel>, (usize, usize))>::empty() =~= before);
        }
        i += 1;
    }
    assert(kids@.take(kids@.len() as int) =~= kids@);
    out
}

/// The instance name and the called name of a call node, as texts, where
/// written: the names whose instance status [`register_choice`] reads.
pub fn fcall_queries(node: &SyntaxNode) -> (r: (Option<String>, Option<String>))
    requires
        spans_fit(*node),
    ensures
        (
            match r.0 {
                Some(s) => Some(s@),
                None => None,
            },
            match r.1 {
                Some(s) => Some(s@),
                None => None,
            },
        ) == queries_spec(*node),
{
    let h = head_exec(node);
    (
        match &h.inst {
            Some(i) => Some(i.to_string()),
            None => None,
        },
        match &h.class {
            Some((c, _)) => Some(c.to_string()),
            None => None,
        },
    )
}

/// The class names a call node registers, with their spans (see
/// [`register_spec`]); `inst_known` and `class_known` answer whether the
/// names [`fcall_queries`] gives are known instances.
pub fn register_choice(node: &SyntaxNode, inst_known: bool, class_known: bool) -> (r: Vec<
    (McIds, (usize, usize)),
>)
    requires
        spans_fit(*node),
    ensures
        reg_models(r@) == register_spec(*node, inst_known, class_known),
{
    let h = head_exec(node);
    let is_method = h.has_inst && (h.inst.is_none() || inst_known);
    let is_ctor = !h.has_inst && h.class.is_some() && class_known;
    let mut out: Vec<(McIds, (usize, usize))> = Vec::new();
    if !is_method && !is_ctor {
        match h.class {
            Some((name, span)) => {
                let full_span = match (&h.inst, h.inst_span) {
                    (Some(_), Some(is)) => if is.0 <= span.0 {
                        (is.0, span.1)
                    } else {
                        span
                    },
                    _ => span,
                };
                let full = match &h.inst {
                    Some(i) => {
                        let mut t = i.to_string();
                        push_char(&mut t, '.');
                        let nt = name.to_string();
                        push_str(&mut t, nt.as_str());
                        proof {
                            reveal_strlit(".");
                            assert(t@ =~= ids_text(i@) + "."@ + ids_text(name@));
                        }
                        McIds::from(t.as_str())
                    },
                    None => name,
                };
                let ghost fm = full@;
                out.push((full, full_span));
                assert(reg_models(out@) =~= seq![(fm, full_span)]);
            },
            None => {
                assert(reg_models(out@) =~= register_spec(*node, inst_known, class_known));
            },
        }
        out
    } else if is_method && h.inst.is_none() {
        chained_regs_exec(node)
    } else {
        assert(reg_models(out@) =~= register_spec(*node, inst_known, class_known));
        out
    }
}

} // verus!
