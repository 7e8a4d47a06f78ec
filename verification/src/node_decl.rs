//! Formal parameter declarations read from syntax-tree nodes.
//!
//! The type classification of a declaration (which class, unit or enum its
//! `::` annotation names, its direction) is made by the caller from the
//! same node and handed in; this reader decides the declaration's form,
//! names and default.
use vstd::prelude::*;
use crate::enum_classes::{class_of_member, is_class, is_member, EnumClasses};
use crate::mc_ida::{lemma_texts_push, parse_ida, texts};
use crate::mc_ids::{dot_parts, ids_text, seg_text, IdsSegModel, McIds};
use crate::mc_param_type::{McParamType, McParamTypeKind, TypeKindModel};
use std::ops::Range;
use crate::mc_paramd::{
    decl_primary, port_key, spans_after, spans_under, McParamDeclares, SpanList,
    carried_default, decl_kind_model, ids_list, opt_text, DeclKindModel, McEnumClassDeclare,
    McParamDeclare, McParamDeclareKind, WrittenDefault,
};
use crate::node_ids::{ids_of, ids_of_exec, segs_opt};
use crate::strs::{copy_string, join_sep, join_sep_exec};
use crate::node_fcall::node_span;
use crate::syntax::{NodeKind, SyntaxNode};
use crate::text::{push_char, push_str};

verus! {

/// Why a node declares no parameter.
#[derive(Debug, Clone, Copy, PartialEq, Eq, Structural)]
pub enum DeclError {
    /// A parameter wrapper without a sub-node.
    MissingNode,
    /// The name spells no identifier.
    InvalidName,
    /// A `[...]` formal whose members spell no identifier.
    EmptySet,
    /// A unit-value declaration, which the unit-value reader handles.
    UnitValue,
    /// A typed declaration naming no instance.
    NoInstance,
    /// A node that is no parameter declaration.
    Unsupported,
}

// ---------------------------------------------------------------------------
// Specification
// ---------------------------------------------------------------------------

/// A chain of parameter wrappers that ends in one without a sub-node.
pub open spec fn param_stalls(n: SyntaxNode) -> bool
    decreases n,
{
    n.kind == NodeKind::Param && (n.children@.len() == 0 || param_stalls(n.children@[0]))
}

/// The node below a chain of parameter wrappers, with its siblings.
pub open spec fn descend(n: SyntaxNode, sibs: Seq<SyntaxNode>) -> (SyntaxNode, Seq<SyntaxNode>)
    decreases n,
{
    if n.kind == NodeKind::Param && n.children@.len() > 0 {
        descend(n.children@[0], n.children@.skip(1))
    } else {
        (n, sibs)
    }
}

/// The node that carries a declaration, with the siblings that follow it,
/// for a node followed by the siblings `sibs`.
pub open spec fn decl_head_in(n: SyntaxNode, sibs: Seq<SyntaxNode>) -> Option<(SyntaxNode, Seq<SyntaxNode>)> {
    if n.kind == NodeKind::Param {
        if n.children@.len() > 0 {
            Some(descend(n.children@[0], n.children@.skip(1)))
        } else {
            None
        }
    } else {
        Some((n, sibs))
    }
}

/// The node that carries a declaration, for a node standing alone.
pub open spec fn decl_head(n: SyntaxNode) -> Option<(SyntaxNode, Seq<SyntaxNode>)> {
    decl_head_in(n, Seq::empty())
}

/// The text one part of a dotted path contributes.
pub open spec fn dotted_part(n: SyntaxNode) -> Seq<char> {
    match n.kind {
        NodeKind::Id | NodeKind::Ida => n.text@,
        NodeKind::OpdDot => seq!['.'] + (if n.children@.len() > 0 {
            n.children@[0].text@
        } else {
            Seq::empty()
        }),
        _ => Seq::empty(),
    }
}

/// The texts the parts of a dotted path contribute, joined.
pub open spec fn dotted_parts(kids: Seq<SyntaxNode>) -> Seq<char>
    decreases kids.len(),
{
    if kids.len() == 0 {
        Seq::empty()
    } else {
        dotted_parts(kids.drop_last()) + dotted_part(kids.last())
    }
}

/// The dotted path a node spells (`CAP.X7R`); a node that is no identifier
/// list spells its own text.
pub open spec fn dotted_text(n: SyntaxNode) -> Option<Seq<char>> {
    if n.kind != NodeKind::Ids {
        Some(n.text@)
    } else if dotted_parts(n.children@).len() > 0 {
        Some(dotted_parts(n.children@))
    } else {
        None
    }
}

/// The identifier member `j` of a `[...]` formal spells: that of its first
/// sub-node, or its own when it has none.
pub open spec fn member_ids(kids: Seq<SyntaxNode>, j: int) -> Option<Seq<IdsSegModel>> {
    let p = kids[j];
    if p.children@.len() > 0 {
        ids_of(p.children@[0], p.children@.skip(1))
    } else {
        ids_of(p, kids.skip(j + 1))
    }
}

/// The identifiers members `j..` of a `[...]` formal spell, in order.
pub open spec fn members_from(kids: Seq<SyntaxNode>, j: int) -> Seq<Seq<IdsSegModel>>
    decreases kids.len() - j,
{
    if 0 <= j < kids.len() {
        (match member_ids(kids, j) {
            Some(i) => seq![i],
            None => Seq::empty(),
        }) + members_from(kids, j + 1)
    } else {
        Seq::empty()
    }
}

/// The class a bare enum value belongs to: the preferred class when it
/// lists the value, else the first class that does.
pub open spec fn resolve_preferring(
    enums: Seq<(Seq<char>, Seq<Seq<char>>)>,
    value: Seq<char>,
    prefer: Option<Seq<char>>,
) -> Option<Seq<char>> {
    match prefer {
        Some(p) => if is_member(enums, p, value) {
            Some(p)
        } else {
            class_of_member(enums, value)
        },
        None => class_of_member(enums, value),
    }
}

/// The root name of the enclosing definition, if any.
pub open spec fn root_of(e: Option<Seq<IdsSegModel>>) -> Option<Seq<char>> {
    match e {
        Some(i) => if i.len() > 0 {
            Some(seg_text(i[0]))
        } else {
            None
        },
        None => None,
    }
}

/// A declaration's form, the type class it imposes (if it replaces the
/// caller's), and the default written in the source with its quoting.
pub type DeclShape = (DeclKindModel, Option<TypeKindModel>, Option<(Seq<char>, bool)>);

/// The enum class and value a dotted or bare default names, if any.
pub open spec fn enum_default(
    dids: Seq<IdsSegModel>,
    prefer: Option<Seq<char>>,
    enums: Seq<(Seq<char>, Seq<Seq<char>>)>,
) -> Option<(Seq<char>, Seq<char>)> {
    match dot_parts(dids) {
        Some(parts) => if parts.len() > 1 {
            if is_class(enums, parts[0]) {
                Some((parts[0], join_sep(parts.skip(1), "."@)))
            } else {
                None
            }
        } else {
            match resolve_preferring(enums, ids_text(dids), prefer) {
                Some(c) => Some((c, ids_text(dids))),
                None => None,
            }
        },
        None => None,
    }
}

/// A named formal with the default written after it, if any: an enum value
/// makes it an enum-class declaration; any other default is recorded as
/// written.
pub open spec fn named_decl(
    name: Seq<IdsSegModel>,
    sibs: Seq<SyntaxNode>,
    prefer: Option<Seq<char>>,
    enums: Seq<(Seq<char>, Seq<Seq<char>>)>,
) -> DeclShape {
    if sibs.len() == 0 {
        (DeclKindModel::Single(name), None, None)
    } else {
        let d = sibs[0];
        match ids_of(d, sibs.skip(1)) {
            Some(dids) => match enum_default(dids, prefer, enums) {
                Some((c, v)) => (
                    DeclKindModel::EnumClass(name, c, Some(v)),
                    Some(TypeKindModel::EnumClassDefault(c, v)),
                    None,
                ),
                None => (DeclKindModel::Single(name), None, Some((ids_text(dids), false))),
            },
            None => (DeclKindModel::Single(name), None, Some((d.text@, d.kind == NodeKind::Str))),
        }
    }
}

/// The node that names an instance child of a typed declaration, with its
/// siblings: the instance's first sub-node, or that node's own first
/// sub-node when it is an operand.
pub open spec fn instance_name(c: SyntaxNode) -> Option<(SyntaxNode, Seq<SyntaxNode>)> {
    if c.kind == NodeKind::Instance && c.children@.len() > 0 {
        let inner = c.children@[0];
        if inner.kind == NodeKind::Opd && inner.children@.len() > 0 {
            Some((inner.children@[0], inner.children@.skip(1)))
        } else {
            Some((inner, c.children@.skip(1)))
        }
    } else {
        None
    }
}

/// The text of the first expression among `sibs`.
pub open spec fn first_expression(sibs: Seq<SyntaxNode>) -> Option<Seq<char>>
    decreases sibs.len(),
{
    if sibs.len() == 0 {
        None
    } else if sibs[0].kind == NodeKind::Expression {
        Some(sibs[0].text@)
    } else {
        first_expression(sibs.drop_first())
    }
}

/// The name of the first instance child that spells one, and the default
/// expression of the last instance child that writes one.
pub open spec fn enum_scan(kids: Seq<SyntaxNode>) -> (Option<Seq<IdsSegModel>>, Option<Seq<char>>)
    decreases kids.len(),
{
    if kids.len() == 0 {
        (None, None)
    } else {
        let (n, d) = enum_scan(kids.drop_last());
        match instance_name(kids.last()) {
            Some((m, ms)) => (
                if n is None {
                    ids_of(m, ms)
                } else {
                    n
                },
                match first_expression(ms) {
                    Some(t) => Some(t),
                    None => d,
                },
            ),
            None => (n, d),
        }
    }
}

/// The identifiers the instance children of a typed declaration name; a
/// `[...]` instance name gives one identifier per member.
pub open spec fn instance_ids_all(kids: Seq<SyntaxNode>) -> Seq<Seq<IdsSegModel>>
    decreases kids.len(),
{
    if kids.len() == 0 {
        Seq::empty()
    } else {
        instance_ids_all(kids.drop_last()) + match instance_name(kids.last()) {
            Some((m, ms)) => if m.kind == NodeKind::SquareVec || m.kind == NodeKind::OpdSquareVec {
                members_from(m.children@, 0)
            } else {
                match ids_of(m, ms) {
                    Some(i) => seq![i],
                    None => Seq::empty(),
                }
            },
            None => Seq::empty(),
        }
    }
}

/// The class a declaration's type classification names.
pub open spec fn type_class(k: TypeKindModel) -> Option<Seq<char>> {
    match k {
        TypeKindModel::Interface(c, _) => Some(c),
        TypeKindModel::InterfaceWithRole(c, _) => Some(c),
        TypeKindModel::EnumClass(c) => Some(c),
        TypeKindModel::EnumClassDefault(c, _) => Some(c),
        _ => None,
    }
}

/// A typed declaration: an enum-class formal when its class is an enum and
/// an instance names it, else the instances it names.
pub open spec fn typed_decl(
    s: SyntaxNode,
    enums: Seq<(Seq<char>, Seq<Seq<char>>)>,
    pt: TypeKindModel,
) -> Result<DeclShape, DeclError> {
    let scan = enum_scan(s.children@);
    if type_class(pt) is Some && is_class(enums, type_class(pt)->0) && scan.0 is Some {
        Ok((DeclKindModel::EnumClass(scan.0->0, type_class(pt)->0, scan.1), None, None))
    } else {
        let l = instance_ids_all(s.children@);
        if l.len() == 0 {
            Err(DeclError::NoInstance)
        } else if l.len() == 1 {
            Ok((DeclKindModel::Single(l[0]), None, None))
        } else {
            Ok((DeclKindModel::Multiple(l), None, None))
        }
    }
}

/// The declaration a node standing alone spells (see [`node_decl_in`]).
pub open spec fn node_decl(
    n: SyntaxNode,
    prefer: Option<Seq<char>>,
    enums: Seq<(Seq<char>, Seq<Seq<char>>)>,
    pt: TypeKindModel,
) -> Result<DeclShape, DeclError> {
    node_decl_in(n, Seq::empty(), prefer, enums, pt)
}

/// The declaration a node followed by the siblings `sibs` spells, given
/// the enclosing definition's root name, the known enum classes and the caller's type classification.
pub open spec fn node_decl_in(
    n: SyntaxNode,
    sibs: Seq<SyntaxNode>,
    prefer: Option<Seq<char>>,
    enums: Seq<(Seq<char>, Seq<Seq<char>>)>,
    pt: TypeKindModel,
) -> Result<DeclShape, DeclError> {
    match decl_head_in(n, sibs) {
        None => Err(DeclError::MissingNode),
        Some((s, sibs)) => match s.kind {
            NodeKind::Role => Ok(
                (
                    DeclKindModel::Role(
                        seq![IdsSegModel::Ida(parse_ida("role"@))],
                        if sibs.len() > 0 {
                            match dotted_text(sibs[0]) {
                                Some(t) => Some(seq![IdsSegModel::Ida(parse_ida(t))]),
                                None => None,
                            }
                        } else {
                            None
                        },
                    ),
                    None,
                    None,
                ),
            ),
            NodeKind::Id | NodeKind::Ida | NodeKind::Ids => match ids_of(s, sibs) {
                Some(name) => Ok(named_decl(name, sibs, prefer, enums)),
                None => Err(DeclError::InvalidName),
            },
            NodeKind::SquareVec | NodeKind::OpdSquareVec => if members_from(s.children@, 0).len()
                > 0 {
                Ok((DeclKindModel::Multiple(members_from(s.children@, 0)), None, None))
            } else {
                Err(DeclError::EmptySet)
            },
            NodeKind::Opd => match ids_of(s, sibs) {
                Some(name) => Ok((DeclKindModel::Single(name), None, None)),
                None => Err(DeclError::InvalidName),
            },
            NodeKind::DeclareUv => Err(DeclError::UnitValue),
            NodeKind::Declare => typed_decl(s, enums, pt),
            _ => Err(DeclError::Unsupported),
        },
    }
}

/// Whether a declaration has the shape `shape` with the caller's type
/// classification `pt`: its form, its type class (the shape's, or the
/// caller's), and the default rule of [`McParamDeclare::recorded`].
pub open spec fn has_shape(d: McParamDeclare, shape: DeclShape, pt: McParamType) -> bool {
    let base = McParamDeclare {
        kind: d.kind,
        param_type: d.param_type,
        default_val: None,
        default_quoted: false,
    };
    &&& decl_kind_model(d.kind) == shape.0
    &&& d.param_type.kind@ == (match shape.1 {
        Some(k) => k,
        None => pt.kind@,
    })
    &&& d.param_type.direction == pt.direction
    &&& match carried_default(base) {
        Some((_, dv)) => opt_text(d.default_val) == Some(dv) && !d.default_quoted,
        None => match shape.2 {
            Some((t, q)) => opt_text(d.default_val) == Some(t) && d.default_quoted == q,
            None => d.default_val is None && !d.default_quoted,
        },
    }
}


// ---------------------------------------------------------------------------
// Reading
// ---------------------------------------------------------------------------

/// The shape an assembled form, type class and written default make.
pub open spec fn shape_of(
    k: McParamDeclareKind,
    t: Option<McParamTypeKind>,
    w: Option<WrittenDefault>,
) -> DeclShape {
    (
        decl_kind_model(k),
        match t {
            Some(x) => Some(x@),
            None => None,
        },
        match w {
            Some(x) => Some((x.text@, x.quoted)),
            None => None,
        },
    )
}

fn ids_exec(n: &SyntaxNode, kids: &Vec<SyntaxNode>, from: usize) -> (r: Option<McIds>)
    requires
        from <= kids@.len(),
    ensures
        (match r {
            Some(x) => Some(x@),
            None => None,
        }) == ids_of(*n, kids@.skip(from as int)),
{
    match ids_of_exec(n, kids, from) {
        Some(segments) => Some(McIds { segments }),
        None => None,
    }
}

fn dotted_text_exec(n: &SyntaxNode) -> (r: Option<String>)
    ensures
        opt_text(r) == dotted_text(*n),
{
    if n.kind != NodeKind::Ids {
        return Some(copy_string(&n.text));
    }
    let kids = &n.children;
    let mut out = String::new();
    let mut i: usize = 0;
    while i < kids.len()
        invariant
            i <= kids@.len(),
            kids == n.children,
            out@ == dotted_parts(kids@.take(i as int)),
        decreases kids@.len() - i,
    {
        assert(kids@.take(i + 1).drop_last() =~= kids@.take(i as int));
        let c = &kids[i];
        match c.kind {
            NodeKind::Id | NodeKind::Ida => {
                push_str(&mut out, c.text.as_str());
            },
            NodeKind::OpdDot => {
                push_char(&mut out, '.');
                if c.children.len() > 0 {
                    push_str(&mut out, c.children[0].text.as_str());
                }
            },
            _ => {},
        }
        assert(out@ =~= dotted_parts(kids@.take(i + 1)));
        i += 1;
    }
    assert(kids@.take(kids@.len() as int) =~= kids@);
    if out.as_str().unicode_len() > 0 {
        Some(out)
    } else {
        None
    }
}

fn members_exec(kids: &Vec<SyntaxNode>) -> (r: Vec<McIds>)
    ensures
        ids_list(r@) == members_from(kids@, 0),
{
    let mut out: Vec<McIds> = Vec::new();
    let mut j: usize = 0;
    let n = kids.len();
    while j < n
        invariant
            j <= n,
            n == kids@.len(),
            ids_list(out@) + members_from(kids@, j as int) == members_from(kids@, 0),
        decreases n - j,
    {
        let p = &kids[j];
        let m = if p.children.len() > 0 {
            ids_exec(&p.children[0], &p.children, 1)
        } else {
            ids_exec(p, kids, j + 1)
        };
        let ghost before = ids_list(out@);
        match m {
            Some(x) => {
                out.push(x);
            },
            None => {},
        }
        assert(ids_list(out@) + members_from(kids@, j + 1) =~= before + members_from(
            kids@,
            j as int,
        ));
        j += 1;
    }
    assert(ids_list(out@) + Seq::<Seq<IdsSegModel>>::empty() =~= ids_list(out@));
    out
}

fn resolve_preferring_exec(enums: &EnumClasses, value: &str, prefer: &Option<String>) -> (r:
    Option<String>)
    ensures
        opt_text(r) == resolve_preferring(enums@, value@, opt_text(*prefer)),
{
    match prefer {
        Some(p) => {
            if enums.is_enum_member(p.as_str(), value) {
                return Some(copy_string(p));
            }
        },
        None => {},
    }
    enums.resolve_bare_enum_value(value)
}

fn tail_parts(parts: &Vec<String>) -> (r: Vec<String>)
    requires
        parts@.len() >= 1,
    ensures
        texts(r@) == texts(parts@).skip(1),
{
    let mut out: Vec<String> = Vec::new();
    let mut i: usize = 1;
    while i < parts.len()
        invariant
            1 <= i <= parts@.len(),
            texts(out@) == texts(parts@).subrange(1, i as int),
        decreases parts@.len() - i,
    {
        let x = copy_string(&parts[i]);
        let ghost o = out@;
        out.push(x);
        proof {
            lemma_texts_push(o, x);
            assert(texts(parts@)[i as int] == parts@[i as int]@);
        }
        assert(texts(out@) =~= texts(parts@).subrange(1, i + 1));
        i += 1;
    }
    out
}

fn enum_default_exec(dids: &McIds, prefer: &Option<String>, enums: &EnumClasses) -> (r: Option<
    (String, String),
>)
    ensures
        (match r {
            Some((c, v)) => Some((c@, v@)),
            None => None,
        }) == enum_default(dids@, opt_text(*prefer), enums@),
{
    match dids.dot_chain_parts() {
        Some(parts) => {
            if parts.len() > 1 {
                assert(texts(parts@)[0] == parts@[0]@);
                if enums.is_enum_class_name(parts[0].as_str()) {
                    let rest = tail_parts(&parts);
                    let v = join_sep_exec(rest.as_slice(), ".");
                    Some((copy_string(&parts[0]), v))
                } else {
                    None
                }
            } else {
                let ds = dids.to_string();
                match resolve_preferring_exec(enums, ds.as_str(), prefer) {
                    Some(c) => Some((c, ds)),
                    None => None,
                }
            }
        },
        None => None,
    }
}

fn named_decl_exec(
    name: McIds,
    kids: &Vec<SyntaxNode>,
    from: usize,
    prefer: &Option<String>,
    enums: &EnumClasses,
) -> (r: (McParamDeclareKind, Option<McParamTypeKind>, Option<WrittenDefault>))
    requires
        from <= kids@.len(),
    ensures
        shape_of(r.0, r.1, r.2) == named_decl(
            name@,
            kids@.skip(from as int),
            opt_text(*prefer),
            enums@,
        ),
{
    let ghost sibs = kids@.skip(from as int);
    if from >= kids.len() {
        return (McParamDeclareKind::Single(name), None, None);
    }
    let d = &kids[from];
    assert(sibs[0] == *d);
    assert(sibs.skip(1) =~= kids@.skip(from + 1));
    match ids_exec(d, kids, from + 1) {
        Some(dids) => match enum_default_exec(&dids, prefer, enums) {
            Some((c, v)) => {
                let t = McParamTypeKind::EnumClassDefault {
                    class_name: copy_string(&c),
                    default: copy_string(&v),
                };
                (
                    McParamDeclareKind::EnumClass(
                        McEnumClassDeclare { name, class_name: c, default_val: Some(v) },
                    ),
                    Some(t),
                    None,
                )
            },
            None => {
                let text = dids.to_string();
                (McParamDeclareKind::Single(name), None, Some(WrittenDefault { text, quoted: false }))
            },
        },
        None => (
            McParamDeclareKind::Single(name),
            None,
            Some(WrittenDefault { text: copy_string(&d.text), quoted: d.kind == NodeKind::Str }),
        ),
    }
}

fn instance_name_exec<'a>(c: &'a SyntaxNode) -> (r: Option<(&'a SyntaxNode, &'a Vec<SyntaxNode>)>)
    ensures
        match r {
            Some((m, v)) => v@.len() >= 1 && instance_name(*c) == Some((*m, v@.skip(1))),
            None => instance_name(*c) is None,
        },
{
    if c.kind == NodeKind::Instance && c.children.len() > 0 {
        let inner = &c.children[0];
        if inner.kind == NodeKind::Opd && inner.children.len() > 0 {
            Some((&inner.children[0], &inner.children))
        } else {
            Some((inner, &c.children))
        }
    } else {
        None
    }
}

fn first_expression_exec(kids: &Vec<SyntaxNode>, from: usize) -> (r: Option<String>)
    requires
        from <= kids@.len(),
    ensures
        opt_text(r) == first_expression(kids@.skip(from as int)),
{
    let mut i: usize = from;
    while i < kids.len()
        invariant
            from <= i <= kids@.len(),
            first_expression(kids@.skip(from as int)) == first_expression(kids@.skip(i as int)),
        decreases kids@.len() - i,
    {
        assert(kids@.skip(i as int)[0] == kids@[i as int]);
        if kids[i].kind == NodeKind::Expression {
            return Some(copy_string(&kids[i].text));
        }
        assert(kids@.skip(i as int).drop_first() =~= kids@.skip(i + 1));
        i += 1;
    }
    assert(kids@.skip(i as int) =~= Seq::<SyntaxNode>::empty());
    None
}

fn enum_scan_exec(kids: &Vec<SyntaxNode>) -> (r: (Option<McIds>, Option<String>))
    ensures
        (
            match r.0 {
                Some(x) => Some(x@),
                None => None,
            },
            opt_text(r.1),
        ) == enum_scan(kids@),
{
    let mut name: Option<McIds> = None;
    let mut dflt: Option<String> = None;
    let mut i: usize = 0;
    while i < kids.len()
        invariant
            i <= kids@.len(),
            (
                match name {
                    Some(x) => Some(x@),
                    None => None,
                },
                opt_text(dflt),
            ) == enum_scan(kids@.take(i as int)),
        decreases kids@.len() - i,
    {
        assert(kids@.take(i + 1).drop_last() =~= kids@.take(i as int));
        assert(kids@.take(i + 1).last() == kids@[i as int]);
        match instance_name_exec(&kids[i]) {
            Some((m, v)) => {
                if name.is_none() {
                    name = ids_exec(m, v, 1);
                }
                match first_expression_exec(v, 1) {
                    Some(t) => {
                        dflt = Some(t);
                    },
                    None => {},
                }
            },
            None => {},
        }
        i += 1;
    }
    assert(kids@.take(kids@.len() as int) =~= kids@);
    (name, dflt)
}

fn instance_ids_exec(kids: &Vec<SyntaxNode>) -> (r: Vec<McIds>)
    ensures
        ids_list(r@) == instance_ids_all(kids@),
{
    let mut out: Vec<McIds> = Vec::new();
    let mut i: usize = 0;
    while i < kids.len()
        invariant
            i <= kids@.len(),
            ids_list(out@) == instance_ids_all(kids@.take(i as int)),
        decreases kids@.len() - i,
    {
        assert(kids@.take(i + 1).drop_last() =~= kids@.take(i as int));
        assert(kids@.take(i + 1).last() == kids@[i as int]);
        let ghost before = ids_list(out@);
        match instance_name_exec(&kids[i]) {
            Some((m, v)) => {
                if m.kind == NodeKind::SquareVec || m.kind == NodeKind::OpdSquareVec {
                    let ms = members_exec(&m.children);
                    let mut k: usize = 0;
                    while k < ms.len()
                        invariant
                            k <= ms@.len(),
                            ids_list(out@) == before + ids_list(ms@).take(k as int),
                        decreases ms@.len() - k,
                    {
                        let x = ms[k].copy();
                        let ghost o = out@;
                        out.push(x);
                        assert(out@ =~= o.push(x));
                        assert(ids_list(o.push(x)) =~= ids_list(o).push(x@));
                        assert(ids_list(ms@)[k as int] == ms@[k as int]@);
                        assert(ids_list(out@) =~= before + ids_list(ms@).take(k + 1));
                        k += 1;
                    }
                    assert(ids_list(ms@).take(ms@.len() as int) =~= ids_list(ms@));
                } else {
                    match ids_exec(m, v, 1) {
                        Some(x) => {
                            out.push(x);
                            assert(ids_list(out@) =~= before + seq![x@]);
                        },
                        None => {
                            assert(before + Seq::<Seq<IdsSegModel>>::empty() =~= before);
                        },
                    }
                }
            },
            None => {
                assert(before + Seq::<Seq<IdsSegModel>>::empty() =~= before);
            },
        }
        i += 1;
    }
    assert(kids@.take(kids@.len() as int) =~= kids@);
    out
}

fn type_class_exec(k: &McParamTypeKind) -> (r: Option<String>)
    ensures
        opt_text(r) == type_class(k@),
{
    match k {
        McParamTypeKind::Interface { class_name, .. } => Some(copy_string(class_name)),
        McParamTypeKind::InterfaceWithRole { class_name, .. } => Some(copy_string(class_name)),
        McParamTypeKind::EnumClass { class_name } => Some(copy_string(class_name)),
        McParamTypeKind::EnumClassDefault { class_name, .. } => Some(copy_string(class_name)),
        _ => None,
    }
}

fn typed_decl_exec(s: &SyntaxNode, enums: &EnumClasses, param_type: McParamType) -> (r: Result<
    McParamDeclare,
    DeclError,
>)
    ensures
        match (r, typed_decl(*s, enums@, param_type.kind@)) {
            (Ok(d), Ok(shape)) => has_shape(d, shape, param_type),
            (Err(e), Err(f)) => e == f,
            _ => false,
        },
{
    let (nm, dv) = enum_scan_exec(&s.children);
    let class = type_class_exec(&param_type.kind);
    match class {
        Some(c) => {
            if enums.is_enum_class_name(c.as_str()) {
                match nm {
                    Some(name) => {
                        let kind = McParamDeclareKind::EnumClass(
                            McEnumClassDeclare { name, class_name: c, default_val: dv },
                        );
                        return Ok(McParamDeclare::recorded(kind, param_type, None));
                    },
                    None => {},
                }
            }
        },
        None => {},
    }
    let mut l = instance_ids_exec(&s.children);
    if l.len() == 0 {
        Err(DeclError::NoInstance)
    } else if l.len() == 1 {
        let one = l.remove(0);
        Ok(McParamDeclare::recorded(McParamDeclareKind::Single(one), param_type, None))
    } else {
        Ok(McParamDeclare::recorded(McParamDeclareKind::Multiple(l), param_type, None))
    }
}

/// The enclosing definition's identifier, as a model.
pub open spec fn opt_ids(e: Option<&McIds>) -> Option<Seq<IdsSegModel>> {
    match e {
        Some(i) => Some(i@),
        None => None,
    }
}

impl McParamDeclare {
    /// The parameter declaration a syntax node spells: `role` with its
    /// default role; a named formal with its default (an enum value makes
    /// it an enum-class formal, resolved against the enclosing definition's
    /// own enum first); a `[...]` formal of several names; an operand-shaped
    /// name; a typed declaration (an enum-class formal when the type names
    /// an enum class, else the instances it names). `param_type` is the
    /// declaration's type classification, made by the caller from the same
    /// node. Wrapper nodes are looked through.
    pub fn from_node(
        node: &SyntaxNode,
        enclosing: Option<&McIds>,
        param_type: McParamType,
        enums: &EnumClasses,
    ) -> (r: Result<McParamDeclare, DeclError>)
        requires
            !(node.kind == NodeKind::Param && node.children@.len() > 0 && param_stalls(
                node.children@[0],
            )),
        ensures
            match (r, node_decl(*node, root_of(opt_ids(enclosing)), enums@, param_type.kind@)) {
                (Ok(d), Ok(shape)) => has_shape(d, shape, param_type),
                (Err(e), Err(f)) => e == f,
                _ => false,
            },
    {
        let none: Vec<SyntaxNode> = Vec::new();
        let prefer: Option<String> = match enclosing {
            Some(e) => e.root_name(),
            None => None,
        };
        assert(none@.skip(0) =~= Seq::<SyntaxNode>::empty());
        Self::from_node_in(node, &none, 0, &prefer, param_type, enums)
    }

    /// [`Self::from_node`] for the node followed by the siblings
    /// `nkids[nfrom..]`, with the enclosing definition's root name.
    pub(crate) fn from_node_in(
        node: &SyntaxNode,
        nkids: &Vec<SyntaxNode>,
        nfrom: usize,
        prefer: &Option<String>,
        param_type: McParamType,
        enums: &EnumClasses,
    ) -> (r: Result<McParamDeclare, DeclError>)
        requires
            nfrom <= nkids@.len(),
            !(node.kind == NodeKind::Param && node.children@.len() > 0 && param_stalls(
                node.children@[0],
            )),
        ensures
            match (
                r,
                node_decl_in(
                    *node,
                    nkids@.skip(nfrom as int),
                    opt_text(*prefer),
                    enums@,
                    param_type.kind@,
                ),
            ) {
                (Ok(d), Ok(shape)) => has_shape(d, shape, param_type),
                (Err(e), Err(f)) => e == f,
                _ => false,
            },
    {
        let ghost head = decl_head_in(*node, nkids@.skip(nfrom as int));
        let mut s: &SyntaxNode;
        let mut kids: &Vec<SyntaxNode>;
        let mut from: usize;
        if node.kind == NodeKind::Param {
            if node.children.len() == 0 {
                return Err(DeclError::MissingNode);
            }
            s = &node.children[0];
            kids = &node.children;
            from = 1;
        } else {
            s = node;
            kids = nkids;
            from = nfrom;
        }
        while s.kind == NodeKind::Param && s.children.len() > 0
            invariant
                from <= kids@.len(),
                head == Some(descend(*s, kids@.skip(from as int))),
                !param_stalls(*s),
            decreases *s,
        {
            kids = &s.children;
            s = &s.children[0];
            from = 1;
        }
        assert(head == Some((*s, kids@.skip(from as int))));
        match s.kind {
            NodeKind::Role => {
                let dr = if from < kids.len() {
                    match dotted_text_exec(&kids[from]) {
                        Some(t) => Some(McIds::from(t.as_str())),
                        None => None,
                    }
                } else {
                    None
                };
                let kind = McParamDeclareKind::Role { name: McIds::from("role"), default_role: dr };
                Ok(McParamDeclare::recorded(kind, param_type, None))
            },
            NodeKind::Id | NodeKind::Ida | NodeKind::Ids => match ids_exec(s, kids, from) {
                Some(name) => {
                    let (k, t, w) = named_decl_exec(name, kids, from, prefer, enums);
                    let direction = param_type.direction;
                    let pt = match t {
                        Some(tk) => McParamType { kind: tk, direction },
                        None => param_type,
                    };
                    Ok(McParamDeclare::recorded(k, pt, w))
                },
                None => Err(DeclError::InvalidName),
            },
            NodeKind::SquareVec | NodeKind::OpdSquareVec => {
                let l = members_exec(&s.children);
                if l.len() > 0 {
                    Ok(McParamDeclare::recorded(McParamDeclareKind::Multiple(l), param_type, None))
                } else {
                    Err(DeclError::EmptySet)
                }
            },
            NodeKind::Opd => match ids_exec(s, kids, from) {
                Some(name) => Ok(
                    McParamDeclare::recorded(McParamDeclareKind::Single(name), param_type, None),
                ),
                None => Err(DeclError::InvalidName),
            },
            NodeKind::DeclareUv => Err(DeclError::UnitValue),
            NodeKind::Declare => typed_decl_exec(s, enums, param_type),
            _ => Err(DeclError::Unsupported),
        }
    }
}

/// Whether `name` and span `s` were recorded: under the name among the
/// definition spans and under its port key among the port spans, every
/// other name keeping its spans.
pub open spec fn recorded_span(
    old_def: Seq<SpanList>,
    old_port: Seq<SpanList>,
    new_def: Seq<SpanList>,
    new_port: Seq<SpanList>,
    name: Seq<char>,
    s: (usize, usize),
) -> bool {
    &&& spans_under(new_def, name) == spans_after(old_def, name, s)
    &&& forall|k: Seq<char>| k != name ==> spans_under(new_def, k) == spans_under(old_def, k)
    &&& spans_under(new_port, port_key(name)) == spans_after(old_port, port_key(name), s)
    &&& forall|k: Seq<char>|
        k != port_key(name) ==> spans_under(new_port, k) == spans_under(old_port, k)
}

/// The enclosing definition's identifier, as a model.
pub open spec fn owned_ids(e: Option<McIds>) -> Option<Seq<IdsSegModel>> {
    match e {
        Some(i) => Some(i@),
        None => None,
    }
}

impl McParamDeclares {
    /// Registers one closure formal: the declaration `node` spells (see
    /// [`McParamDeclare::from_node`], with the enclosing definition's name
    /// for enum resolution), recording the node's span under its primary
    /// name when it has one. A node that declares nothing changes nothing.
    pub fn push_closure_formal(
        &mut self,
        node: &SyntaxNode,
        param_type: McParamType,
        enums: &EnumClasses,
    )
        requires
            old(self).wf(),
            !(node.kind == NodeKind::Param && node.children@.len() > 0 && param_stalls(
                node.children@[0],
            )),
            node.pos + node.len <= u32::MAX,
        ensures
            final(self).wf(),
            final(self).net_ref_spans@ == old(self).net_ref_spans@,
            match node_decl(
                *node,
                root_of(owned_ids(old(self).enclosing_component_name)),
                enums@,
                param_type.kind@,
            ) {
                Err(_) => {
                    &&& final(self).declares@ == old(self).declares@
                    &&& final(self).def_spans@ == old(self).def_spans@
                    &&& final(self).port_spans@ == old(self).port_spans@
                },
                Ok(shape) => {
                    let d = final(self).declares@.last();
                    &&& final(self).declares@.len() == old(self).declares@.len() + 1
                    &&& final(self).declares@.drop_last() == old(self).declares@
                    &&& has_shape(d, shape, param_type)
                    &&& match decl_primary(d) {
                        Some(p) => recorded_span(
                            old(self).def_spans@,
                            old(self).port_spans@,
                            final(self).def_spans@,
                            final(self).port_spans@,
                            p,
                            node_span(*node),
                        ),
                        None => final(self).def_spans@ == old(self).def_spans@
                            && final(self).port_spans@ == old(self).port_spans@,
                    }
                },
            },
    {
        let r = {
            let enclosing = match &self.enclosing_component_name {
                Some(e) => Some(e),
                None => None,
            };
            McParamDeclare::from_node(node, enclosing, param_type, enums)
        };
        match r {
            Ok(d) => {
                match d.get_primary_name() {
                    Some(name) => {
                        let end: u32 = node.pos + node.len;
                        let sp = Range { start: node.pos as usize, end: end as usize };
                        self.store_def_span(name.as_str(), sp);
                    },
                    None => {},
                }
                let ghost before = self.declares@;
                self.declares.push(d);
                assert(self.declares@.drop_last() =~= before);
            },
            Err(_) => {},
        }
    }
}

} // verus!
