//! Form classes of references and declarations, read from the segment tree
//! (never from the display text): bare names, dot chains, the three
//! square-bracket families (comma list, prefix + range, prefix + single
//! index), curly groups, and everything else.
use vstd::prelude::*;
use crate::mc_ida::{IdaSegModel, IdaSegment, McIda, SquareItem, SquareItemModel};
use crate::mc_ids::{
    base_text, bus_of, dot_parts, ids_text, join_dot, seg_has_square,
    square_count, IdsSegModel, IdsSegment, McIds,
};
use crate::mc_ida::texts;

verus! {

/// Reference/declaration form class.
#[derive(Debug, Clone, Copy, PartialEq, Eq, Hash)]
pub enum Form {
    /// Single-segment bare identifier (`GPIO`, `VCC`).
    Bare,
    /// Plain dot chain, 2+ segments, no curly/square (`MIC.P`, `uC.ADC.P`).
    Dotted,
    /// Pure comma list `[A,B]` or a single embedded comma list `PDM[CLK,DATA]`.
    List,
    /// Prefix + square range (`res[1:2]`).
    Array,
    /// Prefix + square single index (`res[4]`).
    Indexed,
    /// Curly group (`DC2{VDD,GND}`, `uC.ADC{P,N}`).
    Curly,
    /// Anything else: matrices `R[1:2]C[1:3]`, square + member `res[4].B`,
    /// square + curly combinations, lone slice or dot segments.
    Mixed,
}

impl Form {
    pub open spec fn name(self) -> Seq<char> {
        match self {
            Form::Bare => "bare"@,
            Form::Dotted => "dotted"@,
            Form::List => "list"@,
            Form::Array => "array"@,
            Form::Indexed => "indexed"@,
            Form::Curly => "curly"@,
            Form::Mixed => "mixed"@,
        }
    }

    /// Lower-case name of the form.
    pub fn as_str(&self) -> (r: &'static str)
        ensures
            r@ == self.name(),
    {
        match self {
            Form::Bare => "bare",
            Form::Dotted => "dotted",
            Form::List => "list",
            Form::Array => "array",
            Form::Indexed => "indexed",
            Form::Curly => "curly",
            Form::Mixed => "mixed",
        }
    }
}

/// Outcome of resolving one reference.
#[derive(Debug, Clone, PartialEq, Eq)]
pub enum RefVerdict {
    /// The base resolves to an instance, port, bus or parameter member.
    Resolved,
    /// Array/member multi-expansion.
    ResolvedMany(Vec<String>),
    /// Bare single-segment scope miss: a new net.
    Wire,
    /// Structured miss with an undeclared base: the statement is dropped.
    UnresolvedRef { base: String, member: Option<String> },
    /// The base is a declared instance name in scope: materialised later.
    Deferred,
}

/// Square-bracket content kind: the list / range / single-index split.
#[derive(Debug, Clone, Copy, PartialEq, Eq)]
pub enum SquareKind {
    CommaList,
    Range,
    SingleIndex,
    Nothing,
}

/// The form a square kind gives.
pub open spec fn kind_form(k: SquareKind) -> Form {
    match k {
        SquareKind::CommaList => Form::List,
        SquareKind::Range => Form::Array,
        SquareKind::SingleIndex => Form::Indexed,
        SquareKind::Nothing => Form::Mixed,
    }
}

/// Kind of an outer square group's content.
pub open spec fn outer_kind(inner: Seq<IdsSegModel>) -> SquareKind {
    if inner.len() == 0 {
        SquareKind::Nothing
    } else if inner.len() == 1 {
        match inner[0] {
            IdsSegModel::Slice(_, _) => SquareKind::Range,
            IdsSegModel::Int(_) => SquareKind::SingleIndex,
            IdsSegModel::Ida(a) => if exists|k: int| 0 <= k < a.len() && #[trigger] a[k] is Square {
                SquareKind::Nothing
            } else {
                SquareKind::SingleIndex
            },
            _ => SquareKind::Nothing,
        }
    } else {
        SquareKind::CommaList
    }
}

/// Kind of a square group embedded in an IDA.
pub open spec fn embedded_kind(items: Seq<SquareItemModel>) -> SquareKind {
    if items.len() == 0 {
        SquareKind::Nothing
    } else if items.len() == 1 {
        match items[0] {
            SquareItemModel::Range(_, _) => SquareKind::Range,
            SquareItemModel::Id(_) => SquareKind::SingleIndex,
        }
    } else {
        SquareKind::CommaList
    }
}

/// Square groups of an IDA.
pub open spec fn ida_squares(a: Seq<IdaSegModel>) -> Seq<Seq<SquareItemModel>>
    decreases a.len(),
{
    if a.len() == 0 {
        seq![]
    } else {
        ida_squares(a.drop_last()) + match a.last() {
            IdaSegModel::Square(items) => seq![items],
            IdaSegModel::Id(_) => Seq::<Seq<SquareItemModel>>::empty(),
        }
    }
}

/// Form of a single IDA by its embedded square groups.
pub open spec fn embedded_form(a: Seq<IdaSegModel>) -> Form {
    let q = ida_squares(a);
    if q.len() == 0 {
        Form::Bare
    } else if q.len() == 1 {
        kind_form(embedded_kind(q[0]))
    } else {
        Form::Mixed
    }
}

/// The form class of a segment list.
pub open spec fn form_of(v: Seq<IdsSegModel>) -> Form {
    if v.len() == 1 {
        match v[0] {
            IdsSegModel::Square(inner) => kind_form(outer_kind(inner)),
            IdsSegModel::Ida(a) => embedded_form(a),
            IdsSegModel::Int(_) => Form::Bare,
            _ => Form::Mixed,
        }
    } else {
        let hs = exists|k: int| 0 <= k < v.len() && seg_has_square(#[trigger] v[k]);
        let hc = exists|k: int| 0 <= k < v.len() && #[trigger] v[k] is Curly;
        let pd = dot_parts(v) is Some;
        if !hs && !hc {
            if pd {
                Form::Dotted
            } else {
                Form::Mixed
            }
        } else if !hs {
            Form::Curly
        } else if hc || pd || square_count(v) > 1 {
            Form::Mixed
        } else if v.len() > 0 && v.last() is Square {
            kind_form(outer_kind(v.last()->Square_0))
        } else {
            Form::Mixed
        }
    }
}

/// Reference base and optional member of a spelling of the given form:
/// a dot chain splits at its first dot, a curly bus gives its bus name,
/// arrays and indexed elements give their base text (the whole text when
/// that is empty), every other form gives its whole text.
pub open spec fn reference_parts_of(v: Seq<IdsSegModel>, f: Form) -> (Seq<char>, Option<Seq<char>>) {
    match f {
        Form::Dotted => match dot_parts(v) {
            Some(p) => if p.len() > 0 {
                (p[0], if p.len() >= 2 {
                    Some(join_dot(p.skip(1)))
                } else {
                    None
                })
            } else {
                (ids_text(v), None)
            },
            None => (ids_text(v), None),
        },
        Form::Curly => match bus_of(v) {
            Some((name, _)) => (name, None),
            None => (base_text(v), None),
        },
        Form::Array | Form::Indexed => if base_text(v).len() == 0 {
            (ids_text(v), None)
        } else {
            (base_text(v), None)
        },
        _ => (ids_text(v), None),
    }
}

fn kind_to_form(k: SquareKind) -> (r: Form)
    ensures
        r == kind_form(k),
{
    match k {
        SquareKind::CommaList => Form::List,
        SquareKind::Range => Form::Array,
        SquareKind::SingleIndex => Form::Indexed,
        SquareKind::Nothing => Form::Mixed,
    }
}

/// Kind of an outer square group's content.
fn outer_square_kind(inner: &Vec<IdsSegment>) -> (r: SquareKind)
    ensures
        r == outer_kind(crate::mc_ids::ids_models(inner@)),
{
    assert(crate::mc_ids::ids_models(inner@).len() == inner@.len());
    if inner.len() == 0 {
        SquareKind::Nothing
    } else if inner.len() == 1 {
        assert(crate::mc_ids::ids_models(inner@)[0] == inner@[0]@);
        match &inner[0] {
            IdsSegment::Slice { .. } => SquareKind::Range,
            IdsSegment::Int(_) => SquareKind::SingleIndex,
            IdsSegment::Ida(ida) => {
                assert(inner@[0]@ == IdsSegModel::Ida(ida@));
                if ida.has_square() {
                    let ghost k = choose|k: int| 0 <= k < ida@.len() && #[trigger] ida@[k] is Square;
                    assert(ida@[k] is Square);
                    let ghost m = crate::mc_ids::ids_models(inner@);
                    assert(m[0] == IdsSegModel::Ida(ida@));
                    assert((m[0]->Ida_0)[k] is Square);
                    SquareKind::Nothing
                } else {
                    SquareKind::SingleIndex
                }
            },
            _ => {
                assert(outer_kind(crate::mc_ids::ids_models(inner@)) is Nothing);
                SquareKind::Nothing
            },
        }
    } else {
        SquareKind::CommaList
    }
}

/// Kind of a square group embedded in an IDA.
fn embedded_square_kind(items: &Vec<SquareItem>) -> (r: SquareKind)
    ensures
        r == embedded_kind(items@.map_values(|i: SquareItem| i@)),
{
    if items.len() == 0 {
        SquareKind::Nothing
    } else if items.len() == 1 {
        match &items[0] {
            SquareItem::Range(_, _) => SquareKind::Range,
            SquareItem::Id(_) => SquareKind::SingleIndex,
        }
    } else {
        SquareKind::CommaList
    }
}

/// Form of a single IDA by its embedded square groups (`res[4]`,
/// `PDM[CLK,DATA]`, `R[1:2]C[1:3]`).
fn classify_embedded_square(ida: &McIda) -> (r: Form)
    ensures
        r == embedded_form(ida@),
{
    let n = ida.segments.len();
    let mut count: usize = 0;
    let mut first: Option<usize> = None;
    let mut j: usize = 0;
    while j < n
        invariant
            0 <= j <= n,
            n == ida@.len(),
            count as int == ida_squares(ida@.take(j as int)).len(),
            count <= j,
            match first {
                None => count == 0,
                Some(f) => f < j && ida@[f as int] is Square && ida_squares(ida@.take(j as int))[0]
                    == ida@[f as int]->Square_0,
            },
        decreases n - j,
    {
        assert(ida@.take(j + 1).drop_last() =~= ida@.take(j as int));
        if let IdaSegment::Square(_) = &ida.segments[j] {
            if count == 0 {
                first = Some(j);
            }
            count = count + 1;
        }
        j = j + 1;
    }
    assert(ida@.take(n as int) =~= ida@);
    if count == 0 {
        Form::Bare
    } else if count == 1 {
        match first {
            Some(f) => match &ida.segments[f] {
                IdaSegment::Square(items) => kind_to_form(embedded_square_kind(items)),
                IdaSegment::Id(_) => Form::Mixed,
            },
            None => Form::Mixed,
        }
    } else {
        Form::Mixed
    }
}

/// Classify the syntactic form of `ids` from its segments.
pub fn classify(ids: &McIds) -> (r: Form)
    ensures
        r == form_of(ids@),
{
    if ids.segments.len() == 1 {
        return match &ids.segments[0] {
            IdsSegment::Square(inner) => {
                proof {
                    crate::mc_ids::lemma_inner_models(*inner);
                }
                kind_to_form(outer_square_kind(inner))
            },
            IdsSegment::Ida(ida) => classify_embedded_square(ida),
            IdsSegment::Int(_) => Form::Bare,
            _ => Form::Mixed,
        };
    }
    let has_square = ids.has_square();
    let has_curly = ids.has_curly();
    let is_plain_dot = ids.dot_chain_parts().is_some();
    if !has_square && !has_curly {
        if is_plain_dot {
            Form::Dotted
        } else {
            Form::Mixed
        }
    } else if !has_square {
        Form::Curly
    } else if has_curly || is_plain_dot || ids.square_segment_count() > 1 {
        Form::Mixed
    } else {
        let n = ids.segments.len();
        if n > 0 {
            match &ids.segments[n - 1] {
                IdsSegment::Square(inner) => {
                    proof {
                        crate::mc_ids::lemma_inner_models(*inner);
                    }
                    kind_to_form(outer_square_kind(inner))
                },
                _ => Form::Mixed,
            }
        } else {
            Form::Mixed
        }
    }
}

/// The texts from index `start` on, joined with `.`.
fn join_dot_from(parts: &Vec<String>, start: usize) -> (r: String)
    requires
        start < parts@.len(),
    ensures
        r@ == join_dot(texts(parts@).skip(start as int)),
{
    let ghost t = texts(parts@);
    let n = parts.len();
    let mut out = crate::strs::copy_string(&parts[start]);
    let mut i: usize = start + 1;
    assert(t.subrange(start as int, i as int) =~= seq![t[start as int]]);
    while i < parts.len()
        invariant
            start < i <= parts@.len(),
            t == texts(parts@),
            out@ == join_dot(t.subrange(start as int, i as int)),
        decreases parts@.len() - i,
    {
        crate::text::push_char(&mut out, '.');
        crate::text::push_str(&mut out, parts[i].as_str());
        assert(t.subrange(start as int, i + 1).drop_last() =~= t.subrange(start as int, i as int));
        i += 1;
    }
    assert(t.subrange(start as int, parts@.len() as int) =~= t.skip(start as int));
    out
}

/// Reference base and optional member of `ids` read as the given form.
pub fn reference_parts(ids: &McIds, form: Form) -> (r: (String, Option<String>))
    ensures
        (r.0@, match r.1 {
            Some(m) => Some(m@),
            None => None,
        }) == reference_parts_of(ids@, form),
{
    match form {
        Form::Dotted => match ids.dot_chain_parts() {
            Some(parts) => {
                if parts.len() > 0 {
                    let member = if parts.len() >= 2 {
                        Some(join_dot_from(&parts, 1))
                    } else {
                        None
                    };
                    (crate::strs::copy_string(&parts[0]), member)
                } else {
                    (ids.to_string(), None)
                }
            },
            None => (ids.to_string(), None),
        },
        Form::Curly => match ids.as_bus() {
            Some((name, _members)) => (name, None),
            None => (ids.base_name(), None),
        },
        Form::Array | Form::Indexed => {
            let base = ids.base_name();
            if base.as_str().is_empty() {
                (ids.to_string(), None)
            } else {
                (base, None)
            }
        },
        _ => (ids.to_string(), None),
    }
}

} // verus!
