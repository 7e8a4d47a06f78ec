//! Multi-segment identifiers: dot chains (`uC.ADC.P`), curly member groups
//! (`DC2{VDD, GND}`), square groups (`[VDD, GND]`), numeric slices, and the
//! member names they expand to.
use vstd::prelude::*;
use crate::mc_ida::{
    concat, ida_expand, ida_has_param_ref, ida_subst, ida_text, int_range_texts, join_comma,
    parse_ida, prepend_all, product, texts, find_from, IdaSegModel, IdaSegment, McIda,
};
use crate::mc_ida::{
    find_from_exec, int_range_exec, item_text, item_text_exec, lemma_texts_push, lemma_texts_take,
};
use crate::mc_literal::McInt;
use crate::strs::{copy_string, extend_strings, prepend_all_exec, product_exec};
use crate::text::{
    char_of_code, chars_of, int_string, int_text, is_char_code, owned, utf8_len, utf8_len_exec, parse_i64, parse_i64_chars, push_char, push_str, str_eq,
    sub_chars, trim_chars, trimmed,
};

verus! {

// ---------------------------------------------------------------------------
// Types and models
// ---------------------------------------------------------------------------

/// One segment of a multi-segment identifier.
#[derive(Debug, PartialEq, Eq, Hash)]
pub enum IdsSegment {
    Int(Box<McInt>),
    Slice { from: Box<McInt>, to: Box<McInt> },
    Ida(Box<McIda>),
    DotInt(Box<McInt>),
    DotIda(Box<McIda>),
    Curly(Vec<IdsSegment>),
    /// Square bracket segment, contains multiple members, e.g., [VDD, GND]
    Square(Vec<IdsSegment>),
}

/// A multi-segment identifier.
#[derive(Debug)]
pub struct McIds {
    pub segments: Vec<IdsSegment>,
}

/// Model of an [`IdsSegment`].
pub enum IdsSegModel {
    Int(i64),
    Slice(i64, i64),
    Ida(Seq<IdaSegModel>),
    DotInt(i64),
    DotIda(Seq<IdaSegModel>),
    Curly(Seq<IdsSegModel>),
    Square(Seq<IdsSegModel>),
}

/// Model of one segment.
pub open spec fn seg_model(s: IdsSegment) -> IdsSegModel
    decreases s,
{
    match s {
        IdsSegment::Int(i) => IdsSegModel::Int(i.value),
        IdsSegment::Slice { from, to } => IdsSegModel::Slice(from.value, to.value),
        IdsSegment::Ida(a) => IdsSegModel::Ida(a@),
        IdsSegment::DotInt(i) => IdsSegModel::DotInt(i.value),
        IdsSegment::DotIda(a) => IdsSegModel::DotIda(a@),
        IdsSegment::Curly(v) => IdsSegModel::Curly(
            Seq::new(
                v@.len(),
                |k: int|
                    if 0 <= k < v@.len() {
                        seg_model(v@[k])
                    } else {
                        IdsSegModel::Int(0)
                    },
            ),
        ),
        IdsSegment::Square(v) => IdsSegModel::Square(
            Seq::new(
                v@.len(),
                |k: int|
                    if 0 <= k < v@.len() {
                        seg_model(v@[k])
                    } else {
                        IdsSegModel::Int(0)
                    },
            ),
        ),
    }
}

impl View for IdsSegment {
    type V = IdsSegModel;

    open spec fn view(&self) -> IdsSegModel {
        seg_model(*self)
    }
}

/// The models of a list of segments.
pub open spec fn ids_models(v: Seq<IdsSegment>) -> Seq<IdsSegModel> {
    v.map_values(|s: IdsSegment| s@)
}

impl View for McIds {
    type V = Seq<IdsSegModel>;

    open spec fn view(&self) -> Seq<IdsSegModel> {
        ids_models(self.segments@)
    }
}

pub proof fn lemma_inner_models(v: Vec<IdsSegment>)
    ensures
        IdsSegment::Curly(v)@ == IdsSegModel::Curly(ids_models(v@)),
        IdsSegment::Square(v)@ == IdsSegModel::Square(ids_models(v@)),
{
    let c = seg_model(IdsSegment::Curly(v));
    assert(c->Curly_0 =~= ids_models(v@));
    let q = seg_model(IdsSegment::Square(v));
    assert(q->Square_0 =~= ids_models(v@));
}

// ---------------------------------------------------------------------------
// Display
// ---------------------------------------------------------------------------

/// `.t`
pub open spec fn dot(t: Seq<char>) -> Seq<char> {
    seq!['.'] + t
}

/// Text of one segment: `12`, `1:4`, the IDA text, `.x`, `{a, b}`, `[a, b]`.
pub open spec fn seg_text(s: IdsSegModel) -> Seq<char>
    decreases s,
{
    match s {
        IdsSegModel::Int(v) => int_text(v as int),
        IdsSegModel::Slice(f, t) => int_text(f as int) + seq![':'] + int_text(t as int),
        IdsSegModel::Ida(a) => ida_text(a),
        IdsSegModel::DotInt(v) => dot(int_text(v as int)),
        IdsSegModel::DotIda(a) => dot(ida_text(a)),
        IdsSegModel::Curly(v) => seq!['{'] + join_comma(seg_texts(v)) + seq!['}'],
        IdsSegModel::Square(v) => seq!['['] + join_comma(seg_texts(v)) + seq![']'],
    }
}

/// Texts of a list of segments.
pub open spec fn seg_texts(v: Seq<IdsSegModel>) -> Seq<Seq<char>>
    decreases v,
{
    if v.len() == 0 {
        seq![]
    } else {
        seg_texts(v.drop_last()).push(seg_text(v.last()))
    }
}

/// Text of an identifier: its segment texts concatenated.
pub open spec fn ids_text(v: Seq<IdsSegModel>) -> Seq<char> {
    concat(seg_texts(v))
}

// ---------------------------------------------------------------------------
// Expansion
// ---------------------------------------------------------------------------

/// Decimal texts of a slice in declaration order: `1:4` ascends, `4:1`
/// descends.
pub open spec fn slice_texts(from: int, to: int) -> Seq<Seq<char>> {
    if from <= to {
        int_range_texts(from, to)
    } else {
        Seq::new((from - to + 1) as nat, |j: int| int_text(from - j))
    }
}

/// Members one entry of a curly group contributes.
pub open spec fn curly_item(x: IdsSegModel) -> Seq<Seq<char>> {
    match x {
        IdsSegModel::Int(v) => seq![int_text(v as int)],
        IdsSegModel::Ida(a) => ida_expand(a),
        IdsSegModel::Slice(f, t) => slice_texts(f as int, t as int),
        _ => seq![seg_text(x)],
    }
}

/// Members of a curly group, in order.
pub open spec fn curly_items(v: Seq<IdsSegModel>) -> Seq<Seq<char>>
    decreases v.len(),
{
    if v.len() == 0 {
        seq![]
    } else {
        curly_items(v.drop_last()) + curly_item(v.last())
    }
}

/// Members one entry of a square group nested in a square group
/// contributes: the first name of an IDA, an integer; nothing else.
pub open spec fn nested_item(x: IdsSegModel) -> Seq<Seq<char>> {
    match x {
        IdsSegModel::Ida(a) => if ida_expand(a).len() > 0 {
            seq![ida_expand(a)[0]]
        } else {
            seq![]
        },
        IdsSegModel::Int(v) => seq![int_text(v as int)],
        _ => seq![],
    }
}

/// Members of a nested square group, in order.
pub open spec fn nested_items(v: Seq<IdsSegModel>) -> Seq<Seq<char>>
    decreases v.len(),
{
    if v.len() == 0 {
        seq![]
    } else {
        nested_items(v.drop_last()) + nested_item(v.last())
    }
}

/// Members one entry of a square group contributes.
pub open spec fn square_item(x: IdsSegModel) -> Seq<Seq<char>> {
    match x {
        IdsSegModel::Square(w) => nested_items(w),
        IdsSegModel::Ida(a) => ida_expand(a),
        IdsSegModel::Int(v) => seq![int_text(v as int)],
        IdsSegModel::Slice(f, t) => slice_texts(f as int, t as int),
        _ => seq![seg_text(x)],
    }
}

/// Members of a square group, in order.
pub open spec fn square_items(v: Seq<IdsSegModel>) -> Seq<Seq<char>>
    decreases v.len(),
{
    if v.len() == 0 {
        seq![]
    } else {
        square_items(v.drop_last()) + square_item(v.last())
    }
}

/// The alternatives one segment contributes to a name.
pub open spec fn seg_expand(s: IdsSegModel) -> Seq<Seq<char>> {
    match s {
        IdsSegModel::Int(v) => seq![int_text(v as int)],
        IdsSegModel::Ida(a) => ida_expand(a),
        IdsSegModel::DotIda(a) => prepend_all(seq!['.'], ida_expand(a)),
        IdsSegModel::DotInt(v) => seq![dot(int_text(v as int))],
        IdsSegModel::Curly(v) => prepend_all(seq!['.'], curly_items(v)),
        IdsSegModel::Square(v) => square_items(v),
        IdsSegModel::Slice(f, t) => slice_texts(f as int, t as int),
    }
}

/// All names an identifier denotes: the row-major product of its segments'
/// alternatives (`DC4{VDD, GND}` gives `DC4.VDD`, `DC4.GND`).
pub open spec fn ids_expand(v: Seq<IdsSegModel>) -> Seq<Seq<char>>
    decreases v.len(),
{
    if v.len() == 0 {
        seq![seq![]]
    } else {
        product(ids_expand(v.drop_last()), seg_expand(v.last()))
    }
}

/// The alternatives one segment contributes under recursive expansion:
/// every nested group expands fully.
pub open spec fn seg_single(s: IdsSegModel) -> Seq<Seq<char>>
    decreases s,
{
    match s {
        IdsSegModel::Curly(v) => curly_singles(v),
        IdsSegModel::Square(v) => square_singles(v),
        IdsSegModel::Int(v) => seq![int_text(v as int)],
        IdsSegModel::Ida(a) => ida_expand(a),
        IdsSegModel::DotIda(a) => prepend_all(seq!['.'], ida_expand(a)),
        IdsSegModel::DotInt(v) => seq![dot(int_text(v as int))],
        IdsSegModel::Slice(f, t) => slice_texts(f as int, t as int),
    }
}

/// Recursive alternatives of a curly group: each member prefixed with `.`.
pub open spec fn curly_singles(v: Seq<IdsSegModel>) -> Seq<Seq<char>>
    decreases v,
{
    if v.len() == 0 {
        seq![]
    } else {
        curly_singles(v.drop_last()) + prepend_all(seq!['.'], seg_single(v.last()))
    }
}

/// Recursive alternatives of a square group.
pub open spec fn square_singles(v: Seq<IdsSegModel>) -> Seq<Seq<char>>
    decreases v,
{
    if v.len() == 0 {
        seq![]
    } else {
        square_singles(v.drop_last()) + seg_single(v.last())
    }
}

/// A segment with its parameter ranges bound (only IDA segments that refer
/// to a parameter change).
pub open spec fn seg_bind(s: IdsSegModel, bindings: Seq<(String, i64)>) -> IdsSegModel {
    match s {
        IdsSegModel::Ida(a) => if ida_has_param_ref(a) {
            IdsSegModel::Ida(ida_subst(a, bindings))
        } else {
            s
        },
        _ => s,
    }
}

/// All names an identifier denotes once its parameter ranges are bound.
pub open spec fn ids_expand_bound(v: Seq<IdsSegModel>, bindings: Seq<(String, i64)>) -> Seq<
    Seq<char>,
>
    decreases v.len(),
{
    if v.len() == 0 {
        seq![seq![]]
    } else {
        product(
            ids_expand_bound(v.drop_last(), bindings),
            seg_single(seg_bind(v.last(), bindings)),
        )
    }
}

// ---------------------------------------------------------------------------
// Executable display and expansion
// ---------------------------------------------------------------------------

pub proof fn lemma_seg_texts_take(v: Seq<IdsSegment>, i: int)
    requires
        0 <= i < v.len(),
    ensures
        seg_texts(ids_models(v.take(i + 1))) == seg_texts(ids_models(v.take(i))).push(
            seg_text(v[i]@),
        ),
        ids_models(v.take(i + 1)) == ids_models(v.take(i)).push(v[i]@),
{
    assert(ids_models(v.take(i + 1)) =~= ids_models(v.take(i)).push(v[i]@));
    assert(ids_models(v.take(i + 1)).drop_last() =~= ids_models(v.take(i)));
}

/// Text of one segment.
pub fn seg_to_string(seg: &IdsSegment) -> (r: String)
    ensures
        r@ == seg_text(seg@),
    decreases seg,
{
    match seg {
        IdsSegment::Int(i) => int_string(i.value),
        IdsSegment::Slice { from, to } => {
            let mut s = int_string(from.value);
            push_char(&mut s, ':');
            let t = int_string(to.value);
            s.append(t.as_str());
            assert(s@ =~= int_text(from.value as int) + seq![':'] + int_text(to.value as int));
            s
        },
        IdsSegment::Ida(a) => a.to_string(),
        IdsSegment::DotInt(i) => {
            let mut s = String::new();
            push_char(&mut s, '.');
            let t = int_string(i.value);
            s.append(t.as_str());
            assert(s@ =~= dot(int_text(i.value as int)));
            s
        },
        IdsSegment::DotIda(a) => {
            let mut s = String::new();
            push_char(&mut s, '.');
            let t = a.to_string();
            s.append(t.as_str());
            assert(s@ =~= dot(ida_text(a@)));
            s
        },
        IdsSegment::Curly(v) => {
            proof {
                lemma_inner_models(*v);
            }
            let mut s = String::new();
            push_char(&mut s, '{');
            let inner = join_segs(v);
            s.append(inner.as_str());
            push_char(&mut s, '}');
            assert(s@ =~= seq!['{'] + inner@ + seq!['}']);
            s
        },
        IdsSegment::Square(v) => {
            proof {
                lemma_inner_models(*v);
            }
            let mut s = String::new();
            push_char(&mut s, '[');
            let inner = join_segs(v);
            s.append(inner.as_str());
            push_char(&mut s, ']');
            assert(s@ =~= seq!['['] + inner@ + seq![']']);
            s
        },
    }
}

/// Texts of a segment list joined with `, `.
pub fn join_segs(v: &Vec<IdsSegment>) -> (r: String)
    ensures
        r@ == join_comma(seg_texts(ids_models(v@))),
    decreases v,
{
    let mut out = String::new();
    let mut i: usize = 0;
    while i < v.len()
        invariant
            0 <= i <= v@.len(),
            out@ == join_comma(seg_texts(ids_models(v@.take(i as int)))),
        decreases v@.len() - i,
    {
        assert(decreases_to!(v => v@[i as int]));
        let t = seg_to_string(&v[i]);
        if i > 0 {
            push_char(&mut out, ',');
            push_char(&mut out, ' ');
        }
        out.append(t.as_str());
        proof {
            lemma_seg_texts_take(v@, i as int);
            let all = seg_texts(ids_models(v@.take(i + 1)));
            assert(all.drop_last() =~= seg_texts(ids_models(v@.take(i as int))));
            if i == 0 {
                assert(ids_models(v@.take(0)) =~= seq![]);
                assert(out@ =~= t@);
            } else {
                assert(out@ =~= join_comma(seg_texts(ids_models(v@.take(i as int)))) + seq![
                    ',',
                    ' ',
                ] + t@);
            }
        }
        i += 1;
    }
    assert(v@.take(v@.len() as int) =~= v@);
    out
}

impl McIds {
    /// The identifier's text: segment texts concatenated (`DC2{VDD, GND}`,
    /// `uC.ADC.P`, `[VDD, GND]`).
    pub fn to_string(&self) -> (r: String)
        ensures
            r@ == ids_text(self@),
    {
        let mut out = String::new();
        let mut i: usize = 0;
        while i < self.segments.len()
            invariant
                0 <= i <= self.segments@.len(),
                out@ == concat(seg_texts(ids_models(self.segments@.take(i as int)))),
            decreases self.segments@.len() - i,
        {
            let t = seg_to_string(&self.segments[i]);
            out.append(t.as_str());
            proof {
                lemma_seg_texts_take(self.segments@, i as int);
                let all = seg_texts(ids_models(self.segments@.take(i + 1)));
                assert(all.drop_last() =~= seg_texts(ids_models(self.segments@.take(i as int))));
            }
            i += 1;
        }
        assert(self.segments@.take(self.segments@.len() as int) =~= self.segments@);
        out
    }
}

/// Decimal texts of a slice in declaration order.
pub fn slice_exec(from: i64, to: i64) -> (r: Vec<String>)
    ensures
        texts(r@) == slice_texts(from as int, to as int),
{
    if from <= to {
        return int_range_exec(from, to);
    }
    let mut out: Vec<String> = Vec::new();
    let mut k = from;
    loop
        invariant_except_break
            texts(out@) == Seq::new((from - k) as nat, |j: int| int_text(from - j)),
        invariant
            to <= k <= from,
        ensures
            texts(out@) == Seq::new((from - to + 1) as nat, |j: int| int_text(from - j)),
        decreases k - to,
    {
        let t = int_string(k);
        proof {
            lemma_texts_push(out@, t);
            assert(Seq::new((from - k + 1) as nat, |j: int| int_text(from - j)) =~= Seq::new(
                (from - k) as nat,
                |j: int| int_text(from - j),
            ).push(t@));
        }
        out.push(t);
        if k == to {
            break;
        }
        k -= 1;
    }
    out
}

/// A list holding one string.
fn one_string(s: String) -> (r: Vec<String>)
    ensures
        texts(r@) == seq![s@],
{
    let mut out: Vec<String> = Vec::new();
    out.push(s);
    assert(texts(out@) =~= seq![s@]);
    out
}

/// Members one entry of a curly group contributes.
fn curly_item_exec(x: &IdsSegment) -> (r: Vec<String>)
    ensures
        texts(r@) == curly_item(x@),
{
    match x {
        IdsSegment::Int(i) => one_string(int_string(i.value)),
        IdsSegment::Ida(a) => a.expand(),
        IdsSegment::Slice { from, to } => slice_exec(from.value, to.value),
        _ => one_string(seg_to_string(x)),
    }
}

/// Members of a curly group.
fn curly_items_exec(v: &Vec<IdsSegment>) -> (r: Vec<String>)
    ensures
        texts(r@) == curly_items(ids_models(v@)),
{
    let mut out: Vec<String> = Vec::new();
    let mut i: usize = 0;
    while i < v.len()
        invariant
            0 <= i <= v@.len(),
            texts(out@) == curly_items(ids_models(v@.take(i as int))),
        decreases v@.len() - i,
    {
        let x = curly_item_exec(&v[i]);
        extend_strings(&mut out, x.as_slice());
        proof {
            lemma_seg_texts_take(v@, i as int);
            assert(ids_models(v@.take(i + 1)).drop_last() =~= ids_models(v@.take(i as int)));
        }
        i += 1;
    }
    assert(v@.take(v@.len() as int) =~= v@);
    out
}

/// Members one entry of a nested square group contributes.
fn nested_item_exec(x: &IdsSegment) -> (r: Vec<String>)
    ensures
        texts(r@) == nested_item(x@),
{
    match x {
        IdsSegment::Ida(a) => {
            let e = a.expand();
            let mut out: Vec<String> = Vec::new();
            if e.len() > 0 {
                out.push(copy_string(&e[0]));
            }
            assert(texts(out@) =~= nested_item(x@));
            out
        },
        IdsSegment::Int(i) => one_string(int_string(i.value)),
        _ => {
            let out: Vec<String> = Vec::new();
            assert(texts(out@) =~= nested_item(x@));
            out
        },
    }
}

/// Members of a nested square group.
fn nested_items_exec(v: &Vec<IdsSegment>) -> (r: Vec<String>)
    ensures
        texts(r@) == nested_items(ids_models(v@)),
{
    let mut out: Vec<String> = Vec::new();
    let mut i: usize = 0;
    while i < v.len()
        invariant
            0 <= i <= v@.len(),
            texts(out@) == nested_items(ids_models(v@.take(i as int))),
        decreases v@.len() - i,
    {
        let x = nested_item_exec(&v[i]);
        extend_strings(&mut out, x.as_slice());
        proof {
            lemma_seg_texts_take(v@, i as int);
            assert(ids_models(v@.take(i + 1)).drop_last() =~= ids_models(v@.take(i as int)));
        }
        i += 1;
    }
    assert(v@.take(v@.len() as int) =~= v@);
    out
}

/// Members one entry of a square group contributes.
fn square_item_exec(x: &IdsSegment) -> (r: Vec<String>)
    ensures
        texts(r@) == square_item(x@),
{
    match x {
        IdsSegment::Square(w) => {
            proof {
                lemma_inner_models(*w);
            }
            nested_items_exec(w)
        },
        IdsSegment::Ida(a) => a.expand(),
        IdsSegment::Int(i) => one_string(int_string(i.value)),
        IdsSegment::Slice { from, to } => slice_exec(from.value, to.value),
        _ => one_string(seg_to_string(x)),
    }
}

/// Members of a square group.
fn square_items_exec(v: &Vec<IdsSegment>) -> (r: Vec<String>)
    ensures
        texts(r@) == square_items(ids_models(v@)),
{
    let mut out: Vec<String> = Vec::new();
    let mut i: usize = 0;
    while i < v.len()
        invariant
            0 <= i <= v@.len(),
            texts(out@) == square_items(ids_models(v@.take(i as int))),
        decreases v@.len() - i,
    {
        let x = square_item_exec(&v[i]);
        extend_strings(&mut out, x.as_slice());
        proof {
            lemma_seg_texts_take(v@, i as int);
            assert(ids_models(v@.take(i + 1)).drop_last() =~= ids_models(v@.take(i as int)));
        }
        i += 1;
    }
    assert(v@.take(v@.len() as int) =~= v@);
    out
}

/// The alternatives one segment contributes to a name.
pub fn seg_expand_exec(seg: &IdsSegment) -> (r: Vec<String>)
    ensures
        texts(r@) == seg_expand(seg@),
{
    match seg {
        IdsSegment::Int(i) => {
            assert(seg@ == IdsSegModel::Int(i.value));
            one_string(int_string(i.value))
        },
        IdsSegment::Ida(a) => a.expand(),
        IdsSegment::DotIda(a) => {
            let e = a.expand();
            proof {
                reveal_strlit(".");
                assert("."@ =~= seq!['.']);
            }
            prepend_all_exec(".", e.as_slice())
        },
        IdsSegment::DotInt(i) => {
            let mut s = String::new();
            push_char(&mut s, '.');
            let t = int_string(i.value);
            s.append(t.as_str());
            assert(s@ =~= dot(int_text(i.value as int)));
            one_string(s)
        },
        IdsSegment::Curly(v) => {
            proof {
                lemma_inner_models(*v);
                reveal_strlit(".");
                assert("."@ =~= seq!['.']);
            }
            let items = curly_items_exec(v);
            prepend_all_exec(".", items.as_slice())
        },
        IdsSegment::Square(v) => {
            proof {
                lemma_inner_models(*v);
            }
            square_items_exec(v)
        },
        IdsSegment::Slice { from, to } => slice_exec(from.value, to.value),
    }
}

impl McIds {
    /// All names the identifier denotes: the row-major product of the
    /// segments' alternatives (`DC4{VDD, GND}` gives `DC4.VDD`, `DC4.GND`;
    /// `GPIO[1:2]` gives `GPIO1`, `GPIO2`).
    pub fn expand(&self) -> (r: Vec<String>)
        ensures
            texts(r@) == ids_expand(self@),
    {
        let mut results: Vec<String> = Vec::new();
        results.push(String::new());
        assert(texts(results@) =~= seq![seq![]]);
        let mut i: usize = 0;
        while i < self.segments.len()
            invariant
                0 <= i <= self.segments@.len(),
                texts(results@) == ids_expand(ids_models(self.segments@.take(i as int))),
            decreases self.segments@.len() - i,
        {
            let options = seg_expand_exec(&self.segments[i]);
            results = product_exec(results.as_slice(), options.as_slice());
            proof {
                lemma_seg_texts_take(self.segments@, i as int);
                assert(ids_models(self.segments@.take(i + 1)).drop_last() =~= ids_models(
                    self.segments@.take(i as int),
                ));
            }
            i += 1;
        }
        assert(self.segments@.take(self.segments@.len() as int) =~= self.segments@);
        results
    }
}

/// Recursive alternatives of one segment.
pub fn seg_single_exec(seg: &IdsSegment) -> (r: Vec<String>)
    ensures
        texts(r@) == seg_single(seg@),
    decreases seg,
{
    match seg {
        IdsSegment::Curly(v) => {
            proof {
                lemma_inner_models(*v);
            }
            group_singles_exec(v, true)
        },
        IdsSegment::Square(v) => {
            proof {
                lemma_inner_models(*v);
            }
            group_singles_exec(v, false)
        },
        IdsSegment::Int(i) => one_string(int_string(i.value)),
        IdsSegment::Ida(a) => a.expand(),
        IdsSegment::DotIda(a) => {
            proof {
                reveal_strlit(".");
                assert("."@ =~= seq!['.']);
            }
            let e = a.expand();
            prepend_all_exec(".", e.as_slice())
        },
        IdsSegment::DotInt(i) => {
            let mut s = String::new();
            push_char(&mut s, '.');
            let t = int_string(i.value);
            s.append(t.as_str());
            assert(s@ =~= dot(int_text(i.value as int)));
            one_string(s)
        },
        IdsSegment::Slice { from, to } => slice_exec(from.value, to.value),
    }
}

/// Recursive alternatives of a group: each member prefixed with `.` for a
/// curly group, as they are for a square group.
fn group_singles_exec(v: &Vec<IdsSegment>, curly: bool) -> (r: Vec<String>)
    ensures
        texts(r@) == (if curly {
            curly_singles(ids_models(v@))
        } else {
            square_singles(ids_models(v@))
        }),
    decreases v,
{
    let mut out: Vec<String> = Vec::new();
    let mut i: usize = 0;
    while i < v.len()
        invariant
            0 <= i <= v@.len(),
            texts(out@) == (if curly {
                curly_singles(ids_models(v@.take(i as int)))
            } else {
                square_singles(ids_models(v@.take(i as int)))
            }),
        decreases v@.len() - i,
    {
        assert(decreases_to!(v => v@[i as int]));
        let x = seg_single_exec(&v[i]);
        if curly {
            proof {
                reveal_strlit(".");
                assert("."@ =~= seq!['.']);
            }
            let p = prepend_all_exec(".", x.as_slice());
            extend_strings(&mut out, p.as_slice());
        } else {
            extend_strings(&mut out, x.as_slice());
        }
        proof {
            lemma_seg_texts_take(v@, i as int);
            assert(ids_models(v@.take(i + 1)).drop_last() =~= ids_models(v@.take(i as int)));
        }
        i += 1;
    }
    assert(v@.take(v@.len() as int) =~= v@);
    out
}

/// A deep copy of a segment.
pub fn copy_segment(seg: &IdsSegment) -> (r: IdsSegment)
    ensures
        r@ == seg@,
    decreases seg,
{
    match seg {
        IdsSegment::Int(i) => IdsSegment::Int(Box::new(i.copy())),
        IdsSegment::Slice { from, to } => IdsSegment::Slice {
            from: Box::new(from.copy()),
            to: Box::new(to.copy()),
        },
        IdsSegment::Ida(a) => IdsSegment::Ida(Box::new(a.copy())),
        IdsSegment::DotInt(i) => IdsSegment::DotInt(Box::new(i.copy())),
        IdsSegment::DotIda(a) => IdsSegment::DotIda(Box::new(a.copy())),
        IdsSegment::Curly(v) => {
            let w = copy_segments(v);
            proof {
                lemma_inner_models(*v);
                lemma_inner_models(w);
            }
            IdsSegment::Curly(w)
        },
        IdsSegment::Square(v) => {
            let w = copy_segments(v);
            proof {
                lemma_inner_models(*v);
                lemma_inner_models(w);
            }
            IdsSegment::Square(w)
        },
    }
}

/// A deep copy of a segment list.
pub fn copy_segments(v: &Vec<IdsSegment>) -> (r: Vec<IdsSegment>)
    ensures
        ids_models(r@) == ids_models(v@),
    decreases v,
{
    let mut out: Vec<IdsSegment> = Vec::new();
    let mut i: usize = 0;
    while i < v.len()
        invariant
            0 <= i <= v@.len(),
            ids_models(out@) == ids_models(v@.take(i as int)),
        decreases v@.len() - i,
    {
        assert(decreases_to!(v => v@[i as int]));
        let c = copy_segment(&v[i]);
        let ghost prev = ids_models(out@);
        out.push(c);
        assert(ids_models(out@) =~= prev.push(c@));
        proof {
            lemma_seg_texts_take(v@, i as int);
        }
        i += 1;
    }
    assert(v@.take(v@.len() as int) =~= v@);
    out
}

impl McIds {
    /// All names the identifier denotes once its parameter ranges are bound
    /// (`R[1:rows]C[1:cols]` with `rows = 2`, `cols = 10` gives `R1C1` ...
    /// `R2C10`); nested groups expand fully.
    pub fn expand_with_bindings(&self, bindings: &[(String, i64)]) -> (r: Vec<String>)
        ensures
            texts(r@) == ids_expand_bound(self@, bindings@),
    {
        let mut results: Vec<String> = Vec::new();
        results.push(String::new());
        assert(texts(results@) =~= seq![seq![]]);
        let mut i: usize = 0;
        while i < self.segments.len()
            invariant
                0 <= i <= self.segments@.len(),
                texts(results@) == ids_expand_bound(
                    ids_models(self.segments@.take(i as int)),
                    bindings@,
                ),
            decreases self.segments@.len() - i,
        {
            let options = match &self.segments[i] {
                IdsSegment::Ida(a) => {
                    if a.has_param_ref() {
                        let b = a.substitute_bindings(bindings);
                        let s = IdsSegment::Ida(Box::new(b));
                        seg_single_exec(&s)
                    } else {
                        seg_single_exec(&self.segments[i])
                    }
                },
                _ => seg_single_exec(&self.segments[i]),
            };
            assert(texts(options@) == seg_single(seg_bind(self.segments@[i as int]@, bindings@)));
            results = product_exec(results.as_slice(), options.as_slice());
            proof {
                lemma_seg_texts_take(self.segments@, i as int);
                assert(ids_models(self.segments@.take(i + 1)).drop_last() =~= ids_models(
                    self.segments@.take(i as int),
                ));
            }
            i += 1;
        }
        assert(self.segments@.take(self.segments@.len() as int) =~= self.segments@);
        results
    }

    /// Number of names the identifier expands to.
    pub fn count(&self) -> (r: usize)
        ensures
            r == ids_expand(self@).len(),
    {
        self.expand().len()
    }
}

// ---------------------------------------------------------------------------
// Construction and shape queries
// ---------------------------------------------------------------------------

/// Whether a segment carries a square group: an outer square, or an IDA
/// with an embedded one.
pub open spec fn seg_has_square(s: IdsSegModel) -> bool {
    match s {
        IdsSegModel::Square(_) => true,
        IdsSegModel::Ida(a) => exists|k: int| 0 <= k < a.len() && #[trigger] a[k] is Square,
        IdsSegModel::DotIda(a) => exists|k: int| 0 <= k < a.len() && #[trigger] a[k] is Square,
        _ => false,
    }
}

/// Number of square-bearing segments.
pub open spec fn square_count(v: Seq<IdsSegModel>) -> nat
    decreases v.len(),
{
    if v.len() == 0 {
        0
    } else {
        square_count(v.drop_last()) + if seg_has_square(v.last()) {
            1nat
        } else {
            0nat
        }
    }
}

/// `IDA{...}`: a curly group right after an IDA segment.
pub open spec fn is_bus_form(v: Seq<IdsSegModel>) -> bool {
    v.len() >= 2 && v[v.len() - 1] is Curly && v[v.len() - 2] is Ida
}

/// `IDA[...]`, or a lone square group `[...]`.
pub open spec fn is_list_form(v: Seq<IdsSegModel>) -> bool {
    (v.len() >= 2 && v[v.len() - 1] is Square && v[v.len() - 2] is Ida) || (v.len() == 1
        && v[0] is Square)
}

fn is_square_seg(s: &IdsSegment) -> (r: bool)
    ensures
        r == (s@ is Square),
{
    match s {
        IdsSegment::Square(_) => true,
        _ => false,
    }
}

fn is_curly_seg(s: &IdsSegment) -> (r: bool)
    ensures
        r == (s@ is Curly),
{
    match s {
        IdsSegment::Curly(_) => true,
        _ => false,
    }
}

fn is_ida_seg(s: &IdsSegment) -> (r: bool)
    ensures
        r == (s@ is Ida),
{
    match s {
        IdsSegment::Ida(_) => true,
        _ => false,
    }
}

fn seg_has_square_exec(s: &IdsSegment) -> (r: bool)
    ensures
        r == seg_has_square(s@),
{
    match s {
        IdsSegment::Square(_) => true,
        IdsSegment::Ida(a) => a.has_square(),
        IdsSegment::DotIda(a) => a.has_square(),
        _ => false,
    }
}

impl McIds {
    /// An identifier of one IDA segment parsed from text.
    pub fn from(s: &str) -> (r: McIds)
        ensures
            r@ == seq![IdsSegModel::Ida(parse_ida(s@))],
    {
        let mut segments: Vec<IdsSegment> = Vec::new();
        segments.push(IdsSegment::Ida(Box::new(McIda::from(s))));
        let r = McIds { segments };
        assert(r@ =~= seq![IdsSegModel::Ida(parse_ida(s@))]);
        r
    }

    /// An identifier of one IDA segment.
    pub fn from_ida(ida: McIda) -> (r: McIds)
        ensures
            r@ == seq![IdsSegModel::Ida(ida@)],
    {
        let mut segments: Vec<IdsSegment> = Vec::new();
        let ghost m = ida@;
        segments.push(IdsSegment::Ida(Box::new(ida)));
        let r = McIds { segments };
        assert(r@ =~= seq![IdsSegModel::Ida(m)]);
        r
    }

    /// The two-segment dot chain `base.member`.
    pub fn from_dot_pair(base: &str, member: &str) -> (r: McIds)
        ensures
            r@ == seq![IdsSegModel::Ida(parse_ida(base@)), IdsSegModel::DotIda(parse_ida(member@))],
    {
        let mut segments: Vec<IdsSegment> = Vec::new();
        segments.push(IdsSegment::Ida(Box::new(McIda::from(base))));
        segments.push(IdsSegment::DotIda(Box::new(McIda::from(member))));
        let r = McIds { segments };
        assert(r@ =~= seq![
            IdsSegModel::Ida(parse_ida(base@)),
            IdsSegModel::DotIda(parse_ida(member@)),
        ]);
        r
    }

    /// A deep copy of the identifier.
    pub fn copy(&self) -> (r: McIds)
        ensures
            r@ == self@,
    {
        McIds { segments: copy_segments(&self.segments) }
    }

    pub fn is_empty(&self) -> (r: bool)
        ensures
            r == (self@.len() == 0),
    {
        self.segments.len() == 0
    }

    /// Whether a segment carries a square group (an outer `[...]` or one
    /// embedded in an IDA): `PWR_[VDD2, GND2]` does, `DC4{VDD, GND}` does not.
    pub fn has_square(&self) -> (r: bool)
        ensures
            r == (exists|k: int| 0 <= k < self@.len() && seg_has_square(#[trigger] self@[k])),
    {
        let mut i: usize = 0;
        while i < self.segments.len()
            invariant
                0 <= i <= self.segments@.len(),
                forall|k: int| 0 <= k < i ==> !seg_has_square(#[trigger] self@[k]),
            decreases self.segments@.len() - i,
        {
            if seg_has_square_exec(&self.segments[i]) {
                assert(seg_has_square(self@[i as int]));
                return true;
            }
            i += 1;
        }
        false
    }

    /// Whether the identifier is a lone square group (`[VDD1, GND1]`).
    pub fn is_square_only(&self) -> (r: bool)
        ensures
            r == (self@.len() == 1 && self@[0] is Square),
    {
        self.segments.len() == 1 && is_square_seg(&self.segments[0])
    }

    /// The last segment.
    pub fn last_segment(&self) -> (r: Option<&IdsSegment>)
        ensures
            r is None <==> self@.len() == 0,
            r matches Some(s) ==> s@ == self@[self@.len() - 1],
    {
        if self.segments.len() == 0 {
            None
        } else {
            Some(&self.segments[self.segments.len() - 1])
        }
    }

    /// Whether the last segment is a curly group.
    pub fn is_curly_bracket(&self) -> (r: bool)
        ensures
            r == (self@.len() > 0 && self@[self@.len() - 1] is Curly),
    {
        self.segments.len() > 0 && is_curly_seg(&self.segments[self.segments.len() - 1])
    }

    /// Whether the last segment is a square group.
    pub fn is_square_bracket(&self) -> (r: bool)
        ensures
            r == (self@.len() > 0 && self@[self@.len() - 1] is Square),
    {
        self.segments.len() > 0 && is_square_seg(&self.segments[self.segments.len() - 1])
    }

    /// Whether any segment is a curly group.
    pub fn has_curly(&self) -> (r: bool)
        ensures
            r == (exists|k: int| 0 <= k < self@.len() && #[trigger] self@[k] is Curly),
    {
        let mut i: usize = 0;
        while i < self.segments.len()
            invariant
                0 <= i <= self.segments@.len(),
                forall|k: int| 0 <= k < i ==> !(#[trigger] self@[k] is Curly),
            decreases self.segments@.len() - i,
        {
            if is_curly_seg(&self.segments[i]) {
                assert(self@[i as int] is Curly);
                return true;
            }
            i += 1;
        }
        false
    }

    /// Whether any segment is a dot access (`.x` or `.12`).
    pub fn has_dot(&self) -> (r: bool)
        ensures
            r == (exists|k: int|
                0 <= k < self@.len() && (#[trigger] self@[k] is DotIda || self@[k] is DotInt)),
    {
        let mut i: usize = 0;
        while i < self.segments.len()
            invariant
                0 <= i <= self.segments@.len(),
                forall|k: int|
                    0 <= k < i ==> !(#[trigger] self@[k] is DotIda || self@[k] is DotInt),
            decreases self.segments@.len() - i,
        {
            match &self.segments[i] {
                IdsSegment::DotIda(_) | IdsSegment::DotInt(_) => {
                    assert(self@[i as int] is DotIda || self@[i as int] is DotInt);
                    return true;
                },
                _ => {},
            }
            i += 1;
        }
        false
    }

    /// Number of square-bearing segments (`A[1:2][3:4]` has two).
    pub fn square_segment_count(&self) -> (r: usize)
        ensures
            r == square_count(self@),
    {
        let mut n: usize = 0;
        let mut i: usize = 0;
        while i < self.segments.len()
            invariant
                0 <= i <= self.segments@.len(),
                n == square_count(self@.take(i as int)),
                n <= i,
            decreases self.segments@.len() - i,
        {
            assert(self@.take(i + 1).drop_last() =~= self@.take(i as int));
            if seg_has_square_exec(&self.segments[i]) {
                n += 1;
            }
            i += 1;
        }
        assert(self@.take(self@.len() as int) =~= self@);
        n
    }

    /// Whether any IDA segment refers to a parameter in a range.
    pub fn has_param_ref(&self) -> (r: bool)
        ensures
            r == (exists|k: int|
                0 <= k < self@.len() && #[trigger] self@[k] is Ida && ida_has_param_ref(
                    self@[k]->Ida_0,
                )),
    {
        let mut i: usize = 0;
        while i < self.segments.len()
            invariant
                0 <= i <= self.segments@.len(),
                forall|k: int|
                    0 <= k < i ==> !(#[trigger] self@[k] is Ida && ida_has_param_ref(
                        self@[k]->Ida_0,
                    )),
            decreases self.segments@.len() - i,
        {
            if let IdsSegment::Ida(a) = &self.segments[i] {
                if a.has_param_ref() {
                    assert(self@[i as int] is Ida);
                    return true;
                }
            }
            i += 1;
        }
        false
    }

    /// Bus form `IDA{...}` (`DC1{VDD, GND}`); `uC.ADC{P,N}` and square forms
    /// are not buses.
    pub fn is_bus(&self) -> (r: bool)
        ensures
            r == is_bus_form(self@),
    {
        let n = self.segments.len();
        n >= 2 && is_curly_seg(&self.segments[n - 1]) && is_ida_seg(&self.segments[n - 2])
    }

    /// List form `IDA[...]` (`GPIO[1:2]`) or a lone square group (`[LX, GND]`).
    pub fn is_list(&self) -> (r: bool)
        ensures
            r == is_list_form(self@),
    {
        let n = self.segments.len();
        (n >= 2 && is_square_seg(&self.segments[n - 1]) && is_ida_seg(&self.segments[n - 2])) || (n
            == 1 && is_square_seg(&self.segments[0]))
    }

    /// Whether `target` is one of the names the identifier expands to.
    pub fn match_name(&self, target: &str) -> (r: bool)
        ensures
            r == ids_expand(self@).contains(target@),
    {
        let names = self.expand();
        let mut i: usize = 0;
        while i < names.len()
            invariant
                0 <= i <= names@.len(),
                texts(names@) == ids_expand(self@),
                forall|k: int| 0 <= k < i ==> names@[k]@ != target@,
            decreases names@.len() - i,
        {
            if str_eq(names[i].as_str(), target) {
                assert(texts(names@)[i as int] == target@);
                return true;
            }
            i += 1;
        }
        proof {
            if ids_expand(self@).contains(target@) {
                let k = choose|k: int| 0 <= k < ids_expand(self@).len() && ids_expand(self@)[k] == target@;
                assert(texts(names@)[k] == names@[k]@);
            }
        }
        false
    }

    /// The identifier's text, unless it has no segment.
    pub fn get_primary_name(&self) -> (r: Option<String>)
        ensures
            r is None <==> self@.len() == 0,
            r matches Some(s) ==> s@ == ids_text(self@),
    {
        if self.segments.len() == 0 {
            None
        } else {
            Some(self.to_string())
        }
    }

    /// The text of the first segment (the root of a member path such as
    /// `U_MCU.UART0.TX`).
    pub fn root_name(&self) -> (r: Option<String>)
        ensures
            r is None <==> self@.len() == 0,
            r matches Some(s) ==> s@ == seg_text(self@[0]),
    {
        if self.segments.len() == 0 {
            None
        } else {
            Some(seg_to_string(&self.segments[0]))
        }
    }

    /// Members of the identifier: it has none of its own.
    pub fn get_members(&self) -> (r: Vec<&McIds>)
        ensures
            r@.len() == 0,
    {
        Vec::new()
    }
}

// ---------------------------------------------------------------------------
// Names and members
// ---------------------------------------------------------------------------

/// Text before the first square group of an IDA that starts with text.
pub open spec fn ida_prefix(a: Seq<IdaSegModel>) -> Seq<char> {
    if a.len() > 0 && a[0] is Id {
        a[0]->Id_0
    } else {
        seq![]
    }
}

/// Base text of a segment list: the segment texts before the first curly
/// or square group, with each IDA contributing only its leading text.
pub open spec fn base_text(v: Seq<IdsSegModel>) -> Seq<char>
    decreases v.len(),
{
    if v.len() == 0 {
        seq![]
    } else {
        match v[0] {
            IdsSegModel::Curly(_) => seq![],
            IdsSegModel::Square(_) => seq![],
            IdsSegModel::Int(x) => int_text(x as int) + base_text(v.drop_first()),
            IdsSegModel::Ida(a) => ida_prefix(a) + base_text(v.drop_first()),
            IdsSegModel::DotInt(x) => dot(int_text(x as int)) + base_text(v.drop_first()),
            IdsSegModel::DotIda(a) => dot(ida_text(a)) + base_text(v.drop_first()),
            IdsSegModel::Slice(f, t) => int_text(f as int) + seq![':'] + int_text(t as int)
                + base_text(v.drop_first()),
        }
    }
}

/// Members an entry of a list or bus group contributes: IDA names,
/// integers, slice runs; nothing else.
pub open spec fn member_item(x: IdsSegModel) -> Seq<Seq<char>> {
    match x {
        IdsSegModel::Ida(a) => ida_expand(a),
        IdsSegModel::Int(v) => seq![int_text(v as int)],
        IdsSegModel::Slice(f, t) => slice_texts(f as int, t as int),
        _ => seq![],
    }
}

/// Members of a list or bus group.
pub open spec fn member_items(v: Seq<IdsSegModel>) -> Seq<Seq<char>>
    decreases v.len(),
{
    if v.len() == 0 {
        seq![]
    } else {
        member_items(v.drop_last()) + member_item(v.last())
    }
}

/// Texts joined with `.`.
pub open spec fn join_dot(v: Seq<Seq<char>>) -> Seq<char>
    decreases v.len(),
{
    if v.len() == 0 {
        seq![]
    } else if v.len() == 1 {
        v[0]
    } else {
        join_dot(v.drop_last()) + seq!['.'] + v.last()
    }
}

/// A member of a component-member group: an IDA's names joined with `.`,
/// an integer; nothing else.
pub open spec fn component_member_item(x: IdsSegModel) -> Seq<Seq<char>> {
    match x {
        IdsSegModel::Ida(a) => seq![join_dot(ida_expand(a))],
        IdsSegModel::Int(v) => seq![int_text(v as int)],
        _ => seq![],
    }
}

/// Members of a component-member group.
pub open spec fn component_member_items(v: Seq<IdsSegModel>) -> Seq<Seq<char>>
    decreases v.len(),
{
    if v.len() == 0 {
        seq![]
    } else {
        component_member_items(v.drop_last()) + component_member_item(v.last())
    }
}

/// The part of a dot chain one segment contributes: the single name of an
/// IDA, an integer; `None` when the segment is a group or names more than
/// one thing.
pub open spec fn dot_part(s: IdsSegModel) -> Option<Seq<char>> {
    match s {
        IdsSegModel::Ida(a) => if ida_expand(a).len() == 1 {
            Some(ida_expand(a)[0])
        } else {
            None
        },
        IdsSegModel::DotIda(a) => if ida_expand(a).len() == 1 {
            Some(ida_expand(a)[0])
        } else {
            None
        },
        IdsSegModel::Int(v) => Some(int_text(v as int)),
        IdsSegModel::DotInt(v) => Some(int_text(v as int)),
        _ => None,
    }
}

/// The names of a plain dot chain, if the identifier is one.
pub open spec fn dot_parts(v: Seq<IdsSegModel>) -> Option<Seq<Seq<char>>>
    decreases v.len(),
{
    if v.len() == 0 {
        Some(seq![])
    } else {
        match (dot_parts(v.drop_last()), dot_part(v.last())) {
            (Some(p), Some(x)) => Some(p.push(x)),
            _ => None,
        }
    }
}

/// Members one embedded square item contributes: an integer range expands
/// in declaration order, any other range stays its text.
pub open spec fn embedded_item(i: crate::mc_ida::SquareItemModel) -> Seq<Seq<char>> {
    match i {
        crate::mc_ida::SquareItemModel::Id(s) => seq![s],
        crate::mc_ida::SquareItemModel::Range(a, b) => if parse_i64(a) is Some && parse_i64(
            b,
        ) is Some {
            slice_texts(parse_i64(a)->0 as int, parse_i64(b)->0 as int)
        } else {
            seq![a + seq![':'] + b]
        },
    }
}

/// Members of embedded square items.
pub open spec fn embedded_items(v: Seq<crate::mc_ida::SquareItemModel>) -> Seq<Seq<char>>
    decreases v.len(),
{
    if v.len() == 0 {
        seq![]
    } else {
        embedded_items(v.drop_last()) + embedded_item(v.last())
    }
}

/// Members of the square groups embedded in an IDA.
pub open spec fn embedded_members(a: Seq<IdaSegModel>) -> Seq<Seq<char>>
    decreases a.len(),
{
    if a.len() == 0 {
        seq![]
    } else {
        embedded_members(a.drop_last()) + match a.last() {
            IdaSegModel::Square(items) => embedded_items(items),
            IdaSegModel::Id(_) => seq![],
        }
    }
}

/// Number of square groups of an IDA.
pub open spec fn ida_square_count(a: Seq<IdaSegModel>) -> nat
    decreases a.len(),
{
    if a.len() == 0 {
        0
    } else {
        ida_square_count(a.drop_last()) + if a.last() is Square {
            1nat
        } else {
            0nat
        }
    }
}

/// Index of the first text segment of an IDA, `a.len()` when none.
pub open spec fn first_id_index(a: Seq<IdaSegModel>, k: int) -> int
    decreases a.len() - k,
{
    if k >= a.len() {
        a.len() as int
    } else if a[k] is Id {
        k
    } else {
        first_id_index(a, k + 1)
    }
}

/// Member texts of the segments of a list/bus group.
fn member_items_exec(v: &Vec<IdsSegment>) -> (r: Vec<String>)
    ensures
        texts(r@) == member_items(ids_models(v@)),
{
    let mut out: Vec<String> = Vec::new();
    let mut i: usize = 0;
    while i < v.len()
        invariant
            0 <= i <= v@.len(),
            texts(out@) == member_items(ids_models(v@.take(i as int))),
        decreases v@.len() - i,
    {
        match &v[i] {
            IdsSegment::Ida(a) => {
                let e = a.expand();
                extend_strings(&mut out, e.as_slice());
            },
            IdsSegment::Int(x) => {
                let e = one_string(int_string(x.value));
                extend_strings(&mut out, e.as_slice());
            },
            IdsSegment::Slice { from, to } => {
                let e = slice_exec(from.value, to.value);
                extend_strings(&mut out, e.as_slice());
            },
            _ => {},
        }
        proof {
            lemma_seg_texts_take(v@, i as int);
            assert(ids_models(v@.take(i + 1)).drop_last() =~= ids_models(v@.take(i as int)));
            assert(member_items(ids_models(v@.take(i + 1))) =~= member_items(
                ids_models(v@.take(i as int)),
            ) + member_item(v@[i as int]@));
        }
        i += 1;
    }
    assert(v@.take(v@.len() as int) =~= v@);
    out
}

/// Texts joined with `.`.
fn join_dot_exec(v: &[String]) -> (r: String)
    ensures
        r@ == join_dot(texts(v@)),
{
    let mut out = String::new();
    let mut i: usize = 0;
    while i < v.len()
        invariant
            0 <= i <= v@.len(),
            out@ == join_dot(texts(v@.take(i as int))),
        decreases v@.len() - i,
    {
        if i > 0 {
            push_char(&mut out, '.');
        }
        out.append(v[i].as_str());
        proof {
            let all = texts(v@.take(i + 1));
            assert(all.drop_last() =~= texts(v@.take(i as int)));
            if i == 0 {
                assert(out@ =~= all[0]);
            } else {
                assert(out@ =~= join_dot(texts(v@.take(i as int))) + seq!['.'] + all.last());
            }
        }
        i += 1;
    }
    assert(v@.take(v@.len() as int) =~= v@);
    out
}

impl McIds {
    /// The text before the first curly or square group, an IDA contributing
    /// only its leading text: `DC4{VDD, GND}` gives `DC4`, `PWR_[VDD2, GND2]`
    /// gives `PWR_`.
    pub fn base_name(&self) -> (r: String)
        ensures
            r@ == base_text(self@),
    {
        let mut out = String::new();
        let mut i: usize = 0;
        assert(self@.skip(0) =~= self@);
        assert(out@ + base_text(self@) =~= base_text(self@));
        while i < self.segments.len()
            invariant
                0 <= i <= self.segments@.len(),
                out@ + base_text(self@.skip(i as int)) == base_text(self@),
            decreases self.segments@.len() - i,
        {
            let ghost rest = self@.skip(i as int);
            assert(rest.drop_first() =~= self@.skip(i + 1));
            assert(rest[0] == self.segments@[i as int]@);
            let piece = match &self.segments[i] {
                IdsSegment::Curly(_) | IdsSegment::Square(_) => {
                    assert(base_text(rest) =~= seq![]);
                    assert(out@ =~= base_text(self@));
                    return out;
                },
                IdsSegment::Int(x) => int_string(x.value),
                IdsSegment::Ida(a) => a.prefix().to_owned(),
                IdsSegment::DotInt(x) => {
                    let mut s = String::new();
                    push_char(&mut s, '.');
                    let t = int_string(x.value);
                    s.append(t.as_str());
                    assert(s@ =~= dot(int_text(x.value as int)));
                    s
                },
                IdsSegment::DotIda(a) => {
                    let mut s = String::new();
                    push_char(&mut s, '.');
                    let t = a.to_string();
                    s.append(t.as_str());
                    assert(s@ =~= dot(ida_text(a@)));
                    s
                },
                IdsSegment::Slice { from, to } => {
                    let mut s = int_string(from.value);
                    push_char(&mut s, ':');
                    let t = int_string(to.value);
                    s.append(t.as_str());
                    assert(s@ =~= int_text(from.value as int) + seq![':'] + int_text(
                        to.value as int,
                    ));
                    s
                },
            };
            let ghost before = out@;
            out.append(piece.as_str());
            assert(base_text(rest) == piece@ + base_text(self@.skip(i + 1)));
            assert(out@ + base_text(self@.skip(i + 1)) =~= before + base_text(rest));
            i += 1;
        }
        assert(base_text(self@.skip(i as int)) =~= seq![]);
        assert(out@ =~= base_text(self@));
        out
    }

    /// Same reading as [`McIds::base_name`].
    pub fn prefix_only(&self) -> (r: String)
        ensures
            r@ == base_text(self@),
    {
        self.base_name()
    }

    /// The members of a list form: the square group's IDA names, integers
    /// and slice runs (`PDM[CLK, DATA]` gives `CLK`, `DATA`; `GPIO[1:4]`
    /// gives `1` .. `4`); `None` unless the identifier is a list.
    pub fn list_members(&self) -> (r: Option<Vec<String>>)
        ensures
            r is Some <==> is_list_form(self@),
            r matches Some(m) ==> texts(m@) == member_items(
                (if self@.len() == 1 {
                    self@[0]
                } else {
                    self@[self@.len() - 1]
                })->Square_0,
            ),
    {
        if !self.is_list() {
            return None;
        }
        let idx = if self.segments.len() == 1 {
            0
        } else {
            self.segments.len() - 1
        };
        match &self.segments[idx] {
            IdsSegment::Square(segs) => {
                proof {
                    lemma_inner_models(*segs);
                }
                Some(member_items_exec(segs))
            },
            _ => None,
        }
    }

    /// Bus name and members of a bus form `IDA{...}` (`DC1{VDD, GND}` gives
    /// `DC1` with `VDD`, `GND`): the name is the first name of the IDA, the
    /// members the group's IDA names, integers and slice runs.
    pub fn as_bus(&self) -> (r: Option<(String, Vec<String>)>)
        ensures
            r is Some <==> (is_bus_form(self@) && ida_expand(
                self@[self@.len() - 2]->Ida_0,
            ).len() > 0),
            r matches Some((name, m)) ==> {
                &&& name@ == ida_expand(self@[self@.len() - 2]->Ida_0)[0]
                &&& texts(m@) == member_items(self@[self@.len() - 1]->Curly_0)
            },
            r is None <==> bus_of(self@) is None,
            r matches Some((name, m)) ==> bus_of(self@) == Some((name@, texts(m@))),
    {
        if !self.is_bus() {
            return None;
        }
        let n = self.segments.len();
        let name = match &self.segments[n - 2] {
            IdsSegment::Ida(a) => {
                let e = a.expand();
                if e.len() == 0 {
                    return None;
                }
                copy_string(&e[0])
            },
            _ => {
                return None;
            },
        };
        match &self.segments[n - 1] {
            IdsSegment::Curly(segs) => {
                proof {
                    lemma_inner_models(*segs);
                }
                Some((name, member_items_exec(segs)))
            },
            _ => None,
        }
    }

    /// Component-member access `COMP.MEMBER{...}` (`uC.ADC{P,N}` gives `uC`,
    /// `ADC`, `P`, `N`): the component is the first name of the base IDA,
    /// the member the dotted IDA's names joined with `.`, the members the
    /// group's IDA names (joined with `.`) and integers; `None` when that
    /// member list is empty.
    pub fn as_component_member(&self) -> (r: Option<(String, String, Vec<String>)>)
        ensures
            r is Some <==> ({
                &&& self@.len() >= 3
                &&& self@[self@.len() - 1] is Curly
                &&& self@[self@.len() - 2] is DotIda
                &&& self@[self@.len() - 3] is Ida
                &&& ida_expand(self@[self@.len() - 3]->Ida_0).len() > 0
                &&& component_member_items(self@[self@.len() - 1]->Curly_0).len() > 0
            }),
            r matches Some((c, m, ms)) ==> {
                &&& c@ == ida_expand(self@[self@.len() - 3]->Ida_0)[0]
                &&& m@ == join_dot(ida_expand(self@[self@.len() - 2]->DotIda_0))
                &&& texts(ms@) == component_member_items(self@[self@.len() - 1]->Curly_0)
            },
    {
        let n = self.segments.len();
        if n < 3 {
            return None;
        }
        match (&self.segments[n - 1], &self.segments[n - 2], &self.segments[n - 3]) {
            (IdsSegment::Curly(curly), IdsSegment::DotIda(dot_ida), IdsSegment::Ida(base)) => {
                proof {
                    lemma_inner_models(*curly);
                }
                let be = base.expand();
                if be.len() == 0 {
                    return None;
                }
                let component = copy_string(&be[0]);
                let de = dot_ida.expand();
                let member = join_dot_exec(de.as_slice());
                let mut members: Vec<String> = Vec::new();
                let mut i: usize = 0;
                while i < curly.len()
                    invariant
                        0 <= i <= curly@.len(),
                        texts(members@) == component_member_items(
                            ids_models(curly@.take(i as int)),
                        ),
                    decreases curly@.len() - i,
                {
                    let ghost prev = members@;
                    match &curly[i] {
                        IdsSegment::Ida(a) => {
                            let e = a.expand();
                            let j = join_dot_exec(e.as_slice());
                            proof {
                                lemma_texts_push(members@, j);
                            }
                            members.push(j);
                        },
                        IdsSegment::Int(x) => {
                            let t = int_string(x.value);
                            proof {
                                lemma_texts_push(members@, t);
                            }
                            members.push(t);
                        },
                        _ => {},
                    }
                    proof {
                        lemma_seg_texts_take(curly@, i as int);
                        assert(ids_models(curly@.take(i + 1)).drop_last() =~= ids_models(
                            curly@.take(i as int),
                        ));
                        assert(texts(members@) =~= texts(prev) + component_member_item(
                            curly@[i as int]@,
                        ));
                    }
                    i += 1;
                }
                assert(curly@.take(curly@.len() as int) =~= curly@);
                if members.len() > 0 {
                    Some((component, member, members))
                } else {
                    None
                }
            },
            _ => None,
        }
    }

    /// The names of a plain dot chain (`uC.ADC.P` gives `uC`, `ADC`, `P`);
    /// `None` when a group is present or a segment names more than one thing.
    pub fn dot_chain_parts(&self) -> (r: Option<Vec<String>>)
        ensures
            r is Some <==> dot_parts(self@) is Some,
            r matches Some(p) ==> texts(p@) == dot_parts(self@)->0,
    {
        let mut parts: Vec<String> = Vec::new();
        let mut i: usize = 0;
        while i < self.segments.len()
            invariant
                0 <= i <= self.segments@.len(),
                dot_parts(self@.take(i as int)) == Some(texts(parts@)),
            decreases self.segments@.len() - i,
        {
            proof {
                assert(self@.take(i + 1).drop_last() =~= self@.take(i as int));
                assert(self@.take(i + 1).last() == self.segments@[i as int]@);
            }
            let piece = match &self.segments[i] {
                IdsSegment::Ida(a) | IdsSegment::DotIda(a) => {
                    let e = a.expand();
                    if e.len() != 1 {
                        proof {
                            lemma_dot_parts_none(self@, i as int);
                        }
                        return None;
                    }
                    copy_string(&e[0])
                },
                IdsSegment::Int(x) | IdsSegment::DotInt(x) => int_string(x.value),
                _ => {
                    proof {
                        lemma_dot_parts_none(self@, i as int);
                    }
                    return None;
                },
            };
            proof {
                lemma_texts_push(parts@, piece);
            }
            parts.push(piece);
            i += 1;
        }
        assert(self@.take(self@.len() as int) =~= self@);
        Some(parts)
    }

    /// A two-segment dot access: `DC2.VDD` gives (`DC2`, `VDD`), `K.45`
    /// gives (`K`, `45`), each side the first name of its IDA.
    pub fn as_dot_access(&self) -> (r: Option<(String, String)>)
        ensures
            r is Some <==> ({
                &&& self@.len() == 2
                &&& self@[0] is Ida
                &&& ida_expand(self@[0]->Ida_0).len() > 0
                &&& (self@[1] is DotInt || (self@[1] is DotIda && ida_expand(
                    self@[1]->DotIda_0,
                ).len() > 0))
            }),
            r is None <==> dot_access_of(self@) is None,
            r matches Some((b, m)) ==> dot_access_of(self@) == Some((b@, m@)),
            r matches Some((b, m)) ==> {
                &&& b@ == ida_expand(self@[0]->Ida_0)[0]
                &&& m@ == (if self@[1] is DotInt {
                    int_text(self@[1]->DotInt_0 as int)
                } else {
                    ida_expand(self@[1]->DotIda_0)[0]
                })
            },
    {
        if self.segments.len() != 2 {
            return None;
        }
        match (&self.segments[0], &self.segments[1]) {
            (IdsSegment::Ida(base), IdsSegment::DotIda(member)) => {
                let be = base.expand();
                if be.len() == 0 {
                    return None;
                }
                let me = member.expand();
                if me.len() == 0 {
                    return None;
                }
                Some((copy_string(&be[0]), copy_string(&me[0])))
            },
            (IdsSegment::Ida(base), IdsSegment::DotInt(member)) => {
                let be = base.expand();
                if be.len() == 0 {
                    return None;
                }
                Some((copy_string(&be[0]), int_string(member.value)))
            },
            _ => None,
        }
    }

    /// The text of the first text segment of a lone IDA that carries a
    /// square group (`GPIO[1:2]` gives `GPIO`); `None` for every other shape.
    pub fn get_base_name(&self) -> (r: Option<String>)
        ensures
            r is Some <==> ({
                &&& self@.len() == 1
                &&& self@[0] is Ida
                &&& exists|k: int|
                    0 <= k < self@[0]->Ida_0.len() && #[trigger] self@[0]->Ida_0[k] is Square
                &&& first_id_index(self@[0]->Ida_0, 0) < self@[0]->Ida_0.len()
            }),
            r matches Some(s) ==> s@ == self@[0]->Ida_0[first_id_index(self@[0]->Ida_0, 0)]->Id_0,
    {
        if self.segments.len() != 1 {
            return None;
        }
        match &self.segments[0] {
            IdsSegment::Ida(ida) => {
                assert(self@[0] == IdsSegModel::Ida(ida@));
                if !ida.has_square() {
                    return None;
                }
                let mut k: usize = 0;
                while k < ida.segments.len()
                    invariant
                        0 <= k <= ida.segments@.len(),
                        first_id_index(ida@, k as int) == first_id_index(ida@, 0),
                        self@.len() == 1,
                        self@[0] == IdsSegModel::Ida(ida@),
                        exists|j: int| 0 <= j < ida@.len() && #[trigger] ida@[j] is Square,
                    decreases ida.segments@.len() - k,
                {
                    if let IdaSegment::Id(name) = &ida.segments[k] {
                        assert(ida@[k as int] is Id);
                        assert(first_id_index(ida@, k as int) == k);
                        assert(ida@[k as int]->Id_0 == name@);
                        return Some(copy_string(name));
                    }
                    assert(!(ida@[k as int] is Id));
                    k += 1;
                }
                None
            },
            _ => None,
        }
    }

    /// Members of a square group embedded in a lone IDA (`PDM[CLK, DATA]`
    /// gives `CLK`, `DATA`; integer ranges expand in declaration order);
    /// `None` for other shapes, for an IDA with more than one square group
    /// (`R[1:2]C[1:3]`), and when there are no members.
    pub fn embedded_square_members(&self) -> (r: Option<Vec<String>>)
        ensures
            r is Some <==> ({
                &&& self@.len() == 1
                &&& self@[0] is Ida
                &&& ida_square_count(self@[0]->Ida_0) <= 1
                &&& embedded_members(self@[0]->Ida_0).len() > 0
            }),
            r matches Some(m) ==> texts(m@) == embedded_members(self@[0]->Ida_0),
    {
        if self.segments.len() != 1 {
            return None;
        }
        match &self.segments[0] {
            IdsSegment::Ida(ida) => {
                let mut count: usize = 0;
                let mut members: Vec<String> = Vec::new();
                let mut k: usize = 0;
                while k < ida.segments.len()
                    invariant
                        0 <= k <= ida.segments@.len(),
                        count == ida_square_count(ida@.take(k as int)),
                        count <= k,
                        texts(members@) == embedded_members(ida@.take(k as int)),
                    decreases ida.segments@.len() - k,
                {
                    proof {
                        assert(ida@.take(k + 1).drop_last() =~= ida@.take(k as int));
                        assert(ida@.take(k + 1).last() == ida.segments@[k as int]@);
                    }
                    if let IdaSegment::Square(items) = &ida.segments[k] {
                        count += 1;
                        let mut j: usize = 0;
                        let ghost base = texts(members@);
                        while j < items.len()
                            invariant
                                0 <= j <= items@.len(),
                                texts(members@) == base + embedded_items(
                                    crate::mc_ida::item_models(items@.take(j as int)),
                                ),
                            decreases items@.len() - j,
                        {
                            let e = embedded_item_exec(&items[j]);
                            extend_strings(&mut members, e.as_slice());
                            proof {
                                let m = crate::mc_ida::item_models(items@.take(j + 1));
                                assert(m.drop_last() =~= crate::mc_ida::item_models(
                                    items@.take(j as int),
                                ));
                                assert(m.last() == items@[j as int]@);
                            }
                            j += 1;
                        }
                        assert(items@.take(items@.len() as int) =~= items@);
                    }
                    k += 1;
                }
                assert(ida@.take(ida@.len() as int) =~= ida@);
                if count > 1 {
                    return None;
                }
                if members.len() == 0 {
                    None
                } else {
                    Some(members)
                }
            },
            _ => None,
        }
    }
}

/// Members one embedded square item contributes.
fn embedded_item_exec(item: &crate::mc_ida::SquareItem) -> (r: Vec<String>)
    ensures
        texts(r@) == embedded_item(item@),
{
    match item {
        crate::mc_ida::SquareItem::Id(s) => one_string(copy_string(s)),
        crate::mc_ida::SquareItem::Range(a, b) => {
            let ca = crate::text::chars_of(a.as_str());
            let cb = crate::text::chars_of(b.as_str());
            let pa = crate::text::parse_i64_chars(ca.as_slice());
            let pb = crate::text::parse_i64_chars(cb.as_slice());
            if pa.is_some() && pb.is_some() {
                slice_exec(pa.unwrap(), pb.unwrap())
            } else {
                let mut t = copy_string(a);
                push_char(&mut t, ':');
                let t2 = crate::strs::concat_strings(t.as_str(), b.as_str());
                assert(t2@ =~= a@ + seq![':'] + b@);
                one_string(t2)
            }
        },
    }
}

pub proof fn lemma_dot_parts_none(v: Seq<IdsSegModel>, i: int)
    requires
        0 <= i < v.len(),
        dot_part(v[i]) is None,
    ensures
        dot_parts(v) is None,
    decreases v.len(),
{
    if i < v.len() - 1 {
        lemma_dot_parts_none(v.drop_last(), i);
    }
}

// ---------------------------------------------------------------------------
// Name forms
// ---------------------------------------------------------------------------

/// Bus name and members of a bus form, when its IDA names something.
pub open spec fn bus_of(v: Seq<IdsSegModel>) -> Option<(Seq<char>, Seq<Seq<char>>)> {
    if is_bus_form(v) && ida_expand(v[v.len() - 2]->Ida_0).len() > 0 {
        Some((ida_expand(v[v.len() - 2]->Ida_0)[0], member_items(v[v.len() - 1]->Curly_0)))
    } else {
        None
    }
}

/// Base and member of a two-segment dot access.
pub open spec fn dot_access_of(v: Seq<IdsSegModel>) -> Option<(Seq<char>, Seq<char>)> {
    if v.len() == 2 && v[0] is Ida && ida_expand(v[0]->Ida_0).len() > 0 {
        if v[1] is DotInt {
            Some((ida_expand(v[0]->Ida_0)[0], int_text(v[1]->DotInt_0 as int)))
        } else if v[1] is DotIda && ida_expand(v[1]->DotIda_0).len() > 0 {
            Some((ida_expand(v[0]->Ida_0)[0], ida_expand(v[1]->DotIda_0)[0]))
        } else {
            None
        }
    } else {
        None
    }
}

/// Every name form of an identifier a usage site may spell: its text, its
/// expanded names, its base text (when not empty), the `bus.member` forms of
/// a bus, and the base of a dot access (when it differs from the base text).
pub open spec fn name_forms(v: Seq<IdsSegModel>) -> Seq<Seq<char>> {
    seq![ids_text(v)] + ids_expand(v) + (if base_text(v).len() > 0 {
        seq![base_text(v)]
    } else {
        seq![]
    }) + (match bus_of(v) {
        Some((name, ms)) => ms.map_values(|m: Seq<char>| name + seq!['.'] + m),
        None => seq![],
    }) + (match dot_access_of(v) {
        Some((d, _)) => if d != base_text(v) {
            seq![d]
        } else {
            seq![]
        },
        None => seq![],
    })
}

impl McIds {
    /// All name forms a usage site may spell for this identifier.
    pub fn all_name_forms(&self) -> (r: Vec<String>)
        ensures
            texts(r@) == name_forms(self@),
    {
        let mut forms: Vec<String> = Vec::new();
        forms.push(self.to_string());
        let e = self.expand();
        extend_strings(&mut forms, e.as_slice());
        let base = self.base_name();
        assert(texts(forms@) =~= seq![ids_text(self@)] + ids_expand(self@));
        let ghost after_expand = texts(forms@);
        if !base.as_str().is_empty() {
            let b = copy_string(&base);
            proof {
                lemma_texts_push(forms@, b);
            }
            forms.push(b);
        }
        let ghost after_base = texts(forms@);
        assert(after_base =~= after_expand + (if base_text(self@).len() > 0 {
            seq![base_text(self@)]
        } else {
            seq![]
        }));
        let bus = self.as_bus();
        if let Some((bus_name, members)) = bus {
            let mut i: usize = 0;
            while i < members.len()
                invariant
                    0 <= i <= members@.len(),
                    texts(forms@) == after_base + texts(members@.take(i as int)).map_values(
                        |m: Seq<char>| bus_name@ + seq!['.'] + m,
                    ),
                decreases members@.len() - i,
            {
                let mut f = copy_string(&bus_name);
                push_char(&mut f, '.');
                push_str(&mut f, members[i].as_str());
                assert(f@ =~= bus_name@ + seq!['.'] + members@[i as int]@);
                proof {
                    lemma_texts_push(forms@, f);
                    lemma_texts_take(members@, i as int);
                    assert(texts(members@.take(i + 1)).map_values(
                        |m: Seq<char>| bus_name@ + seq!['.'] + m,
                    ) =~= texts(members@.take(i as int)).map_values(
                        |m: Seq<char>| bus_name@ + seq!['.'] + m,
                    ).push(f@));
                }
                forms.push(f);
                i += 1;
            }
            assert(members@.take(members@.len() as int) =~= members@);
        } else {
            assert(texts(forms@) =~= after_base + seq![]);
        }
        let ghost after_bus = texts(forms@);
        let d = self.as_dot_access();
        if let Some((d_base, _member)) = d {
            if !str_eq(d_base.as_str(), base.as_str()) {
                proof {
                    lemma_texts_push(forms@, d_base);
                }
                forms.push(d_base);
            } else {
                assert(texts(forms@) =~= after_bus + seq![]);
            }
        } else {
            assert(texts(forms@) =~= after_bus + seq![]);
        }
        forms
    }
}

// ---------------------------------------------------------------------------
// Display-text parsing
// ---------------------------------------------------------------------------

/// Scan from `j` for the close bracket that balances `depth` open ones;
/// a backslash hides the next character. Gives the position after the
/// scan and the depth left (0 when balanced).
pub open spec fn match_end(s: Seq<char>, j: int, depth: int, open: char, close: char) -> (
    int,
    int,
)
    decreases s.len() + 1 - j,
{
    if j >= s.len() || depth <= 0 || j < 0 {
        (j, depth)
    } else if s[j] == '\\' {
        if j + 2 <= s.len() {
            match_end(s, j + 2, depth, open, close)
        } else {
            (s.len() as int, depth)
        }
    } else if s[j] == open {
        match_end(s, j + 1, depth + 1, open, close)
    } else if s[j] == close {
        match_end(s, j + 1, depth - 1, open, close)
    } else {
        match_end(s, j + 1, depth, open, close)
    }
}

pub proof fn lemma_match_end(s: Seq<char>, j: int, depth: int, open: char, close: char)
    requires
        0 <= j <= s.len(),
        depth >= 1,
    ensures
        j <= match_end(s, j, depth, open, close).0 <= s.len(),
        match_end(s, j, depth, open, close).1 >= 0,
        match_end(s, j, depth, open, close).1 == 0 ==> {
            &&& j + 1 <= match_end(s, j, depth, open, close).0 <= s.len()
            &&& s[match_end(s, j, depth, open, close).0 - 1] == close
        },
    decreases s.len() + 1 - j,
{
    reveal_with_fuel(match_end, 2);
    if j < s.len() {
        if s[j] == '\\' {
            if j + 2 <= s.len() {
                lemma_match_end(s, j + 2, depth, open, close);
            }
        } else if s[j] == open {
            lemma_match_end(s, j + 1, depth + 1, open, close);
        } else if s[j] == close {
            if depth - 1 >= 1 {
                lemma_match_end(s, j + 1, depth - 1, open, close);
            }
        } else {
            lemma_match_end(s, j + 1, depth, open, close);
        }
    }
}

/// The top-level curly groups of a display text from position `i`, as
/// (open, close) index pairs. Square content is skipped whole, a backslash
/// hides the next character, and an unbalanced `{` stays literal.
pub open spec fn groups_scan(s: Seq<char>, i: int) -> Seq<(int, int)>
    decreases s.len() + 1 - i,
{
    if i >= s.len() || i < 0 {
        seq![]
    } else if s[i] == '\\' {
        groups_scan(s, i + 2)
    } else if s[i] == '[' {
        let j = match_end(s, i + 1, 1, '[', ']').0;
        proof {
            lemma_match_end(s, i + 1, 1, '[', ']');
        }
        groups_scan(s, j)
    } else if s[i] == '{' {
        let (j, d) = match_end(s, i + 1, 1, '{', '}');
        proof {
            lemma_match_end(s, i + 1, 1, '{', '}');
        }
        if d == 0 {
            seq![(i, j - 1)] + groups_scan(s, j)
        } else {
            groups_scan(s, i + 1)
        }
    } else {
        groups_scan(s, i + 1)
    }
}

/// Groups lie inside the text, in order, each closing before the next opens.
pub open spec fn groups_ok(g: Seq<(int, int)>, lo: int, n: int) -> bool
    decreases g.len(),
{
    if g.len() == 0 {
        true
    } else {
        lo <= g[0].0 && g[0].0 < g[0].1 && g[0].1 < n && groups_ok(g.drop_first(), g[0].1 + 1, n)
    }
}

pub proof fn lemma_groups_ok(s: Seq<char>, i: int)
    requires
        0 <= i,
    ensures
        groups_ok(groups_scan(s, i), i, s.len() as int),
    decreases s.len() + 1 - i,
{
    if i < s.len() {
        if s[i] == '\\' {
            lemma_groups_ok(s, i + 2);
            lemma_groups_ok_weaken(groups_scan(s, i + 2), i + 2, i, s.len() as int);
        } else if s[i] == '[' {
            lemma_match_end(s, i + 1, 1, '[', ']');
            let j = match_end(s, i + 1, 1, '[', ']').0;
            lemma_groups_ok(s, j);
            lemma_groups_ok_weaken(groups_scan(s, j), j, i, s.len() as int);
        } else if s[i] == '{' {
            lemma_match_end(s, i + 1, 1, '{', '}');
            let (j, d) = match_end(s, i + 1, 1, '{', '}');
            if d == 0 {
                lemma_groups_ok(s, j);
                let g = groups_scan(s, i);
                assert(g.drop_first() =~= groups_scan(s, j));
            } else {
                lemma_groups_ok(s, i + 1);
                lemma_groups_ok_weaken(groups_scan(s, i + 1), i + 1, i, s.len() as int);
            }
        } else {
            lemma_groups_ok(s, i + 1);
            lemma_groups_ok_weaken(groups_scan(s, i + 1), i + 1, i, s.len() as int);
        }
    }
}

pub proof fn lemma_groups_ok_weaken(g: Seq<(int, int)>, lo: int, lo2: int, n: int)
    requires
        groups_ok(g, lo, n),
        lo2 <= lo,
    ensures
        groups_ok(g, lo2, n),
{
}

/// The segment a curly-free text run contributes: its IDA, unless empty.
pub open spec fn text_run(r: Seq<char>) -> Seq<IdsSegModel> {
    if r.len() == 0 || parse_ida(r).len() == 0 {
        seq![]
    } else {
        seq![IdsSegModel::Ida(parse_ida(r))]
    }
}

/// The segment one member token of a curly body contributes: a numeric
/// slice, an integer, or a name; nothing when the token is blank.
pub open spec fn curly_token(tok: Seq<char>) -> Seq<IdsSegModel> {
    let t = trimmed(tok);
    let k = find_from(t, 0, ':');
    if t.len() == 0 {
        seq![]
    } else if k < t.len() && parse_i64(trimmed(t.take(k))) is Some && parse_i64(
        trimmed(t.skip(k + 1)),
    ) is Some {
        seq![
            IdsSegModel::Slice(
                parse_i64(trimmed(t.take(k)))->0,
                parse_i64(trimmed(t.skip(k + 1)))->0,
            ),
        ]
    } else if parse_i64(t) is Some {
        seq![IdsSegModel::Int(parse_i64(t)->0)]
    } else {
        seq![IdsSegModel::Ida(parse_ida(t))]
    }
}

/// Member segments of a curly body from position `i`, `tok` being the
/// token read so far: split at top-level `,` and `|`, a backslash keeps the
/// next character inside its token.
pub open spec fn curly_scan(b: Seq<char>, i: int, tok: Seq<char>) -> Seq<IdsSegModel>
    decreases b.len() - i,
{
    if i >= b.len() {
        curly_token(tok)
    } else if b[i] == '\\' {
        if i + 1 < b.len() {
            curly_scan(b, i + 2, tok.push(b[i + 1]))
        } else {
            curly_scan(b, i + 1, tok)
        }
    } else if b[i] == ',' || b[i] == '|' {
        curly_token(tok) + curly_scan(b, i + 1, seq![])
    } else {
        curly_scan(b, i + 1, tok.push(b[i]))
    }
}

/// Segments of a display text between and around its curly groups, from
/// the group list `g` on, `prev` being where the previous group ended.
pub open spec fn assemble(s: Seq<char>, g: Seq<(int, int)>, prev: int) -> Seq<IdsSegModel>
    decreases g.len(),
{
    if g.len() == 0 {
        if prev < s.len() {
            text_run(s.subrange(prev, s.len() as int))
        } else {
            seq![]
        }
    } else {
        (if g[0].0 > prev {
            text_run(s.subrange(prev, g[0].0))
        } else {
            seq![]
        }) + seq![IdsSegModel::Curly(curly_scan(s.subrange(g[0].0 + 1, g[0].1), 0, seq![]))]
            + assemble(s, g.drop_first(), g[0].1 + 1)
    }
}

/// The segment tree of a display text: text runs parse as IDAs, each
/// top-level `{...}` group becomes a curly segment of its members.
pub open spec fn display_segments(s: Seq<char>) -> Seq<IdsSegModel> {
    assemble(s, groups_scan(s, 0), 0)
}


/// The group list as integer pairs.
pub open spec fn pairs(g: Seq<(usize, usize)>) -> Seq<(int, int)> {
    g.map_values(|p: (usize, usize)| (p.0 as int, p.1 as int))
}

/// Scan for the close bracket that balances one already open; see
/// [`match_end`].
fn match_end_exec(s: &[char], j0: usize, open: char, close: char) -> (r: (usize, usize))
    requires
        1 <= j0 <= s@.len(),
        open != close,
    ensures
        r.0 as int == match_end(s@, j0 as int, 1, open, close).0,
        r.1 as int == match_end(s@, j0 as int, 1, open, close).1,
{
    let n = s.len();
    let mut j = j0;
    let mut depth: usize = 1;
    while j < n && depth > 0
        invariant
            1 <= j0 <= j <= n,
            n == s@.len(),
            depth <= j - j0 + 1,
            match_end(s@, j as int, depth as int, open, close) == match_end(
                s@,
                j0 as int,
                1,
                open,
                close,
            ),
        decreases n - j,
    {
        let c = s[j];
        if c == '\\' {
            if j + 1 < n {
                j = j + 2;
            } else {
                j = n;
            }
        } else if c == open {
            depth = depth + 1;
            j = j + 1;
        } else if c == close {
            depth = depth - 1;
            j = j + 1;
        } else {
            j = j + 1;
        }
    }
    (j, depth)
}

/// The segment of a curly-free text run, parsed as an IDA.
fn text_run_segment(run: &[char]) -> (r: Option<IdsSegment>)
    ensures
        match r {
            None => text_run(run@) == Seq::<IdsSegModel>::empty(),
            Some(x) => text_run(run@) == seq![x@],
        },
{
    if run.len() == 0 {
        return None;
    }
    let ida = McIda::parse_chars(run);
    if ida.segments.len() == 0 {
        assert(ida@.len() == 0);
        None
    } else {
        assert(ida@.len() > 0);
        Some(IdsSegment::Ida(Box::new(ida)))
    }
}

/// Append the member a curly token stands for, if any.
fn push_curly_token(segments: &mut Vec<IdsSegment>, token: &[char])
    ensures
        ids_models(final(segments)@) == ids_models(old(segments)@) + curly_token(token@),
{
    let tok = trim_chars(token);
    let ghost t = trimmed(token@);
    if tok.len() == 0 {
        assert(ids_models(segments@) =~= ids_models(segments@) + curly_token(token@));
        return;
    }
    let k = find_from_exec(tok.as_slice(), 0, ':');
    if k < tok.len() {
        let left_raw = sub_chars(tok.as_slice(), 0, k);
        let right_raw = sub_chars(tok.as_slice(), k + 1, tok.len());
        assert(left_raw@ =~= t.take(k as int));
        assert(right_raw@ =~= t.skip(k + 1));
        let left = trim_chars(left_raw.as_slice());
        let right = trim_chars(right_raw.as_slice());
        let f = parse_i64_chars(left.as_slice());
        let g = parse_i64_chars(right.as_slice());
        if let Some(fv) = f {
            if let Some(gv) = g {
                let seg = IdsSegment::Slice {
                    from: Box::new(McInt { value: fv }),
                    to: Box::new(McInt { value: gv }),
                };
                proof {
                    lemma_models_push(segments@, seg);
                }
                segments.push(seg);
                return;
            }
        }
    }
    let p = parse_i64_chars(tok.as_slice());
    match p {
        Some(v) => {
            let seg = IdsSegment::Int(Box::new(McInt { value: v }));
            proof {
                lemma_models_push(segments@, seg);
            }
            segments.push(seg);
        },
        None => {
            let seg = IdsSegment::Ida(Box::new(McIda::parse_chars(tok.as_slice())));
            proof {
                lemma_models_push(segments@, seg);
            }
            segments.push(seg);
        },
    }
}

pub proof fn lemma_models_push(v: Seq<IdsSegment>, x: IdsSegment)
    ensures
        ids_models(v.push(x)) == ids_models(v) + seq![x@],
{
    assert(ids_models(v.push(x)) =~= ids_models(v) + seq![x@]);
}

/// The member segments of a curly body.
fn curly_body_segments(body: &[char]) -> (r: Vec<IdsSegment>)
    ensures
        ids_models(r@) == curly_scan(body@, 0, seq![]),
{
    let n = body.len();
    let mut segs: Vec<IdsSegment> = Vec::new();
    let mut token: Vec<char> = Vec::new();
    let mut i: usize = 0;
    while i < n
        invariant
            0 <= i <= n,
            n == body@.len(),
            ids_models(segs@) + curly_scan(body@, i as int, token@) == curly_scan(
                body@,
                0,
                seq![],
            ),
        decreases n - i,
    {
        let c = body[i];
        if c == '\\' {
            if i + 1 < n {
                token.push(body[i + 1]);
                i = i + 2;
            } else {
                i = i + 1;
            }
        } else if c == ',' || c == '|' {
            let ghost old_models = ids_models(segs@);
            let ghost old_tok = token@;
            push_curly_token(&mut segs, token.as_slice());
            assert(ids_models(segs@) + curly_scan(body@, i + 1, seq![]) =~= old_models
                + curly_scan(body@, i as int, old_tok));
            token = Vec::new();
            i = i + 1;
        } else {
            token.push(c);
            i = i + 1;
        }
    }
    let ghost before = ids_models(segs@);
    push_curly_token(&mut segs, token.as_slice());
    segs
}

/// Parse a display text into its segment tree: the text is split into
/// curly-free runs at its top-level `{...}` groups; each run parses as an
/// IDA (squares, escapes and dots stay inside it) and each group becomes a
/// curly segment of its members (`,` / `|` separated; numeric slices,
/// integers and names).
pub fn parse_display(display: &str) -> (r: McIds)
    ensures
        r@ == display_segments(display@),
{
    let s = chars_of(display);
    let n = s.len();
    let mut groups: Vec<(usize, usize)> = Vec::new();
    let mut i: usize = 0;
    while i < n
        invariant
            0 <= i <= n,
            n == s@.len(),
            s@ == display@,
            pairs(groups@) + groups_scan(s@, i as int) == groups_scan(s@, 0),
        decreases n - i,
    {
        let c = s[i];
        if c == '\\' {
            if i + 1 < n {
                i = i + 2;
            } else {
                assert(groups_scan(s@, i + 2) =~= Seq::<(int, int)>::empty());
                assert(groups_scan(s@, n as int) =~= Seq::<(int, int)>::empty());
                i = n;
            }
        } else if c == '[' {
            proof {
                lemma_match_end(s@, i + 1, 1, '[', ']');
            }
            let (j, _d) = match_end_exec(s.as_slice(), i + 1, '[', ']');
            i = j;
        } else if c == '{' {
            proof {
                lemma_match_end(s@, i + 1, 1, '{', '}');
            }
            let (j, d) = match_end_exec(s.as_slice(), i + 1, '{', '}');
            if d == 0 {
                let ghost before = pairs(groups@);
                groups.push((i, j - 1));
                assert(pairs(groups@) =~= before.push((i as int, j - 1)));
                assert(pairs(groups@) + groups_scan(s@, j as int) =~= before + groups_scan(
                    s@,
                    i as int,
                ));
                i = j;
            } else {
                i = i + 1;
            }
        } else {
            i = i + 1;
        }
    }
    assert(pairs(groups@) =~= groups_scan(s@, 0));
    let ghost g = pairs(groups@);
    proof {
        lemma_groups_ok(s@, 0);
    }
    let mut segs: Vec<IdsSegment> = Vec::new();
    let mut prev: usize = 0;
    let mut k: usize = 0;
    assert(g.skip(0) =~= g);
    assert(ids_models(segs@) =~= Seq::<IdsSegModel>::empty());
    while k < groups.len()
        invariant
            0 <= k <= groups@.len(),
            n == s@.len(),
            s@ == display@,
            g == pairs(groups@),
            prev <= n,
            groups_ok(g.skip(k as int), prev as int, n as int),
            ids_models(segs@) + assemble(s@, g.skip(k as int), prev as int) == display_segments(
                s@,
            ),
        decreases groups@.len() - k,
    {
        let (open, close) = groups[k];
        let ghost rest = g.skip(k + 1);
        assert(g.skip(k as int).drop_first() =~= rest);
        assert(g.skip(k as int)[0] == (open as int, close as int));
        let ghost before = ids_models(segs@);
        let ghost run_part = if open > prev {
            text_run(s@.subrange(prev as int, open as int))
        } else {
            Seq::<IdsSegModel>::empty()
        };
        if open > prev {
            let run = sub_chars(s.as_slice(), prev, open);
            let seg = text_run_segment(run.as_slice());
            if let Some(x) = seg {
                proof {
                    lemma_models_push(segs@, x);
                }
                segs.push(x);
            }
        }
        assert(ids_models(segs@) =~= before + run_part);
        let body = sub_chars(s.as_slice(), open + 1, close);
        let members = curly_body_segments(body.as_slice());
        proof {
            lemma_inner_models(members);
        }
        let cseg = IdsSegment::Curly(members);
        let ghost mid = ids_models(segs@);
        proof {
            lemma_models_push(segs@, cseg);
        }
        segs.push(cseg);
        assert(ids_models(segs@) + assemble(s@, rest, close + 1) =~= before + assemble(
            s@,
            g.skip(k as int),
            prev as int,
        ));
        prev = close + 1;
        k = k + 1;
    }
    assert(g.skip(k as int) =~= Seq::<(int, int)>::empty());
    if prev < n {
        let run = sub_chars(s.as_slice(), prev, n);
        let seg = text_run_segment(run.as_slice());
        if let Some(x) = seg {
            proof {
                lemma_models_push(segs@, x);
            }
            segs.push(x);
        } else {
            assert(ids_models(segs@) =~= ids_models(segs@) + Seq::<IdsSegModel>::empty());
        }
    } else {
        assert(ids_models(segs@) =~= ids_models(segs@) + Seq::<IdsSegModel>::empty());
    }
    McIds { segments: segs }
}


/// Texts of the items of an IDA's first square group (none without one).
pub open spec fn first_square_texts(a: Seq<IdaSegModel>) -> Seq<Seq<char>>
    decreases a.len(),
{
    if a.len() == 0 {
        seq![]
    } else if a[0] is Square {
        a[0]->Square_0.map_values(|i: crate::mc_ida::SquareItemModel| item_text(i))
    } else {
        first_square_texts(a.drop_first())
    }
}

/// Base text and raw member texts of a display text: a trailing curly group
/// gives the text before it and its member texts; a lone square group gives
/// an empty base and its members; a lone IDA with a square group gives its
/// leading text and that group's item texts; anything else is a scalar, the
/// whole text with no members.
pub open spec fn base_members_of(d: Seq<char>) -> (Seq<char>, Seq<Seq<char>>) {
    let v = display_segments(d);
    if v.len() > 0 && v.last() is Curly {
        (ids_text(v.drop_last()), seg_texts(v.last()->Curly_0))
    } else if v.len() == 1 && v[0] is Square && v[0]->Square_0.len() > 0 {
        (seq![], seg_texts(v[0]->Square_0))
    } else if v.len() == 1 && v[0] is Ida && first_square_texts(v[0]->Ida_0).len() > 0 {
        (ida_prefix(v[0]->Ida_0), first_square_texts(v[0]->Ida_0))
    } else {
        (d, seq![])
    }
}

/// Concatenated text of the first `m` segments.
fn text_upto(v: &Vec<IdsSegment>, m: usize) -> (r: String)
    requires
        m <= v@.len(),
    ensures
        r@ == concat(seg_texts(ids_models(v@.take(m as int)))),
{
    let mut out = String::new();
    let mut i: usize = 0;
    while i < m
        invariant
            0 <= i <= m <= v@.len(),
            out@ == concat(seg_texts(ids_models(v@.take(i as int)))),
        decreases m - i,
    {
        let t = seg_to_string(&v[i]);
        push_str(&mut out, t.as_str());
        proof {
            lemma_seg_texts_take(v@, i as int);
            let all = seg_texts(ids_models(v@.take(i + 1)));
            assert(all.drop_last() =~= seg_texts(ids_models(v@.take(i as int))));
        }
        i += 1;
    }
    out
}

/// The text of each segment.
fn seg_text_list(v: &Vec<IdsSegment>) -> (r: Vec<String>)
    ensures
        texts(r@) == seg_texts(ids_models(v@)),
{
    let mut out: Vec<String> = Vec::new();
    let mut i: usize = 0;
    while i < v.len()
        invariant
            0 <= i <= v@.len(),
            texts(out@) == seg_texts(ids_models(v@.take(i as int))),
        decreases v@.len() - i,
    {
        let t = seg_to_string(&v[i]);
        proof {
            lemma_seg_texts_take(v@, i as int);
            lemma_texts_push(out@, t);
        }
        out.push(t);
        i += 1;
    }
    assert(v@.take(v@.len() as int) =~= v@);
    out
}

/// Item texts of the first square group of an IDA.
fn first_square_exec(ida: &McIda) -> (r: Vec<String>)
    ensures
        texts(r@) == first_square_texts(ida@),
{
    let n = ida.segments.len();
    let mut j: usize = 0;
    assert(ida@.skip(0) =~= ida@);
    while j < n
        invariant
            0 <= j <= n,
            n == ida@.len(),
            first_square_texts(ida@) == first_square_texts(ida@.skip(j as int)),
        decreases n - j,
    {
        assert(ida@.skip(j as int)[0] == ida@[j as int]);
        assert(ida@.skip(j as int).drop_first() =~= ida@.skip(j + 1));
        if let IdaSegment::Square(items) = &ida.segments[j] {
            let mut out: Vec<String> = Vec::new();
            let mut k: usize = 0;
            let ghost want = ida@[j as int]->Square_0.map_values(
                |i: crate::mc_ida::SquareItemModel| item_text(i),
            );
            while k < items.len()
                invariant
                    0 <= k <= items@.len(),
                    want.len() == items@.len(),
                    forall|q: int| 0 <= q < items@.len() ==> want[q] == item_text(#[trigger] items@[q]@),
                    texts(out@) == want.take(k as int),
                decreases items@.len() - k,
            {
                let t = item_text_exec(&items[k]);
                proof {
                    lemma_texts_push(out@, t);
                    assert(want.take(k + 1) =~= want.take(k as int).push(t@));
                }
                out.push(t);
                k += 1;
            }
            assert(want.take(want.len() as int) =~= want);
            return out;
        }
        j += 1;
    }
    assert(ida@.skip(n as int) =~= Seq::<IdaSegModel>::empty());
    let out: Vec<String> = Vec::new();
    assert(texts(out@) =~= Seq::<Seq<char>>::empty());
    out
}

/// Base name and raw declared members of a port key or member reference:
/// `name` gives (`name`, none), `name{A, B}` gives (`name`, `A`, `B`),
/// `{A, B}` and `[A, B]` give an empty base, `p[A, B]` gives (`p`, `A`,
/// `B`). A slice token stays one member.
pub fn display_base_members(display: &str) -> (r: (String, Vec<String>))
    ensures
        (r.0@, texts(r.1@)) == base_members_of(display@),
{
    let ids = parse_display(display);
    let n = ids.segments.len();
    let ghost v = ids@;
    if n > 0 {
        if let IdsSegment::Curly(inner) = &ids.segments[n - 1] {
            let base = text_upto(&ids.segments, n - 1);
            let members = seg_text_list(inner);
            proof {
                lemma_inner_models(*inner);
                assert(ids_models(ids.segments@.take(n - 1)) =~= v.drop_last());
            }
            return (base, members);
        }
    }
    if n == 1 {
        match &ids.segments[0] {
            IdsSegment::Square(inner) => {
                let members = seg_text_list(inner);
                proof {
                    lemma_inner_models(*inner);
                }
                if members.len() > 0 {
                    return (String::new(), members);
                }
            },
            IdsSegment::Ida(ida) => {
                let members = first_square_exec(ida);
                if members.len() > 0 {
                    let p = ida.prefix();
                    return (owned(p), members);
                }
            },
            _ => {},
        }
    }
    let none: Vec<String> = Vec::new();
    assert(texts(none@) =~= Seq::<Seq<char>>::empty());
    (owned(display), none)
}


// ---------------------------------------------------------------------------
// Length
// ---------------------------------------------------------------------------

/// Length one entry of a curly group counts: an integer its digits, an IDA
/// its segments, a slice its text, anything else the bytes of its text.
pub open spec fn curly_entry_len(x: IdsSegModel) -> nat {
    match x {
        IdsSegModel::Int(v) => int_text(v as int).len(),
        IdsSegModel::Ida(a) => a.len(),
        IdsSegModel::Slice(f, t) => int_text(f as int).len() + 1 + int_text(t as int).len(),
        _ => utf8_len(seg_text(x)),
    }
}

/// Sum of the entry lengths of a curly group.
pub open spec fn curly_entries_len(v: Seq<IdsSegModel>) -> nat
    decreases v.len(),
{
    if v.len() == 0 {
        0
    } else {
        curly_entries_len(v.drop_last()) + curly_entry_len(v.last())
    }
}

/// Sum of the text bytes of the entries of a square group.
pub open spec fn square_entries_len(v: Seq<IdsSegModel>) -> nat
    decreases v.len(),
{
    if v.len() == 0 {
        0
    } else {
        square_entries_len(v.drop_last()) + utf8_len(seg_text(v.last()))
    }
}

/// Length one segment counts: digits of an integer (plus one for a dot),
/// segments of an IDA, bytes of a dotted IDA's text plus one, the entries
/// of a curly group plus one, the entry texts of a square group plus two,
/// the text of a slice.
pub open spec fn seg_len(x: IdsSegModel) -> nat {
    match x {
        IdsSegModel::Int(v) => int_text(v as int).len(),
        IdsSegModel::Ida(a) => a.len(),
        IdsSegModel::DotInt(v) => int_text(v as int).len() + 1,
        IdsSegModel::DotIda(a) => utf8_len(ida_text(a)) + 1,
        IdsSegModel::Curly(v) => curly_entries_len(v) + 1,
        IdsSegModel::Square(v) => square_entries_len(v) + 2,
        IdsSegModel::Slice(f, t) => int_text(f as int).len() + 1 + int_text(t as int).len(),
    }
}

/// Sum of the segment lengths.
pub open spec fn ids_len(v: Seq<IdsSegModel>) -> nat
    decreases v.len(),
{
    if v.len() == 0 {
        0
    } else {
        ids_len(v.drop_last()) + seg_len(v.last())
    }
}

proof fn lemma_sum_prefix(v: Seq<IdsSegModel>, i: int, which: int)
    requires
        0 <= i <= v.len(),
    ensures
        which == 0 ==> curly_entries_len(v.take(i)) <= curly_entries_len(v),
        which == 1 ==> square_entries_len(v.take(i)) <= square_entries_len(v),
        which == 2 ==> ids_len(v.take(i)) <= ids_len(v),
    decreases v.len(),
{
    if i < v.len() {
        assert(v.drop_last().take(i) =~= v.take(i));
        lemma_sum_prefix(v.drop_last(), i, which);
    } else {
        assert(v.take(i) =~= v);
    }
}

/// Number of characters of a text (ASCII digits here).
fn char_count(s: &String) -> (r: usize)
    ensures
        r == s@.len(),
{
    let v = chars_of(s.as_str());
    v.len()
}

fn curly_entry_len_exec(x: &IdsSegment) -> (r: usize)
    requires
        curly_entry_len(x@) <= usize::MAX,
    ensures
        r == curly_entry_len(x@),
{
    match x {
        IdsSegment::Int(i) => char_count(&int_string(i.value)),
        IdsSegment::Ida(a) => a.len(),
        IdsSegment::Slice { from, to } => {
            let f = char_count(&int_string(from.value));
            let t = char_count(&int_string(to.value));
            f + 1 + t
        },
        _ => {
            let s = seg_to_string(x);
            utf8_len_exec(s.as_str())
        },
    }
}

fn curly_entries_len_exec(v: &Vec<IdsSegment>) -> (r: usize)
    requires
        curly_entries_len(ids_models(v@)) <= usize::MAX,
    ensures
        r == curly_entries_len(ids_models(v@)),
{
    let mut total: usize = 0;
    let mut i: usize = 0;
    while i < v.len()
        invariant
            0 <= i <= v@.len(),
            curly_entries_len(ids_models(v@)) <= usize::MAX,
            total == curly_entries_len(ids_models(v@).take(i as int)),
        decreases v@.len() - i,
    {
        proof {
            assert(ids_models(v@).take(i + 1).drop_last() =~= ids_models(v@).take(i as int));
            assert(ids_models(v@).take(i + 1).last() == v@[i as int]@);
            lemma_sum_prefix(ids_models(v@), i + 1, 0);
        }
        let w = curly_entry_len_exec(&v[i]);
        total = total + w;
        i += 1;
    }
    assert(ids_models(v@).take(v@.len() as int) =~= ids_models(v@));
    total
}

fn square_entries_len_exec(v: &Vec<IdsSegment>) -> (r: usize)
    requires
        square_entries_len(ids_models(v@)) <= usize::MAX,
    ensures
        r == square_entries_len(ids_models(v@)),
{
    let mut total: usize = 0;
    let mut i: usize = 0;
    while i < v.len()
        invariant
            0 <= i <= v@.len(),
            square_entries_len(ids_models(v@)) <= usize::MAX,
            total == square_entries_len(ids_models(v@).take(i as int)),
        decreases v@.len() - i,
    {
        proof {
            assert(ids_models(v@).take(i + 1).drop_last() =~= ids_models(v@).take(i as int));
            assert(ids_models(v@).take(i + 1).last() == v@[i as int]@);
            lemma_sum_prefix(ids_models(v@), i + 1, 1);
        }
        let s = seg_to_string(&v[i]);
        let w = utf8_len_exec(s.as_str());
        total = total + w;
        i += 1;
    }
    assert(ids_models(v@).take(v@.len() as int) =~= ids_models(v@));
    total
}

fn seg_len_exec(x: &IdsSegment) -> (r: usize)
    requires
        seg_len(x@) <= usize::MAX,
    ensures
        r == seg_len(x@),
{
    match x {
        IdsSegment::Int(i) => char_count(&int_string(i.value)),
        IdsSegment::Ida(a) => a.len(),
        IdsSegment::DotInt(i) => char_count(&int_string(i.value)) + 1,
        IdsSegment::DotIda(a) => {
            let s = a.to_string();
            utf8_len_exec(s.as_str()) + 1
        },
        IdsSegment::Curly(v) => {
            proof {
                lemma_inner_models(*v);
            }
            curly_entries_len_exec(v) + 1
        },
        IdsSegment::Square(v) => {
            proof {
                lemma_inner_models(*v);
            }
            square_entries_len_exec(v) + 2
        },
        IdsSegment::Slice { from, to } => {
            let f = char_count(&int_string(from.value));
            let t = char_count(&int_string(to.value));
            f + 1 + t
        },
    }
}

impl McIds {
    /// Summed length of the segments: integer digits (plus one for a dot),
    /// IDA segment counts, text bytes of a dotted IDA plus one, curly group
    /// entries plus one, square group entry texts plus two.
    pub fn len(&self) -> (r: usize)
        requires
            ids_len(self@) <= usize::MAX,
        ensures
            r == ids_len(self@),
    {
        let mut total: usize = 0;
        let mut i: usize = 0;
        while i < self.segments.len()
            invariant
                0 <= i <= self.segments@.len(),
                ids_len(self@) <= usize::MAX,
                total == ids_len(self@.take(i as int)),
            decreases self.segments@.len() - i,
        {
            proof {
                assert(self@.take(i + 1).drop_last() =~= self@.take(i as int));
                assert(self@.take(i + 1).last() == self.segments@[i as int]@);
                lemma_sum_prefix(self@, i + 1, 2);
            }
            let w = seg_len_exec(&self.segments[i]);
            total = total + w;
            i += 1;
        }
        assert(self@.take(self.segments@.len() as int) =~= self@);
        total
    }
}


// ---------------------------------------------------------------------------
// Slices
// ---------------------------------------------------------------------------

/// The integers of a slice in declaration order: `1:4` gives 1, 2, 3, 4 and
/// `4:1` gives 4, 3, 2, 1.
pub open spec fn numeric_slice(from: int, to: int) -> Seq<int> {
    if from <= to {
        Seq::new((to - from + 1) as nat, |k: int| from + k)
    } else {
        Seq::new((from - to + 1) as nat, |k: int| from - k)
    }
}

/// Expand a numeric slice in declaration order; a descending slice keeps
/// every member, in descending order.
pub fn expand_numeric_slice(from: i64, to: i64) -> (r: Vec<i64>)
    requires
        (if from <= to {
            to - from
        } else {
            from - to
        }) < usize::MAX,
    ensures
        r@.map_values(|v: i64| v as int) == numeric_slice(from as int, to as int),
{
    let up = from <= to;
    let d: i128 = if up {
        (to as i128) - (from as i128)
    } else {
        (from as i128) - (to as i128)
    };
    let ghost want = numeric_slice(from as int, to as int);
    let mut out: Vec<i64> = Vec::new();
    let mut k: i128 = 0;
    while k <= d
        invariant
            0 <= k <= d + 1,
            d == (if from <= to {
                to - from
            } else {
                from - to
            }),
            up == (from <= to),
            want == numeric_slice(from as int, to as int),
            want.len() == d + 1,
            out@.len() == k,
            forall|j: int| 0 <= j < k ==> out@[j] as int == want[j],
        decreases d + 1 - k,
    {
        let v: i128 = if up {
            (from as i128) + k
        } else {
            (from as i128) - k
        };
        out.push(v as i64);
        k = k + 1;
    }
    assert(out@.map_values(|v: i64| v as int) =~= want);
    out
}

/// Characters whose codes run from `a` up to `b`, skipping codes that are
/// no character.
pub open spec fn chars_up(a: int, b: int) -> Seq<char>
    decreases b - a + 1,
{
    if a > b {
        seq![]
    } else {
        (if 0 <= a <= u32::MAX && is_char_code(a as u32) {
            seq![a as char]
        } else {
            seq![]
        }) + chars_up(a + 1, b)
    }
}

/// Characters whose codes run from `a` down to `b`, skipping codes that are
/// no character.
pub open spec fn chars_down(a: int, b: int) -> Seq<char>
    decreases a - b + 1,
{
    if a < b {
        seq![]
    } else {
        (if 0 <= a <= u32::MAX && is_char_code(a as u32) {
            seq![a as char]
        } else {
            seq![]
        }) + chars_down(a - 1, b)
    }
}

/// The letters of a letter slice in declaration order (`a:e` ascending,
/// `e:a` descending).
pub open spec fn char_slice(from: char, to: char) -> Seq<char> {
    if from <= to {
        chars_up(from as int, to as int)
    } else {
        chars_down(from as int, to as int)
    }
}

/// Expand a letter slice in declaration order, mirroring
/// [`expand_numeric_slice`].
pub fn expand_char_slice(from: char, to: char) -> (r: Vec<char>)
    ensures
        r@ == char_slice(from, to),
{
    let a = from as u32;
    let b = to as u32;
    let mut out: Vec<char> = Vec::new();
    if from <= to {
        let mut u: u32 = a;
        while u <= b
            invariant
                a <= u <= b + 1,
                b <= 0x10FFFF,
                out@ + chars_up(u as int, b as int) == chars_up(a as int, b as int),
            decreases b + 1 - u,
        {
            let ghost before = out@;
            if is_char_code_exec(u) {
                out.push(char_of_code(u));
            }
            assert(out@ + chars_up(u + 1, b as int) =~= before + chars_up(u as int, b as int));
            u = u + 1;
        }
        assert(out@ =~= out@ + chars_up(u as int, b as int));
    } else {
        let mut u: u32 = a;
        let mut done = false;
        while !done
            invariant
                b <= u <= a,
                a <= 0x10FFFF,
                !done ==> out@ + chars_down(u as int, b as int) == chars_down(a as int, b as int),
                done ==> out@ == chars_down(a as int, b as int),
            decreases u - b + (if done {
                0int
            } else {
                1int
            }),
        {
            let ghost before = out@;
            if is_char_code_exec(u) {
                out.push(char_of_code(u));
            }
            assert(out@ + chars_down(u - 1, b as int) =~= before + chars_down(u as int, b as int));
            if u == b {
                assert(chars_down(u - 1, b as int) =~= Seq::<char>::empty());
                assert(out@ =~= out@ + chars_down(u - 1, b as int));
                done = true;
            } else {
                u = u - 1;
            }
        }
    }
    out
}

fn is_char_code_exec(u: u32) -> (r: bool)
    ensures
        r == is_char_code(u),
{
    u < 0xD800 || (0xE000 <= u && u <= 0x10FFFF)
}


/// A member name without the `.` the expansion joins it with.
pub open spec fn strip_dot(m: Seq<char>) -> Seq<char> {
    if m.len() > 0 && m[0] == '.' {
        m.drop_first()
    } else {
        m
    }
}

/// Member names with their leading `.` removed, empty ones dropped.
pub open spec fn bare_members(s: Seq<Seq<char>>) -> Seq<Seq<char>>
    decreases s.len(),
{
    if s.len() == 0 {
        seq![]
    } else {
        bare_members(s.drop_last()) + (if strip_dot(s.last()).len() > 0 {
            seq![strip_dot(s.last())]
        } else {
            seq![]
        })
    }
}

/// Base text and expanded member names of a display text ending in a
/// non-empty curly group after non-empty base text; slices expand.
pub open spec fn curly_base_members_of(d: Seq<char>) -> Option<(Seq<char>, Seq<Seq<char>>)> {
    let v = display_segments(d);
    if v.len() >= 2 && v.last() is Curly && v.last()->Curly_0.len() > 0 {
        let base = ids_text(v.drop_last());
        let members = bare_members(ids_expand(seq![v.last()]));
        if base.len() == 0 || members.len() == 0 {
            None
        } else {
            Some((base, members))
        }
    } else {
        None
    }
}

/// Split a display text at its trailing curly member group into the base
/// text and the member names, numeric slices expanded; `None` unless the
/// text ends in a non-empty curly group after non-empty base text.
pub fn curly_base_members(display: &str) -> (r: Option<(String, Vec<String>)>)
    ensures
        match r {
            Some((b, m)) => curly_base_members_of(display@) == Some((b@, texts(m@))),
            None => curly_base_members_of(display@) is None,
        },
{
    let ids = parse_display(display);
    let n = ids.segments.len();
    let ghost v = ids@;
    if n < 2 {
        return None;
    }
    match &ids.segments[n - 1] {
        IdsSegment::Curly(inner) => {
            proof {
                lemma_inner_models(*inner);
            }
            if inner.len() == 0 {
                return None;
            }
            let base = text_upto(&ids.segments, n - 1);
            assert(ids_models(ids.segments@.take(n - 1)) =~= v.drop_last());
            if base.as_str().is_empty() {
                return None;
            }
            let copied = copy_segments(inner);
            let mut segs: Vec<IdsSegment> = Vec::new();
            let c = IdsSegment::Curly(copied);
            proof {
                lemma_inner_models(copied);
            }
            segs.push(c);
            let only = McIds { segments: segs };
            assert(only@ =~= seq![v.last()]);
            let expanded = only.expand();
            let mut out: Vec<String> = Vec::new();
            let mut i: usize = 0;
            while i < expanded.len()
                invariant
                    0 <= i <= expanded@.len(),
                    texts(out@) == bare_members(texts(expanded@).take(i as int)),
                decreases expanded@.len() - i,
            {
                let cs = chars_of(expanded[i].as_str());
                let t = if cs.len() > 0 && cs[0] == '.' {
                    let rest = sub_chars(cs.as_slice(), 1, cs.len());
                    crate::text::string_of(rest.as_slice())
                } else {
                    copy_string(&expanded[i])
                };
                proof {
                    lemma_texts_take(expanded@, i as int);
                    assert(texts(expanded@).take(i + 1) =~= texts(expanded@.take(i + 1)));
                    assert(texts(expanded@).take(i as int) =~= texts(expanded@.take(i as int)));
                    assert(texts(expanded@).take(i + 1).drop_last() =~= texts(expanded@).take(i as int));
                    if cs@.len() > 0 && cs@[0] == '.' {
                        assert(t@ =~= cs@.drop_first());
                    }
                    assert(t@ == strip_dot(expanded@[i as int]@));
                }
                if !t.as_str().is_empty() {
                    proof {
                        lemma_texts_push(out@, t);
                    }
                    out.push(t);
                }
                i += 1;
            }
            assert(texts(expanded@).take(expanded@.len() as int) =~= texts(expanded@));
            if out.len() == 0 {
                None
            } else {
                Some((base, out))
            }
        },
        _ => None,
    }
}


/// A dotted member and the same member written in curly braces denote the
/// same names, after any prefix: `DC2.VDD` is `DC2{VDD}` and `res5.1` is
/// `res5{1}`.
pub proof fn lemma_dot_is_curly(p: Seq<IdsSegModel>, a: Seq<IdaSegModel>, v: i64)
    ensures
        ids_expand(p.push(IdsSegModel::DotIda(a))) == ids_expand(
            p.push(IdsSegModel::Curly(seq![IdsSegModel::Ida(a)])),
        ),
        ids_expand(p.push(IdsSegModel::DotInt(v))) == ids_expand(
            p.push(IdsSegModel::Curly(seq![IdsSegModel::Int(v)])),
        ),
{
    let one_ida = seq![IdsSegModel::Ida(a)];
    let one_int = seq![IdsSegModel::Int(v)];
    assert(one_ida.drop_last() =~= Seq::<IdsSegModel>::empty());
    assert(one_int.drop_last() =~= Seq::<IdsSegModel>::empty());
    assert(curly_items(Seq::<IdsSegModel>::empty()) =~= Seq::<Seq<char>>::empty());
    assert(one_ida.last() == IdsSegModel::Ida(a));
    assert(one_int.last() == IdsSegModel::Int(v));
    assert(curly_items(one_ida) =~= Seq::<Seq<char>>::empty() + ida_expand(a));
    assert(curly_items(one_ida) =~= ida_expand(a));
    assert(curly_items(one_int) =~= seq![int_text(v as int)]);
    assert(prepend_all(seq!['.'], seq![int_text(v as int)]) =~= seq![dot(int_text(v as int))]);
    assert(p.push(IdsSegModel::DotIda(a)).drop_last() =~= p);
    assert(p.push(IdsSegModel::Curly(one_ida)).drop_last() =~= p);
    assert(p.push(IdsSegModel::DotInt(v)).drop_last() =~= p);
    assert(p.push(IdsSegModel::Curly(one_int)).drop_last() =~= p);
}


// ---------------------------------------------------------------------------
// Identity: a dotted member is its one-member curly group
// ---------------------------------------------------------------------------

/// A segment as compared: `.m` reads as `{m}`, `.1` as `{1}`.
pub open spec fn norm_seg(s: IdsSegModel) -> IdsSegModel {
    match s {
        IdsSegModel::DotIda(a) => IdsSegModel::Curly(seq![IdsSegModel::Ida(a)]),
        IdsSegModel::DotInt(n) => IdsSegModel::Curly(seq![IdsSegModel::Int(n)]),
        _ => s,
    }
}

/// An identifier as compared and hashed.
pub open spec fn normalized(v: Seq<IdsSegModel>) -> Seq<IdsSegModel> {
    v.map_values(|s: IdsSegModel| norm_seg(s))
}

/// Whether two segment lists have the same models.
fn segs_eq(a: &Vec<IdsSegment>, b: &Vec<IdsSegment>) -> (r: bool)
    ensures
        r == (ids_models(a@) == ids_models(b@)),
    decreases a,
{
    if a.len() != b.len() {
        assert(ids_models(a@).len() != ids_models(b@).len());
        return false;
    }
    let mut i: usize = 0;
    while i < a.len()
        invariant
            0 <= i <= a@.len(),
            a@.len() == b@.len(),
            forall|j: int| 0 <= j < i ==> ids_models(a@)[j] == ids_models(b@)[j],
        decreases a@.len() - i,
    {
        if !seg_eq(&a[i], &b[i]) {
            assert(ids_models(a@)[i as int] != ids_models(b@)[i as int]);
            return false;
        }
        i += 1;
    }
    assert(ids_models(a@) =~= ids_models(b@));
    true
}

/// Whether two segments have the same model.
fn seg_eq(a: &IdsSegment, b: &IdsSegment) -> (r: bool)
    ensures
        r == (a@ == b@),
    decreases a,
{
    match (a, b) {
        (IdsSegment::Int(x), IdsSegment::Int(y)) => x.value == y.value,
        (IdsSegment::Slice { from: f1, to: t1 }, IdsSegment::Slice { from: f2, to: t2 }) => f1.value
            == f2.value && t1.value == t2.value,
        (IdsSegment::Ida(x), IdsSegment::Ida(y)) => x.same_as(y),
        (IdsSegment::DotInt(x), IdsSegment::DotInt(y)) => x.value == y.value,
        (IdsSegment::DotIda(x), IdsSegment::DotIda(y)) => x.same_as(y),
        (IdsSegment::Curly(xs), IdsSegment::Curly(ys)) => {
            proof {
                lemma_inner_models(*xs);
                lemma_inner_models(*ys);
            }
            segs_eq(xs, ys)
        },
        (IdsSegment::Square(xs), IdsSegment::Square(ys)) => {
            proof {
                lemma_inner_models(*xs);
                lemma_inner_models(*ys);
            }
            segs_eq(xs, ys)
        },
        _ => false,
    }
}

impl McIds {
    /// The segments as compared and hashed: each dotted member becomes its
    /// one-member curly group, so `DC2.VDD` and `DC2{VDD}` are one key.
    pub fn normalized_eq_hash(&self) -> (r: Vec<IdsSegment>)
        ensures
            ids_models(r@) == normalized(self@),
    {
        let mut out: Vec<IdsSegment> = Vec::new();
        let mut i: usize = 0;
        while i < self.segments.len()
            invariant
                0 <= i <= self.segments@.len(),
                ids_models(out@) == normalized(self@).take(i as int),
            decreases self.segments@.len() - i,
        {
            let seg = match &self.segments[i] {
                IdsSegment::DotIda(a) => {
                    let mut inner: Vec<IdsSegment> = Vec::new();
                    inner.push(IdsSegment::Ida(Box::new(a.copy())));
                    proof {
                        lemma_inner_models(inner);
                    }
                    assert(ids_models(inner@) =~= seq![IdsSegModel::Ida(a@)]);
                    IdsSegment::Curly(inner)
                },
                IdsSegment::DotInt(n) => {
                    let mut inner: Vec<IdsSegment> = Vec::new();
                    inner.push(IdsSegment::Int(Box::new(n.copy())));
                    proof {
                        lemma_inner_models(inner);
                    }
                    assert(ids_models(inner@) =~= seq![IdsSegModel::Int(n.value)]);
                    IdsSegment::Curly(inner)
                },
                other => copy_segment(other),
            };
            let ghost before = out@;
            out.push(seg);
            assert(ids_models(out@) =~= ids_models(before).push(seg@));
            assert(normalized(self@).take(i + 1) =~= normalized(self@).take(i as int).push(
                norm_seg(self.segments@[i as int]@),
            ));
            i += 1;
        }
        assert(normalized(self@).take(self@.len() as int) =~= normalized(self@));
        out
    }
}

impl PartialEq for McIds {
    fn eq(&self, other: &Self) -> (r: bool) {
        let a = self.normalized_eq_hash();
        let b = other.normalized_eq_hash();
        segs_eq(&a, &b)
    }
}

impl Eq for McIds {

}

impl vstd::std_specs::cmp::PartialEqSpecImpl for McIds {
    open spec fn obeys_eq_spec() -> bool {
        true
    }

    open spec fn eq_spec(&self, other: &McIds) -> bool {
        normalized(self@) == normalized(other@)
    }
}

/// A dotted member and its one-member curly group are the same name:
/// `A.m` equals `A{m}` and `A.1` equals `A{1}` under identifier equality.
pub proof fn lemma_dot_member_equals_curly(
    head: Seq<IdsSegModel>,
    m: Seq<crate::mc_ida::IdaSegModel>,
    n: i64,
)
    ensures
        normalized(head.push(IdsSegModel::DotIda(m))) == normalized(
            head.push(IdsSegModel::Curly(seq![IdsSegModel::Ida(m)])),
        ),
        normalized(head.push(IdsSegModel::DotInt(n))) == normalized(
            head.push(IdsSegModel::Curly(seq![IdsSegModel::Int(n)])),
        ),
{
    assert(normalized(head.push(IdsSegModel::DotIda(m))) =~= normalized(
        head.push(IdsSegModel::Curly(seq![IdsSegModel::Ida(m)])),
    ));
    assert(normalized(head.push(IdsSegModel::DotInt(n))) =~= normalized(
        head.push(IdsSegModel::Curly(seq![IdsSegModel::Int(n)])),
    ));
}

} // verus!
