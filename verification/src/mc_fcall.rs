//! Function calls: the shape a call returns, and the `=>` prefix that fills
//! the first `_` placeholder of a call's arguments.
use vstd::prelude::*;
use crate::mc_bus::McBus;
use crate::mc_opd::{McOpd, OpdModel};
use crate::mc_param::{lemma_inner_val_models, val_model, val_models, McParamValue, ValModel};

verus! {

/// What a function call returns.
#[derive(Debug, Clone)]
pub enum ReturnShape {
    /// `return this`, or no return: the caller's shape is kept.
    This,
    /// `return <label/bus/expr>`: no left side, the right side is the
    /// returned value as a bus vector.
    Label { bus: Vec<McBus> },
}

/// An open slot: `_` as a placeholder value or as an operand.
pub open spec fn is_placeholder(m: ValModel) -> bool {
    match m {
        ValModel::Blank(_) => true,
        ValModel::Opd(OpdModel::Uscore) => true,
        _ => false,
    }
}

/// Whether an argument is, or lists (at any depth), an open slot.
pub open spec fn has_placeholder(m: ValModel) -> bool
    decreases m,
{
    match m {
        ValModel::List(vs) => any_placeholder(vs),
        _ => is_placeholder(m),
    }
}

/// Whether some argument of a list has an open slot.
pub open spec fn any_placeholder(vs: Seq<ValModel>) -> bool
    decreases vs,
{
    if vs.len() == 0 {
        false
    } else {
        any_placeholder(vs.subrange(0, vs.len() - 1)) || has_placeholder(vs[vs.len() - 1])
    }
}

/// An argument with its first open slot filled by `pre`, and whether one
/// was filled.
pub open spec fn fill_first(m: ValModel, pre: ValModel) -> (ValModel, bool)
    decreases m,
{
    match m {
        ValModel::Blank(_) => (pre, true),
        ValModel::Opd(OpdModel::Uscore) => (pre, true),
        ValModel::List(vs) => {
            let (nv, done) = fill_first_list(vs, pre);
            (ValModel::List(nv), done)
        },
        _ => (m, false),
    }
}

/// A list with its first open slot, in order, filled by `pre`; the
/// arguments after it unchanged.
pub open spec fn fill_first_list(vs: Seq<ValModel>, pre: ValModel) -> (Seq<ValModel>, bool)
    decreases vs,
{
    if vs.len() == 0 {
        (Seq::<ValModel>::empty(), false)
    } else {
        let (front, done) = fill_first_list(vs.subrange(0, vs.len() - 1), pre);
        if done {
            (front.push(vs[vs.len() - 1]), true)
        } else {
            let (h, d) = fill_first(vs[vs.len() - 1], pre);
            (front.push(h), d)
        }
    }
}

/// Whether some argument of a list is, or lists, a `_` placeholder.
fn any_uscore(vs: &Vec<McParamValue>) -> (r: bool)
    ensures
        r == any_placeholder(val_models(vs@)),
    decreases vs,
{
    let mut i: usize = 0;
    let mut found = false;
    while i < vs.len()
        invariant
            0 <= i <= vs@.len(),
            found == any_placeholder(val_models(vs@.take(i as int))),
        decreases vs@.len() - i,
    {
        let here = param_contains_uscore(&vs[i]);
        assert(val_models(vs@.take(i + 1)).subrange(0, i as int) =~= val_models(vs@.take(i as int)));
        found = found || here;
        i += 1;
    }
    assert(vs@.take(vs@.len() as int) =~= vs@);
    found
}

/// Whether an argument is, or lists, a `_` placeholder.
pub fn param_contains_uscore(p: &McParamValue) -> (r: bool)
    ensures
        r == has_placeholder(val_model(*p)),
    decreases p,
{
    match p {
        McParamValue::NONE(_) => true,
        McParamValue::Opd(McOpd::Uscore) => true,
        McParamValue::List(vs) => {
            proof {
                lemma_inner_val_models(*p);
            }
            any_uscore(vs)
        },
        _ => false,
    }
}

/// A list with its first `_` placeholder filled by `prefix`.
fn fold_list(vs: &Vec<McParamValue>, prefix: &McParamValue) -> (r: (Vec<McParamValue>, bool))
    ensures
        (val_models(r.0@), r.1) == fill_first_list(val_models(vs@), val_model(*prefix)),
    decreases vs,
{
    let ghost pre = val_model(*prefix);
    let mut out: Vec<McParamValue> = Vec::new();
    let mut done = false;
    let mut i: usize = 0;
    while i < vs.len()
        invariant
            0 <= i <= vs@.len(),
            out@.len() == i,
            pre == val_model(*prefix),
            (val_models(out@), done) == fill_first_list(val_models(vs@.take(i as int)), pre),
        decreases vs@.len() - i,
    {
        let ghost before = out@;
        assert(val_models(vs@.take(i + 1)).subrange(0, i as int) =~= val_models(vs@.take(i as int)));
        assert(val_models(vs@.take(i + 1))[i as int] == val_model(vs@[i as int]));
        if done {
            out.push(vs[i].copy());
        } else {
            let (nv, rep) = fold_prefix_into_uscore(&vs[i], prefix);
            out.push(nv);
            done = rep;
        }
        assert(val_models(out@) =~= val_models(before).push(val_model(out@[i as int])));
        i += 1;
    }
    assert(vs@.take(vs@.len() as int) =~= vs@);
    (out, done)
}

/// Fill the first `_` placeholder of an argument with the `=>` prefix,
/// looking into lists in order (`[_, VDD]` with `I2C0` gives
/// `[I2C0, VDD]`); only the first placeholder is filled. Gives the new
/// argument and whether a placeholder was filled.
pub fn fold_prefix_into_uscore(p: &McParamValue, prefix: &McParamValue) -> (r: (McParamValue, bool))
    ensures
        (val_model(r.0), r.1) == fill_first(val_model(*p), val_model(*prefix)),
    decreases p,
{
    match p {
        McParamValue::NONE(_) => (prefix.copy(), true),
        McParamValue::Opd(McOpd::Uscore) => (prefix.copy(), true),
        McParamValue::List(vs) => {
            proof {
                lemma_inner_val_models(*p);
            }
            let (out, done) = fold_list(vs, prefix);
            let r = McParamValue::List(out);
            proof {
                lemma_inner_val_models(r);
            }
            (r, done)
        },
        _ => (p.copy(), false),
    }
}

/// The arguments of a method call after the `=>` prefix `pre` folds into
/// them: arguments that are all placeholders give way to the prefix alone;
/// otherwise the prefix fills the first placeholder (looking into lists);
/// with no placeholder anywhere the prefix goes in front.
pub open spec fn fold_pre(ms: Seq<ValModel>, pre: ValModel) -> Seq<ValModel> {
    if ms.len() > 0 && (forall|i: int| 0 <= i < ms.len() ==> is_placeholder(#[trigger] ms[i])) {
        seq![pre]
    } else if any_placeholder(ms) {
        fill_first_list(ms, pre).0
    } else {
        seq![pre] + ms
    }
}

fn is_placeholder_exec(p: &McParamValue) -> (r: bool)
    ensures
        r == is_placeholder(val_model(*p)),
{
    match p {
        McParamValue::NONE(_) => true,
        McParamValue::Opd(McOpd::Uscore) => true,
        _ => false,
    }
}

/// Folds the `=>` prefix `pre` into a method call's arguments
/// (see [`fold_pre`]).
pub fn fold_pre_param(method_params: &Vec<McParamValue>, pre: &McParamValue) -> (r: Vec<
    McParamValue,
>)
    ensures
        val_models(r@) == fold_pre(val_models(method_params@), val_model(*pre)),
{
    let ghost ms = val_models(method_params@);
    let n = method_params.len();
    let mut all = n > 0;
    let mut i: usize = 0;
    while i < n
        invariant
            i <= n,
            n == method_params@.len(),
            ms == val_models(method_params@),
            all == (n > 0 && forall|j: int| 0 <= j < i ==> is_placeholder(#[trigger] ms[j])),
        decreases n - i,
    {
        let here = is_placeholder_exec(&method_params[i]);
        assert(ms[i as int] == val_model(method_params@[i as int]));
        all = all && here;
        i += 1;
    }
    if all {
        let mut out: Vec<McParamValue> = Vec::new();
        out.push(pre.copy());
        assert(val_models(out@) =~= seq![val_model(*pre)]);
        return out;
    }
    if any_uscore(method_params) {
        let (out, _) = fold_list(method_params, pre);
        return out;
    }
    let mut out: Vec<McParamValue> = Vec::new();
    out.push(pre.copy());
    let mut k: usize = 0;
    while k < n
        invariant
            k <= n,
            n == method_params@.len(),
            ms == val_models(method_params@),
            val_models(out@) == seq![val_model(*pre)] + ms.take(k as int),
        decreases n - k,
    {
        let ghost before = out@;
        out.push(method_params[k].copy());
        assert(val_models(out@) =~= val_models(before).push(val_model(out@[k + 1])));
        assert(ms.take(k + 1) =~= ms.take(k as int).push(ms[k as int]));
        k += 1;
    }
    assert(ms.take(n as int) =~= ms);
    out
}

/// The prefix fills a slot exactly when the argument has an open slot, and
/// an argument without one comes back unchanged: what
/// [`param_contains_uscore`] reports is what [`fold_prefix_into_uscore`]
/// does.
pub proof fn lemma_fill_first_iff_placeholder(m: ValModel, pre: ValModel)
    ensures
        fill_first(m, pre).1 == has_placeholder(m),
        !has_placeholder(m) ==> fill_first(m, pre).0 == m,
    decreases m,
{
    match m {
        ValModel::List(vs) => {
            lemma_fill_first_list_iff_placeholder(vs, pre);
        },
        _ => {},
    }
}

/// The list form of [`lemma_fill_first_iff_placeholder`].
pub proof fn lemma_fill_first_list_iff_placeholder(vs: Seq<ValModel>, pre: ValModel)
    ensures
        fill_first_list(vs, pre).1 == any_placeholder(vs),
        !any_placeholder(vs) ==> fill_first_list(vs, pre).0 == vs,
    decreases vs,
{
    if vs.len() > 0 {
        let front = vs.subrange(0, vs.len() - 1);
        lemma_fill_first_list_iff_placeholder(front, pre);
        lemma_fill_first_iff_placeholder(vs[vs.len() - 1], pre);
        if !any_placeholder(vs) {
            assert(fill_first_list(vs, pre).0 =~= front.push(vs[vs.len() - 1]));
            assert(front.push(vs[vs.len() - 1]) =~= vs);
        }
    }
}

} // verus!
