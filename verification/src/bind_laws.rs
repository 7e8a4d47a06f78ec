//! What binding promises of every call it accepts: nothing is silently
//! ignored. Each named argument and each positional argument other than
//! `NC` ends up bound to exactly one formal parameter.
use vstd::prelude::*;
use crate::mc_param::{
    arg_model, bind_spec, bound_model, enum_error, claim_classes, claim_named, claim_units, class_step, fill_slots, first_false, free_slot,
    named_args, named_for, named_of, positional_args, take_slot, unclaimed, ArgRef, McParamValue,
    lemma_named_for, lemma_claim_named_shape, lemma_free_slot, lemma_first_false, SlotWant,
};
use crate::mc_paramd::decl_primary;
use crate::mc_paramd::McParamDeclare;

verus! {

/// Some slot holds the reference `r`.
pub open spec fn placed(s: Seq<Option<ArgRef>>, r: ArgRef) -> bool {
    exists|i: int| 0 <= i < s.len() && s[i] == Some(r)
}

/// A named-argument reference into one of the first `n` arguments.
pub open spec fn is_named_below(r: ArgRef, n: int) -> bool {
    match r {
        ArgRef::Named(vi, _) => vi < n,
        _ => false,
    }
}

/// No reference is held by two slots.
pub open spec fn distinct_slots(s: Seq<Option<ArgRef>>) -> bool {
    forall|i1: int, i2: int|
        0 <= i1 < s.len() && 0 <= i2 < s.len() && i1 != i2 && (#[trigger] s[i1]) is Some ==> s[i1]
            != #[trigger] s[i2]
}

proof fn lemma_named_refs(vals: Seq<McParamValue>)
    requires
        vals.len() <= usize::MAX,
    ensures
        forall|j: int|
            0 <= j < named_args(vals).len() ==> is_named_below((#[trigger] named_args(vals)[j]).1, vals.len() as int),
        forall|j1: int, j2: int|
            0 <= j1 < named_args(vals).len() && 0 <= j2 < named_args(vals).len() && j1 != j2 ==> (
            #[trigger] named_args(vals)[j1]).1 != (#[trigger] named_args(vals)[j2]).1,
    decreases vals.len(),
{
    if vals.len() > 0 {
        let pre = vals.drop_last();
        lemma_named_refs(pre);
        let a = named_args(pre);
        let b = named_of(vals.last(), vals.len() - 1);
        let all = named_args(vals);
        assert(all == a + b);
        let last = (vals.len() - 1) as usize;
        assert(last as int == vals.len() - 1);
        assert forall|q: int| 0 <= q < b.len() implies (#[trigger] b[q]).1 == ArgRef::Named(last, q as usize) by {
            match vals.last() {
                McParamValue::InlineAttrs(attrs) => {
                    assert(attrs@.len() == attrs.len());
                },
                _ => {},
            }
        }
        assert forall|j: int| 0 <= j < all.len() implies is_named_below((#[trigger] all[j]).1, vals.len() as int) by {
            if j >= a.len() {
                assert(all[j] == b[j - a.len()]);
            } else {
                assert(all[j] == a[j]);
            }
        }
        assert forall|j1: int, j2: int|
            0 <= j1 < all.len() && 0 <= j2 < all.len() && j1 != j2 implies (#[trigger] all[j1]).1
            != (#[trigger] all[j2]).1 by {
            if j1 < a.len() && j2 < a.len() {
                assert(all[j1] == a[j1] && all[j2] == a[j2]);
            } else if j1 >= a.len() && j2 >= a.len() {
                assert(all[j1] == b[j1 - a.len()] && all[j2] == b[j2 - a.len()]);
                match vals.last() {
                    McParamValue::InlineAttrs(attrs) => {
                        assert(attrs@.len() == attrs.len());
                        assert(((j1 - a.len()) as usize) as int == j1 - a.len());
                        assert(((j2 - a.len()) as usize) as int == j2 - a.len());
                    },
                    _ => {},
                }
            } else if j1 < a.len() {
                assert(all[j1] == a[j1] && all[j2] == b[j2 - a.len()]);
            } else {
                assert(all[j2] == a[j2] && all[j1] == b[j1 - a.len()]);
            }
        }
    }
}

proof fn lemma_positions_increase(vals: Seq<McParamValue>)
    requires
        vals.len() <= usize::MAX,
    ensures
        forall|k: int| 0 <= k < positional_args(vals).len() ==> #[trigger] positional_args(vals)[k] < vals.len(),
        forall|k1: int, k2: int|
            0 <= k1 < k2 < positional_args(vals).len() ==> #[trigger] positional_args(vals)[k1]
                < #[trigger] positional_args(vals)[k2],
    decreases vals.len(),
{
    if vals.len() > 0 {
        let pre = vals.drop_last();
        lemma_positions_increase(pre);
        let a = positional_args(pre);
        let all = positional_args(vals);
        assert forall|k: int| 0 <= k < all.len() implies #[trigger] all[k] < vals.len() by {
            if k < a.len() {
                assert(all[k] == a[k]);
            }
        }
        assert forall|k1: int, k2: int| 0 <= k1 < k2 < all.len() implies #[trigger] all[k1] < #[trigger] all[k2] by {
            if k2 < a.len() {
                assert(all[k1] == a[k1] && all[k2] == a[k2]);
            } else {
                assert(all[k1] == a[k1]);
            }
        }
    }
}

/// The references of a named-argument list are pairwise different.
pub open spec fn refs_distinct(named: Seq<(Seq<char>, ArgRef)>) -> bool {
    forall|j1: int, j2: int|
        0 <= j1 < named.len() && 0 <= j2 < named.len() && j1 != j2 ==> (#[trigger] named[j1]).1 != (
        #[trigger] named[j2]).1
}

/// After round one: slots distinct, every claimed named argument placed,
/// every filled slot holding a claimed named argument.
pub open spec fn round_one_state(s: Seq<Option<ArgRef>>, c: Seq<bool>, named: Seq<(Seq<char>, ArgRef)>) -> bool {
    &&& distinct_slots(s)
    &&& c.len() == named.len()
    &&& forall|j: int| 0 <= j < named.len() && #[trigger] c[j] ==> placed(s, named[j].1)
    &&& forall|i: int|
        0 <= i < s.len() && (#[trigger] s[i]) is Some ==> exists|j: int|
            0 <= j < named.len() && c[j] && s[i] == Some(#[trigger] named[j].1)
}

proof fn lemma_round_one(decls: Seq<McParamDeclare>, named: Seq<(Seq<char>, ArgRef)>, k: int)
    requires
        0 <= k <= decls.len(),
        refs_distinct(named),
    ensures
        round_one_state(claim_named(decls, named, k).0, claim_named(decls, named, k).1, named),
    decreases k,
{
    if k == 0 {
        let c = claim_named(decls, named, 0).1;
        assert forall|j: int| 0 <= j < named.len() && #[trigger] c[j] implies placed(
            claim_named(decls, named, 0).0,
            named[j].1,
        ) by {}
    } else {
        lemma_round_one(decls, named, k - 1);
        lemma_claim_named_shape(decls, named, k - 1);
        let (s, c, n) = claim_named(decls, named, k - 1);
        let d = decls[k - 1];
        let (s2, c2, n2) = claim_named(decls, named, k);
        match decl_primary(d) {
            None => {
                assert(s2 == s.push(None) && c2 == c);
                assert forall|j: int| 0 <= j < named.len() && #[trigger] c2[j] implies placed(s2, named[j].1) by {
                    let i = choose|i: int| 0 <= i < s.len() && s[i] == Some(named[j].1);
                    assert(s2[i] == s[i]);
                }
                assert forall|i: int| 0 <= i < s2.len() && (#[trigger] s2[i]) is Some implies exists|j: int|
                    0 <= j < named.len() && c2[j] && s2[i] == Some(#[trigger] named[j].1) by {
                    assert(s2[i] == s[i]);
                }
            },
            Some(p) => {
                lemma_named_for(named, c, d, p, 0);
                let j = named_for(named, c, d, p, 0);
                if j < named.len() {
                    assert(s2 == s.push(Some(named[j].1)) && c2 == c.update(j, true));
                    assert(!c[j]);
                    assert forall|i: int| 0 <= i < s.len() && (#[trigger] s[i]) is Some implies s[i] != Some(
                        named[j].1,
                    ) by {
                        let j2 = choose|j2: int| 0 <= j2 < named.len() && c[j2] && s[i] == Some(#[trigger] named[j2].1);
                        assert(j2 != j);
                        assert(named[j2].1 != named[j].1);
                    }
                    assert forall|i1: int, i2: int|
                        0 <= i1 < s2.len() && 0 <= i2 < s2.len() && i1 != i2 && (#[trigger] s2[i1]) is Some
                            implies s2[i1] != #[trigger] s2[i2] by {
                        if i1 < s.len() && i2 < s.len() {
                            assert(s2[i1] == s[i1] && s2[i2] == s[i2]);
                        } else if i1 < s.len() {
                            assert(s2[i1] == s[i1]);
                        } else {
                            assert(s2[i2] == s[i2]);
                            if s[i2] is Some {
                                assert(s[i2] != Some(named[j].1));
                            }
                        }
                    }
                    assert forall|j3: int| 0 <= j3 < named.len() && #[trigger] c2[j3] implies placed(
                        s2,
                        named[j3].1,
                    ) by {
                        if j3 == j {
                            assert(s2[s.len() as int] == Some(named[j].1));
                        } else {
                            assert(c[j3]);
                            let i = choose|i: int| 0 <= i < s.len() && s[i] == Some(named[j3].1);
                            assert(s2[i] == s[i]);
                        }
                    }
                    assert forall|i: int| 0 <= i < s2.len() && (#[trigger] s2[i]) is Some implies exists|j3: int|
                        0 <= j3 < named.len() && c2[j3] && s2[i] == Some(#[trigger] named[j3].1) by {
                        if i < s.len() {
                            assert(s2[i] == s[i]);
                            let j2 = choose|j2: int| 0 <= j2 < named.len() && c[j2] && s[i] == Some(#[trigger] named[j2].1);
                            assert(c2[j2]);
                        } else {
                            assert(c2[j]);
                        }
                    }
                } else {
                    assert(s2 == s.push(None) && c2 == c);
                    assert forall|j3: int| 0 <= j3 < named.len() && #[trigger] c2[j3] implies placed(s2, named[j3].1) by {
                        let i = choose|i: int| 0 <= i < s.len() && s[i] == Some(named[j3].1);
                        assert(s2[i] == s[i]);
                    }
                    assert forall|i: int| 0 <= i < s2.len() && (#[trigger] s2[i]) is Some implies exists|j3: int|
                        0 <= j3 < named.len() && c2[j3] && s2[i] == Some(#[trigger] named[j3].1) by {
                        assert(s2[i] == s[i]);
                    }
                }
            },
        }
    }
}

/// A slot holding a positional argument.
pub open spec fn is_positional(o: Option<ArgRef>) -> bool {
    match o {
        Some(ArgRef::Positional(_)) => true,
        _ => false,
    }
}

/// The positions of `pos` strictly increase.
pub open spec fn increasing(pos: Seq<usize>) -> bool {
    forall|k1: int, k2: int| 0 <= k1 < k2 < pos.len() ==> #[trigger] pos[k1] < #[trigger] pos[k2]
}

/// While typed arguments claim formals: slots distinct, every named
/// argument placed, every claimed positional argument placed, every slot
/// holding a positional argument holding a claimed one.
pub open spec fn positional_state(
    s: Seq<Option<ArgRef>>,
    c: Seq<bool>,
    named: Seq<(Seq<char>, ArgRef)>,
    pos: Seq<usize>,
) -> bool {
    &&& distinct_slots(s)
    &&& c.len() == pos.len()
    &&& forall|j: int| 0 <= j < named.len() ==> placed(s, (#[trigger] named[j]).1)
    &&& forall|k: int| 0 <= k < pos.len() && #[trigger] c[k] ==> placed(s, ArgRef::Positional(pos[k]))
    &&& forall|i: int|
        0 <= i < s.len() && is_positional(#[trigger] s[i]) ==> exists|k: int|
            0 <= k < pos.len() && c[k] && s[i] == Some(ArgRef::Positional(#[trigger] pos[k]))
}

proof fn lemma_take_slot(
    s: Seq<Option<ArgRef>>,
    c: Seq<bool>,
    named: Seq<(Seq<char>, ArgRef)>,
    pos: Seq<usize>,
    di: int,
    k: int,
)
    requires
        positional_state(s, c, named, pos),
        increasing(pos),
        0 <= di < s.len(),
        s[di] is None,
        0 <= k < pos.len(),
        !c[k],
    ensures
        positional_state(take_slot(s, c, di, k, pos).0, take_slot(s, c, di, k, pos).1, named, pos),
        take_slot(s, c, di, k, pos).0.len() == s.len(),
{
    let (s2, c2) = take_slot(s, c, di, k, pos);
    let r = ArgRef::Positional(pos[k]);
    assert forall|i: int| 0 <= i < s.len() && s[i] is Some implies s[i] != Some(r) by {
        if s[i] == Some(r) {
            assert(is_positional(s[i]));
            let k2 = choose|k2: int| 0 <= k2 < pos.len() && c[k2] && s[i] == Some(ArgRef::Positional(#[trigger] pos[k2]));
            assert(k2 != k);
            if k2 < k {
                assert(pos[k2] < pos[k]);
            } else {
                assert(pos[k] < pos[k2]);
            }
        }
    }
    assert forall|i1: int, i2: int|
        0 <= i1 < s2.len() && 0 <= i2 < s2.len() && i1 != i2 && (#[trigger] s2[i1]) is Some implies s2[i1]
            != #[trigger] s2[i2] by {
        if i1 != di && i2 != di {
            assert(s2[i1] == s[i1] && s2[i2] == s[i2]);
        } else if i1 == di {
            assert(s2[i2] == s[i2]);
            if s[i2] is Some {
                assert(s[i2] != Some(r));
            }
        } else {
            assert(s2[i1] == s[i1]);
        }
    }
    assert forall|j: int| 0 <= j < named.len() implies placed(s2, (#[trigger] named[j]).1) by {
        let i = choose|i: int| 0 <= i < s.len() && s[i] == Some(named[j].1);
        assert(i != di);
        assert(s2[i] == s[i]);
    }
    assert forall|k3: int| 0 <= k3 < pos.len() && #[trigger] c2[k3] implies placed(
        s2,
        ArgRef::Positional(pos[k3]),
    ) by {
        if k3 == k {
            assert(s2[di] == Some(r));
        } else {
            assert(c[k3]);
            let i = choose|i: int| 0 <= i < s.len() && s[i] == Some(ArgRef::Positional(pos[k3]));
            assert(i != di);
            assert(s2[i] == s[i]);
        }
    }
    assert forall|i: int| 0 <= i < s2.len() && is_positional(#[trigger] s2[i]) implies exists|k3: int|
        0 <= k3 < pos.len() && c2[k3] && s2[i] == Some(ArgRef::Positional(#[trigger] pos[k3])) by {
        if i == di {
            assert(c2[k]);
        } else {
            assert(s2[i] == s[i]);
            let k2 = choose|k2: int| 0 <= k2 < pos.len() && c[k2] && s[i] == Some(ArgRef::Positional(#[trigger] pos[k2]));
            assert(c2[k2]);
        }
    }
}

proof fn lemma_units_state(
    decls: Seq<McParamDeclare>,
    vals: Seq<McParamValue>,
    named: Seq<(Seq<char>, ArgRef)>,
    pos: Seq<usize>,
    s0: Seq<Option<ArgRef>>,
    k: int,
)
    requires
        0 <= k <= pos.len(),
        s0.len() == decls.len(),
        increasing(pos),
        positional_state(s0, Seq::new(pos.len(), |i: int| false), named, pos),
        claim_units(decls, vals, pos, s0, k) is Ok,
    ensures
        positional_state(claim_units(decls, vals, pos, s0, k)->Ok_0.0, claim_units(decls, vals, pos, s0, k)->Ok_0.1, named, pos),
        claim_units(decls, vals, pos, s0, k)->Ok_0.0.len() == decls.len(),
        forall|k2: int| k <= k2 < pos.len() ==> !(#[trigger] claim_units(decls, vals, pos, s0, k)->Ok_0.1[k2]),
    decreases k,
{
    if k > 0 {
        lemma_units_state(decls, vals, named, pos, s0, k - 1);
        let (s, c) = claim_units(decls, vals, pos, s0, k - 1)->Ok_0;
        match vals[pos[k - 1] as int] {
            McParamValue::UValue(u) => {
                let di = free_slot(decls, s, SlotWant::Unit(u.unit), 0);
                lemma_free_slot(decls, s, SlotWant::Unit(u.unit), 0);
                if di < decls.len() {
                    lemma_take_slot(s, c, named, pos, di, k - 1);
                }
            },
            _ => {},
        }
    }
}

proof fn lemma_classes_state(
    decls: Seq<McParamDeclare>,
    vals: Seq<McParamValue>,
    enums: Seq<(Seq<char>, Seq<Seq<char>>)>,
    named: Seq<(Seq<char>, ArgRef)>,
    pos: Seq<usize>,
    s0: Seq<Option<ArgRef>>,
    c0: Seq<bool>,
    k: int,
)
    requires
        0 <= k <= pos.len(),
        s0.len() == decls.len(),
        increasing(pos),
        positional_state(s0, c0, named, pos),
        claim_classes(decls, vals, enums, pos, s0, c0, k) is Ok,
    ensures
        positional_state(
            claim_classes(decls, vals, enums, pos, s0, c0, k)->Ok_0.0,
            claim_classes(decls, vals, enums, pos, s0, c0, k)->Ok_0.1,
            named,
            pos,
        ),
        claim_classes(decls, vals, enums, pos, s0, c0, k)->Ok_0.0.len() == decls.len(),
    decreases k,
{
    if k > 0 {
        lemma_classes_state(decls, vals, enums, named, pos, s0, c0, k - 1);
        let (s, c) = claim_classes(decls, vals, enums, pos, s0, c0, k - 1)->Ok_0;
        let r = class_step(decls, vals, enums, pos, s, c, k - 1);
        if r != Ok::<(Seq<Option<ArgRef>>, Seq<bool>), crate::mc_param::BindErrModel>((s, c)) {
            // the step took a slot
            assert(!c[k - 1]);
            let w = choose|w: SlotWant| {
                let di = #[trigger] free_slot(decls, s, w, 0);
                di < decls.len() && r == Ok::<(Seq<Option<ArgRef>>, Seq<bool>), crate::mc_param::BindErrModel>(
                    take_slot(s, c, di, k - 1, pos),
                )
            };
            let di = free_slot(decls, s, w, 0);
            lemma_free_slot(decls, s, w, 0);
            lemma_take_slot(s, c, named, pos, di, k - 1);
        }
    }
}

proof fn lemma_unclaimed(pos: Seq<usize>, c: Seq<bool>, k: int)
    requires
        0 <= k <= pos.len(),
        c.len() == pos.len(),
        increasing(pos),
    ensures
        increasing(unclaimed(pos, c, k)),
        forall|q: int| 0 <= q < unclaimed(pos, c, k).len() ==> exists|k2: int|
            0 <= k2 < k && !c[k2] && (#[trigger] unclaimed(pos, c, k)[q]) == pos[k2],
        forall|k2: int| 0 <= k2 < k && !c[k2] ==> unclaimed(pos, c, k).contains(#[trigger] pos[k2]),
    decreases k,
{
    if k > 0 {
        lemma_unclaimed(pos, c, k - 1);
        let a = unclaimed(pos, c, k - 1);
        let b = unclaimed(pos, c, k);
        assert forall|q: int| 0 <= q < b.len() implies exists|k2: int|
            0 <= k2 < k && !c[k2] && (#[trigger] b[q]) == pos[k2] by {
            if q < a.len() {
                assert(b[q] == a[q]);
                let k2 = choose|k2: int| 0 <= k2 < k - 1 && !c[k2] && a[q] == pos[k2];
                assert(0 <= k2 < k && !c[k2] && b[q] == pos[k2]);
            } else {
                assert(b[q] == pos[k - 1]);
            }
        }
        assert forall|k2: int| 0 <= k2 < k && !c[k2] implies b.contains(#[trigger] pos[k2]) by {
            if k2 < k - 1 {
                let q = choose|q: int| 0 <= q < a.len() && a[q] == pos[k2];
                assert(b[q] == a[q]);
            } else {
                assert(b[a.len() as int] == pos[k - 1]);
            }
        }
        assert forall|q1: int, q2: int| 0 <= q1 < q2 < b.len() implies #[trigger] b[q1] < #[trigger] b[q2] by {
            if q2 < a.len() {
                assert(b[q1] == a[q1] && b[q2] == a[q2]);
            } else {
                assert(b[q1] == a[q1]);
                assert(b[q2] == pos[k - 1]);
                let k1 = choose|k1: int| 0 <= k1 < k - 1 && !c[k1] && a[q1] == pos[k1];
                assert(pos[k1] < pos[k - 1]);
            }
        }
    }
}

proof fn lemma_fill(s: Seq<Option<ArgRef>>, rem: Seq<usize>, i: int)
    requires
        0 <= i <= s.len(),
        distinct_slots(s),
        increasing(rem),
        forall|q: int| 0 <= q < rem.len() ==> !placed(s, ArgRef::Positional(#[trigger] rem[q])),
    ensures
        fill_slots(s, rem, i).0.len() == s.len(),
        distinct_slots(fill_slots(s, rem, i).0),
        forall|r: ArgRef| placed(s, r) ==> #[trigger] placed(fill_slots(s, rem, i).0, r),
        exists|u: int|
            0 <= u <= rem.len() && fill_slots(s, rem, i).1 == rem.subrange(u, rem.len() as int) && (
            forall|q: int| 0 <= q < u ==> #[trigger] placed(fill_slots(s, rem, i).0, ArgRef::Positional(rem[q]))),
    decreases s.len() - i,
{
    if i >= s.len() {
        assert(fill_slots(s, rem, i).1 =~= rem.subrange(0, rem.len() as int));
        assert forall|q: int| 0 <= q < 0 implies #[trigger] placed(fill_slots(s, rem, i).0, ArgRef::Positional(rem[q])) by {}
    } else if s[i] is None && rem.len() > 0 {
        let r0 = ArgRef::Positional(rem[0]);
        let s2 = s.update(i, Some(r0));
        let rem2 = rem.drop_first();
        assert forall|i1: int, i2: int|
            0 <= i1 < s2.len() && 0 <= i2 < s2.len() && i1 != i2 && (#[trigger] s2[i1]) is Some implies s2[i1]
                != #[trigger] s2[i2] by {
            if i1 != i && i2 != i {
                assert(s2[i1] == s[i1] && s2[i2] == s[i2]);
            } else if i1 == i {
                assert(s2[i2] == s[i2]);
                if s[i2] == Some(r0) {
                    assert(placed(s, ArgRef::Positional(rem[0])));
                }
            } else {
                assert(s2[i1] == s[i1]);
                if s[i1] == Some(r0) {
                    assert(placed(s, ArgRef::Positional(rem[0])));
                }
            }
        }
        assert forall|q1: int, q2: int| 0 <= q1 < q2 < rem2.len() implies #[trigger] rem2[q1] < #[trigger] rem2[q2] by {
            assert(rem2[q1] == rem[q1 + 1] && rem2[q2] == rem[q2 + 1]);
        }
        assert forall|q: int| 0 <= q < rem2.len() implies !placed(s2, ArgRef::Positional(#[trigger] rem2[q])) by {
            assert(rem2[q] == rem[q + 1]);
            assert(rem[0] < rem[q + 1]);
            if placed(s2, ArgRef::Positional(rem2[q])) {
                let j = choose|j: int| 0 <= j < s2.len() && s2[j] == Some(ArgRef::Positional(rem2[q]));
                if j != i {
                    assert(s[j] == s2[j]);
                    assert(placed(s, ArgRef::Positional(rem[q + 1])));
                }
            }
        }
        lemma_fill(s2, rem2, i + 1);
        let (sf, left) = fill_slots(s2, rem2, i + 1);
        assert(fill_slots(s, rem, i) == fill_slots(s2, rem2, i + 1));
        assert(placed(s2, r0)) by {
            assert(s2[i] == Some(r0));
        }
        assert forall|r: ArgRef| placed(s, r) implies #[trigger] placed(sf, r) by {
            let j = choose|j: int| 0 <= j < s.len() && s[j] == Some(r);
            assert(j != i);
            assert(s2[j] == s[j]);
            assert(placed(s2, r));
        }
        let u2 = choose|u2: int|
            0 <= u2 <= rem2.len() && left == rem2.subrange(u2, rem2.len() as int) && (forall|q: int|
                0 <= q < u2 ==> #[trigger] placed(sf, ArgRef::Positional(rem2[q])));
        assert(left =~= rem.subrange(u2 + 1, rem.len() as int));
        assert forall|q: int| 0 <= q < u2 + 1 implies #[trigger] placed(sf, ArgRef::Positional(rem[q])) by {
            if q == 0 {
                assert(placed(s2, r0));
            } else {
                assert(rem[q] == rem2[q - 1]);
                assert(placed(sf, ArgRef::Positional(rem2[q - 1])));
            }
        }
    } else {
        lemma_fill(s, rem, i + 1);
    }
}

proof fn lemma_first_false_none(c: Seq<bool>, i: int)
    requires
        0 <= i <= c.len(),
        first_false(c, i) >= c.len(),
    ensures
        forall|j: int| i <= j < c.len() ==> #[trigger] c[j],
    decreases c.len() - i,
{
    if i < c.len() {
        lemma_first_false_none(c, i + 1);
    }
}

/// Binding ignores nothing: when a call binds, every named argument and
/// every positional argument other than `NC` is held by a formal, and no
/// argument is held by two formals.
pub proof fn lemma_bind_uses_every_argument(
    decls: Seq<McParamDeclare>,
    vals: Seq<McParamValue>,
    enums: Seq<(Seq<char>, Seq<Seq<char>>)>,
)
    requires
        vals.len() <= usize::MAX,
        bind_spec(decls, vals, enums) is Ok,
    ensures
        distinct_slots(bind_spec(decls, vals, enums)->Ok_0),
        forall|j: int|
            0 <= j < named_args(vals).len() ==> placed(
                bind_spec(decls, vals, enums)->Ok_0,
                (#[trigger] named_args(vals)[j]).1,
            ),
        forall|k: int|
            0 <= k < positional_args(vals).len() ==> placed(
                bind_spec(decls, vals, enums)->Ok_0,
                ArgRef::Positional(#[trigger] positional_args(vals)[k]),
            ),
{
    let named = named_args(vals);
    let pos = positional_args(vals);
    lemma_named_refs(vals);
    lemma_positions_increase(vals);
    let n = decls.len() as int;
    lemma_claim_named_shape(decls, named, n);
    lemma_round_one(decls, named, n);
    let (s1, c1, n1) = claim_named(decls, named, n);
    lemma_first_false(c1, 0);
    lemma_first_false_none(c1, 0);
    let f = Seq::new(pos.len(), |i: int| false);
    assert forall|j: int| 0 <= j < named.len() implies placed(s1, (#[trigger] named[j]).1) by {
        assert(c1[j]);
    }
    assert forall|i: int| 0 <= i < s1.len() && is_positional(#[trigger] s1[i]) implies exists|k: int|
        0 <= k < pos.len() && f[k] && s1[i] == Some(ArgRef::Positional(#[trigger] pos[k])) by {
        let j = choose|j: int| 0 <= j < named.len() && c1[j] && s1[i] == Some(#[trigger] named[j].1);
        assert(is_named_below(named[j].1, vals.len() as int));
    }
    assert(positional_state(s1, f, named, pos));
    let m = pos.len() as int;
    lemma_units_state(decls, vals, named, pos, s1, m);
    let (s2, c2) = claim_units(decls, vals, pos, s1, m)->Ok_0;
    lemma_classes_state(decls, vals, enums, named, pos, s2, c2, m);
    let (s3, c3) = claim_classes(decls, vals, enums, pos, s2, c2, m)->Ok_0;
    let rem = unclaimed(pos, c3, m);
    lemma_unclaimed(pos, c3, m);
    assert forall|q: int| 0 <= q < rem.len() implies !placed(s3, ArgRef::Positional(#[trigger] rem[q])) by {
        let k2 = choose|k2: int| 0 <= k2 < m && !c3[k2] && rem[q] == pos[k2];
        if placed(s3, ArgRef::Positional(rem[q])) {
            let i = choose|i: int| 0 <= i < s3.len() && s3[i] == Some(ArgRef::Positional(rem[q]));
            assert(is_positional(s3[i]));
            let k3 = choose|k3: int| 0 <= k3 < pos.len() && c3[k3] && s3[i] == Some(ArgRef::Positional(#[trigger] pos[k3]));
            assert(k3 != k2);
            if k3 < k2 {
                assert(pos[k3] < pos[k2]);
            } else {
                assert(pos[k2] < pos[k3]);
            }
        }
    }
    lemma_fill(s3, rem, 0);
    let (s4, left) = fill_slots(s3, rem, 0);
    assert(bind_spec(decls, vals, enums) == Ok::<Seq<Option<ArgRef>>, crate::mc_param::BindErrModel>(s4));
    let u = choose|u: int|
        0 <= u <= rem.len() && left == rem.subrange(u, rem.len() as int) && (forall|q: int|
            0 <= q < u ==> #[trigger] placed(s4, ArgRef::Positional(rem[q])));
    assert(left.len() == 0);
    assert(u == rem.len());
    assert forall|j: int| 0 <= j < named.len() implies placed(s4, (#[trigger] named[j]).1) by {
        assert(placed(s3, named[j].1));
    }
    assert forall|k: int| 0 <= k < pos.len() implies placed(s4, ArgRef::Positional(#[trigger] pos[k])) by {
        if c3[k] {
            assert(placed(s3, ArgRef::Positional(pos[k])));
        } else {
            assert(rem.contains(pos[k]));
            let q = choose|q: int| 0 <= q < rem.len() && rem[q] == pos[k];
            assert(placed(s4, ArgRef::Positional(rem[q])));
        }
    }
}

/// Strict arity: a call with more slot-taking arguments than formals is
/// refused as too many arguments, whatever the arguments are.
pub proof fn lemma_bind_rejects_extra_arguments(
    decls: Seq<McParamDeclare>,
    vals: Seq<McParamValue>,
    enums: Seq<(Seq<char>, Seq<Seq<char>>)>,
)
    requires
        positional_args(vals).len() > decls.len(),
    ensures
        bind_spec(decls, vals, enums) == Err::<Seq<Option<ArgRef>>, crate::mc_param::BindErrModel>(
            crate::mc_param::BindErrModel::TooMany(
                decls.len() as usize,
                positional_args(vals).len() as usize,
            ),
        ),
{
}

/// The argument a reference points into.
pub open spec fn ref_index(r: ArgRef) -> int {
    match r {
        ArgRef::Named(vi, _) => vi as int,
        ArgRef::Positional(p) => p as int,
    }
}

/// Every filled slot points into the first `n` arguments.
pub open spec fn refs_within(s: Seq<Option<ArgRef>>, n: int) -> bool {
    forall|i: int|
        0 <= i < s.len() ==> (match #[trigger] s[i] {
            Some(r) => ref_index(r) < n,
            None => true,
        })
}

proof fn lemma_units_congruent(
    decls: Seq<McParamDeclare>,
    v: Seq<McParamValue>,
    w: Seq<McParamValue>,
    pos: Seq<usize>,
    s0: Seq<Option<ArgRef>>,
    k: int,
)
    requires
        0 <= k <= pos.len(),
        forall|j: int| 0 <= j < pos.len() ==> pos[j] < v.len() && w[#[trigger] pos[j] as int] == v[pos[j] as int],
        refs_within(s0, v.len() as int),
        s0.len() == decls.len(),
    ensures
        claim_units(decls, w, pos, s0, k) == claim_units(decls, v, pos, s0, k),
        claim_units(decls, v, pos, s0, k) is Ok ==> refs_within(claim_units(decls, v, pos, s0, k)->Ok_0.0, v.len() as int)
            && claim_units(decls, v, pos, s0, k)->Ok_0.0.len() == decls.len(),
    decreases k,
{
    if k > 0 {
        lemma_units_congruent(decls, v, w, pos, s0, k - 1);
        match claim_units(decls, v, pos, s0, k - 1) {
            Ok((s, c)) => {
                assert(s.len() == decls.len());
                assert(w[pos[k - 1] as int] == v[pos[k - 1] as int]);
                match v[pos[k - 1] as int] {
                    McParamValue::UValue(u) => {
                        let di = free_slot(decls, s, SlotWant::Unit(u.unit), 0);
                        lemma_free_slot(decls, s, SlotWant::Unit(u.unit), 0);
                        if di < decls.len() {
                            let s2 = take_slot(s, c, di, k - 1, pos).0;
                            assert forall|i: int| 0 <= i < s2.len() implies (match #[trigger] s2[i] {
                                Some(r) => ref_index(r) < v.len(),
                                None => true,
                            }) by {
                                if i != di {
                                    assert(s2[i] == s[i]);
                                }
                            }
                        }
                    },
                    _ => {},
                }
            },
            Err(_) => {},
        }
    }
}

proof fn lemma_classes_congruent(
    decls: Seq<McParamDeclare>,
    v: Seq<McParamValue>,
    w: Seq<McParamValue>,
    enums: Seq<(Seq<char>, Seq<Seq<char>>)>,
    pos: Seq<usize>,
    s0: Seq<Option<ArgRef>>,
    c0: Seq<bool>,
    k: int,
)
    requires
        0 <= k <= pos.len(),
        forall|j: int| 0 <= j < pos.len() ==> pos[j] < v.len() && w[#[trigger] pos[j] as int] == v[pos[j] as int],
        refs_within(s0, v.len() as int),
        s0.len() == decls.len(),
    ensures
        claim_classes(decls, w, enums, pos, s0, c0, k) == claim_classes(decls, v, enums, pos, s0, c0, k),
        claim_classes(decls, v, enums, pos, s0, c0, k) is Ok ==> refs_within(
            claim_classes(decls, v, enums, pos, s0, c0, k)->Ok_0.0,
            v.len() as int,
        ) && claim_classes(decls, v, enums, pos, s0, c0, k)->Ok_0.0.len() == decls.len(),
    decreases k,
{
    if k > 0 {
        lemma_classes_congruent(decls, v, w, enums, pos, s0, c0, k - 1);
        match claim_classes(decls, v, enums, pos, s0, c0, k - 1) {
            Ok((s, c)) => {
                assert(s.len() == decls.len());
                assert(w[pos[k - 1] as int] == v[pos[k - 1] as int]);
                let r = class_step(decls, v, enums, pos, s, c, k - 1);
                assert(class_step(decls, w, enums, pos, s, c, k - 1) == r);
                if r is Ok && r != Ok::<(Seq<Option<ArgRef>>, Seq<bool>), crate::mc_param::BindErrModel>((s, c)) {
                    let wt = choose|wt: SlotWant| {
                        let di = #[trigger] free_slot(decls, s, wt, 0);
                        di < decls.len() && r == Ok::<(Seq<Option<ArgRef>>, Seq<bool>), crate::mc_param::BindErrModel>(
                            take_slot(s, c, di, k - 1, pos),
                        )
                    };
                    let di = free_slot(decls, s, wt, 0);
                    lemma_free_slot(decls, s, wt, 0);
                    let s2 = take_slot(s, c, di, k - 1, pos).0;
                    assert forall|i: int| 0 <= i < s2.len() implies (match #[trigger] s2[i] {
                        Some(r) => ref_index(r) < v.len(),
                        None => true,
                    }) by {
                        if i != di {
                            assert(s2[i] == s[i]);
                        }
                    }
                }
            },
            Err(_) => {},
        }
    }
}

proof fn lemma_enum_error_congruent(
    decls: Seq<McParamDeclare>,
    v: Seq<McParamValue>,
    w: Seq<McParamValue>,
    enums: Seq<(Seq<char>, Seq<Seq<char>>)>,
    s: Seq<Option<ArgRef>>,
    i: int,
)
    requires
        0 <= i <= decls.len(),
        s.len() == decls.len(),
        refs_within(s, v.len() as int),
        forall|j: int| 0 <= j < v.len() ==> #[trigger] w[j] == v[j],
    ensures
        enum_error(decls, w, enums, s, i) == enum_error(decls, v, enums, s, i),
    decreases decls.len() - i,
{
    if i < decls.len() {
        lemma_enum_error_congruent(decls, v, w, enums, s, i + 1);
        match s[i] {
            Some(r) => {
                assert(ref_index(r) < v.len());
                match r {
                    ArgRef::Named(vi, _) => {
                        assert(w[vi as int] == v[vi as int]);
                    },
                    ArgRef::Positional(p) => {
                        assert(w[p as int] == v[p as int]);
                    },
                }
                assert(bound_model(w, s[i]) == bound_model(v, s[i]));
            },
            None => {},
        }
    }
}

proof fn lemma_fill_within(s: Seq<Option<ArgRef>>, rem: Seq<usize>, i: int, n: int)
    requires
        0 <= i <= s.len(),
        refs_within(s, n),
        forall|q: int| 0 <= q < rem.len() ==> #[trigger] rem[q] < n,
    ensures
        refs_within(fill_slots(s, rem, i).0, n),
        fill_slots(s, rem, i).0.len() == s.len(),
    decreases s.len() - i,
{
    if i < s.len() {
        if s[i] is None && rem.len() > 0 {
            let s2 = s.update(i, Some(ArgRef::Positional(rem[0])));
            assert forall|j: int| 0 <= j < s2.len() implies (match #[trigger] s2[j] {
                Some(r) => ref_index(r) < n,
                None => true,
            }) by {
                if j != i {
                    assert(s2[j] == s[j]);
                }
            }
            assert forall|q: int| 0 <= q < rem.drop_first().len() implies #[trigger] rem.drop_first()[q] < n by {
                assert(rem.drop_first()[q] == rem[q + 1]);
            }
            lemma_fill_within(s2, rem.drop_first(), i + 1, n);
        } else {
            lemma_fill_within(s, rem, i + 1, n);
        }
    }
}

proof fn lemma_unclaimed_within(pos: Seq<usize>, c: Seq<bool>, k: int, n: int)
    requires
        0 <= k <= pos.len(),
        forall|j: int| 0 <= j < pos.len() ==> #[trigger] pos[j] < n,
    ensures
        forall|q: int| 0 <= q < unclaimed(pos, c, k).len() ==> #[trigger] unclaimed(pos, c, k)[q] < n,
    decreases k,
{
    if k > 0 {
        lemma_unclaimed_within(pos, c, k - 1, n);
        let a = unclaimed(pos, c, k - 1);
        assert forall|q: int| 0 <= q < unclaimed(pos, c, k).len() implies #[trigger] unclaimed(pos, c, k)[q] < n by {
            if q < a.len() {
                assert(unclaimed(pos, c, k)[q] == a[q]);
            }
        }
    }
}

/// `NC` takes no slot and gives no value: a call with `NC` added after its
/// arguments binds exactly as the call without it.
pub proof fn lemma_bind_ignores_trailing_nc(
    decls: Seq<McParamDeclare>,
    vals: Seq<McParamValue>,
    enums: Seq<(Seq<char>, Seq<Seq<char>>)>,
    nc: McParamValue,
)
    requires
        vals.len() < usize::MAX,
        nc is NC,
    ensures
        bind_spec(decls, vals.push(nc), enums) == bind_spec(decls, vals, enums),
{
    let w = vals.push(nc);
    assert(w.drop_last() =~= vals);
    assert(named_args(w) =~= named_args(vals));
    assert(positional_args(w) =~= positional_args(vals));
    let named = named_args(vals);
    let pos = positional_args(vals);
    if pos.len() <= decls.len() {
        let n = decls.len() as int;
        lemma_named_refs(vals);
        lemma_positions_increase(vals);
        lemma_claim_named_shape(decls, named, n);
        lemma_round_one(decls, named, n);
        let (s1, c1, n1) = claim_named(decls, named, n);
        assert forall|i: int| 0 <= i < s1.len() implies (match #[trigger] s1[i] {
            Some(r) => ref_index(r) < vals.len(),
            None => true,
        }) by {
            if s1[i] is Some {
                let j = choose|j: int| 0 <= j < named.len() && c1[j] && s1[i] == Some(#[trigger] named[j].1);
                assert(is_named_below(named[j].1, vals.len() as int));
            }
        }
        assert forall|j: int| 0 <= j < pos.len() implies pos[j] < vals.len() && w[#[trigger] pos[j] as int]
            == vals[pos[j] as int] by {}
        let m = pos.len() as int;
        lemma_units_congruent(decls, vals, w, pos, s1, m);
        if claim_units(decls, vals, pos, s1, m) is Ok {
            let (s2, c2) = claim_units(decls, vals, pos, s1, m)->Ok_0;
            lemma_classes_congruent(decls, vals, w, enums, pos, s2, c2, m);
            if claim_classes(decls, vals, enums, pos, s2, c2, m) is Ok {
                let (s3, c3) = claim_classes(decls, vals, enums, pos, s2, c2, m)->Ok_0;
                lemma_unclaimed_within(pos, c3, m, vals.len() as int);
                lemma_fill_within(s3, unclaimed(pos, c3, m), 0, vals.len() as int);
                let s4 = fill_slots(s3, unclaimed(pos, c3, m), 0).0;
                assert forall|j: int| 0 <= j < vals.len() implies #[trigger] w[j] == vals[j] by {}
                lemma_enum_error_congruent(decls, vals, w, enums, s4, 0);
            }
        }
    }
}

} // verus!
