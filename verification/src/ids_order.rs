//! The order of identifiers: by their display text, character by character,
//! a proper prefix first (the order of the texts' UTF-8 bytes).
use vstd::prelude::*;
use std::cmp::Ordering;
use crate::mc_ids::{ids_text, McIds};
use crate::text::chars_of;

verus! {

/// Whether text `a` comes before text `b`: at the first position where they
/// differ `a` has the smaller character, or `a` is a proper prefix of `b`.
pub open spec fn text_before(a: Seq<char>, b: Seq<char>) -> bool
    decreases a.len(),
{
    if a.len() == 0 {
        b.len() > 0
    } else if b.len() == 0 {
        false
    } else if a[0] != b[0] {
        a[0] < b[0]
    } else {
        text_before(a.drop_first(), b.drop_first())
    }
}

/// The order of texts is a strict total order: no text comes before itself,
/// it is transitive, and of two different texts one comes first.
pub proof fn text_order_is_strict_total(a: Seq<char>, b: Seq<char>, c: Seq<char>)
    ensures
        !text_before(a, a),
        text_before(a, b) && text_before(b, c) ==> text_before(a, c),
        a != b ==> text_before(a, b) || text_before(b, a),
        !(text_before(a, b) && text_before(b, a)),
    decreases a.len(),
{
    if a.len() > 0 && b.len() > 0 && c.len() > 0 {
        text_order_is_strict_total(a.drop_first(), b.drop_first(), c.drop_first());
    }
    if a.len() > 0 {
        text_order_is_strict_total(a.drop_first(), a.drop_first(), a.drop_first());
    }
    if a.len() > 0 && b.len() > 0 && a[0] == b[0] && a != b {
        assert(a.drop_first() != b.drop_first()) by {
            if a.drop_first() == b.drop_first() {
                assert(a =~= seq![a[0]] + a.drop_first());
                assert(b =~= seq![b[0]] + b.drop_first());
            }
        }
        text_order_is_strict_total(a.drop_first(), b.drop_first(), b.drop_first());
    }
    if a.len() > 0 && b.len() > 0 {
        text_order_is_strict_total(a.drop_first(), b.drop_first(), a.drop_first());
    }
    if a.len() == 0 && b.len() == 0 {
        assert(a =~= b);
    }
}

/// The length of the common prefix of two texts, with what it tells of
/// their order.
fn common_prefix(a: &[char], b: &[char]) -> (i: usize)
    ensures
        i <= a@.len(),
        i <= b@.len(),
        i < a@.len() && i < b@.len() ==> a@[i as int] != b@[i as int] && a@ != b@
            && text_before(a@, b@) == (a@[i as int] < b@[i as int])
            && text_before(b@, a@) == (b@[i as int] < a@[i as int]),
        i == a@.len() && i == b@.len() ==> a@ == b@,
        i == a@.len() && i < b@.len() ==> text_before(a@, b@) && !text_before(b@, a@) && a@ != b@,
        i < a@.len() && i == b@.len() ==> text_before(b@, a@) && !text_before(a@, b@) && a@ != b@,
{
    let n = a.len();
    let m = b.len();
    let mut i: usize = 0;
    assert(a@.skip(0) =~= a@);
    assert(b@.skip(0) =~= b@);
    while i < n && i < m && a[i] == b[i]
        invariant
            i <= n,
            i <= m,
            n == a@.len(),
            m == b@.len(),
            a@.take(i as int) == b@.take(i as int),
            text_before(a@, b@) == text_before(a@.skip(i as int), b@.skip(i as int)),
            text_before(b@, a@) == text_before(b@.skip(i as int), a@.skip(i as int)),
        decreases n - i,
    {
        proof {
            let x = a@.skip(i as int);
            let y = b@.skip(i as int);
            assert(x[0] == a@[i as int]);
            assert(y[0] == b@[i as int]);
            assert(x.drop_first() =~= a@.skip(i + 1));
            assert(y.drop_first() =~= b@.skip(i + 1));
            assert(a@.take(i + 1) =~= a@.take(i as int).push(a@[i as int]));
            assert(b@.take(i + 1) =~= b@.take(i as int).push(b@[i as int]));
        }
        i += 1;
    }
    proof {
        let x = a@.skip(i as int);
        let y = b@.skip(i as int);
        if i < n && i < m {
            assert(x[0] == a@[i as int]);
            assert(y[0] == b@[i as int]);
        }
        if i == n && i == m {
            assert(a@ =~= a@.take(i as int));
            assert(b@ =~= b@.take(i as int));
        } else {
            assert(a@ != b@) by {
                if a@ == b@ {
                    if i < n && i < m {
                        assert(a@[i as int] == b@[i as int]);
                    }
                }
            }
        }
    }
    i
}

fn chars_order(a: &[char], b: &[char]) -> (r: Ordering)
    ensures
        (r == Ordering::Less) == text_before(a@, b@),
        (r == Ordering::Equal) == (a@ == b@),
        (r == Ordering::Greater) == text_before(b@, a@),
{
    proof {
        text_order_is_strict_total(a@, b@, a@);
    }
    let i = common_prefix(a, b);
    let n = a.len();
    let m = b.len();
    if i < n && i < m {
        if a[i] < b[i] {
            Ordering::Less
        } else {
            Ordering::Greater
        }
    } else if i < m {
        Ordering::Less
    } else if i < n {
        Ordering::Greater
    } else {
        Ordering::Equal
    }
}

impl McIds {
    /// Orders two identifiers by their display text.
    pub fn cmp(&self, other: &McIds) -> (r: Ordering)
        ensures
            (r == Ordering::Less) == text_before(ids_text(self@), ids_text(other@)),
            (r == Ordering::Equal) == (ids_text(self@) == ids_text(other@)),
            (r == Ordering::Greater) == text_before(ids_text(other@), ids_text(self@)),
    {
        let a = chars_of(self.to_string().as_str());
        let b = chars_of(other.to_string().as_str());
        chars_order(a.as_slice(), b.as_slice())
    }
}

} // verus!
