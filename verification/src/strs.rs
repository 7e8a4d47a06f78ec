//! Operations on lists of strings: concatenation, prefixing and the
//! row-major Cartesian product used by name expansion.
use vstd::prelude::*;
use crate::mc_ida::{append_all, concat, lemma_texts_push, lemma_texts_take, prepend_all, product, texts};
use crate::text::{str_eq, string_of};

verus! {

/// `a` followed by `b`.
pub fn concat_strings(a: &str, b: &str) -> (r: String)
    ensures
        r@ == a@ + b@,
{
    let mut r = a.to_owned();
    r.append(b);
    r
}

/// A copy of a string.
pub fn copy_string(s: &String) -> (r: String)
    ensures
        r@ == s@,
{
    s.clone()
}

/// A copy of a list of strings.
pub fn copy_strings(v: &[String]) -> (r: Vec<String>)
    ensures
        texts(r@) == texts(v@),
{
    let mut out: Vec<String> = Vec::new();
    let mut i: usize = 0;
    while i < v.len()
        invariant
            0 <= i <= v@.len(),
            texts(out@) == texts(v@.take(i as int)),
        decreases v@.len() - i,
    {
        let c = copy_string(&v[i]);
        proof {
            lemma_texts_push(out@, c);
            lemma_texts_take(v@, i as int);
        }
        out.push(c);
        i += 1;
    }
    assert(v@.take(v@.len() as int) =~= v@);
    out
}

/// Appends copies of all strings of `src` to `dst`.
pub fn extend_strings(dst: &mut Vec<String>, src: &[String])
    ensures
        texts(final(dst)@) == texts(old(dst)@) + texts(src@),
{
    let ghost start = texts(dst@);
    let mut i: usize = 0;
    while i < src.len()
        invariant
            0 <= i <= src@.len(),
            texts(dst@) == start + texts(src@.take(i as int)),
        decreases src@.len() - i,
    {
        let c = copy_string(&src[i]);
        proof {
            lemma_texts_push(dst@, c);
            lemma_texts_take(src@, i as int);
            assert(start + texts(src@.take(i as int)).push(c@) =~= (start + texts(
                src@.take(i as int),
            )).push(c@));
        }
        dst.push(c);
        i += 1;
    }
    assert(src@.take(src@.len() as int) =~= src@);
}

/// Every string of `g` with `suffix` appended.
pub fn append_all_exec(g: &[String], suffix: &str) -> (r: Vec<String>)
    ensures
        texts(r@) == append_all(texts(g@), suffix@),
{
    let mut out: Vec<String> = Vec::new();
    let mut i: usize = 0;
    while i < g.len()
        invariant
            0 <= i <= g@.len(),
            texts(out@) == append_all(texts(g@.take(i as int)), suffix@),
        decreases g@.len() - i,
    {
        let c = concat_strings(g[i].as_str(), suffix);
        proof {
            lemma_texts_push(out@, c);
            lemma_texts_take(g@, i as int);
            assert(append_all(texts(g@.take(i + 1)), suffix@) =~= append_all(
                texts(g@.take(i as int)),
                suffix@,
            ).push(c@));
        }
        out.push(c);
        i += 1;
    }
    assert(g@.take(g@.len() as int) =~= g@);
    out
}

/// Every string of `g` with `prefix` prepended.
pub fn prepend_all_exec(prefix: &str, g: &[String]) -> (r: Vec<String>)
    ensures
        texts(r@) == prepend_all(prefix@, texts(g@)),
{
    let mut out: Vec<String> = Vec::new();
    let mut i: usize = 0;
    while i < g.len()
        invariant
            0 <= i <= g@.len(),
            texts(out@) == prepend_all(prefix@, texts(g@.take(i as int))),
        decreases g@.len() - i,
    {
        let c = concat_strings(prefix, g[i].as_str());
        proof {
            lemma_texts_push(out@, c);
            lemma_texts_take(g@, i as int);
            assert(prepend_all(prefix@, texts(g@.take(i + 1))) =~= prepend_all(
                prefix@,
                texts(g@.take(i as int)),
            ).push(c@));
        }
        out.push(c);
        i += 1;
    }
    assert(g@.take(g@.len() as int) =~= g@);
    out
}

/// Row-major Cartesian product of two string lists.
pub fn product_exec(g: &[String], x: &[String]) -> (r: Vec<String>)
    ensures
        texts(r@) == product(texts(g@), texts(x@)),
{
    let mut out: Vec<String> = Vec::new();
    let mut i: usize = 0;
    while i < g.len()
        invariant
            0 <= i <= g@.len(),
            texts(out@) == product(texts(g@.take(i as int)), texts(x@)),
        decreases g@.len() - i,
    {
        let row = prepend_all_exec(g[i].as_str(), x);
        extend_strings(&mut out, row.as_slice());
        i += 1;
        proof {
            let t = texts(g@.take(i as int));
            assert(t.drop_last() =~= texts(g@.take(i - 1)));
            assert(t.last() == g@[i - 1]@);
        }
    }
    assert(g@.take(g@.len() as int) =~= g@);
    out
}

/// The concatenation of the texts of a list of strings, as a string.
pub fn concat_exec(v: &[String]) -> (r: String)
    ensures
        r@ == concat(texts(v@)),
{
    let mut out = String::new();
    let mut i: usize = 0;
    while i < v.len()
        invariant
            0 <= i <= v@.len(),
            out@ == concat(texts(v@.take(i as int))),
        decreases v@.len() - i,
    {
        out.append(v[i].as_str());
        i += 1;
        proof {
            let t = texts(v@.take(i as int));
            assert(t.drop_last() =~= texts(v@.take(i - 1)));
        }
    }
    assert(v@.take(v@.len() as int) =~= v@);
    out
}

/// A one-string list holding the given characters.
pub fn single_string(v: &[char]) -> (r: Vec<String>)
    ensures
        texts(r@) == seq![v@],
{
    let mut out: Vec<String> = Vec::new();
    out.push(string_of(v));
    assert(texts(out@) =~= seq![v@]);
    out
}

/// Element-wise equality of two lists of strings.
pub fn strings_eq(a: &Vec<String>, b: &Vec<String>) -> (r: bool)
    ensures
        r == (texts(a@) == texts(b@)),
{
    if a.len() != b.len() {
        proof {
            if texts(a@) == texts(b@) {
                assert(texts(a@).len() == texts(b@).len());
            }
        }
        return false;
    }
    let mut i: usize = 0;
    while i < a.len()
        invariant
            0 <= i <= a@.len(),
            a@.len() == b@.len(),
            forall|k: int| 0 <= k < i ==> a@[k]@ == b@[k]@,
        decreases a@.len() - i,
    {
        if !str_eq(a[i].as_str(), b[i].as_str()) {
            proof {
                assert(texts(a@)[i as int] != texts(b@)[i as int]);
            }
            return false;
        }
        i += 1;
    }
    assert(texts(a@) =~= texts(b@));
    true
}


/// Texts joined with a separator.
pub open spec fn join_sep(v: Seq<Seq<char>>, sep: Seq<char>) -> Seq<char>
    decreases v.len(),
{
    if v.len() == 0 {
        seq![]
    } else if v.len() == 1 {
        v[0]
    } else {
        join_sep(v.drop_last(), sep) + sep + v.last()
    }
}

/// The texts joined with a separator.
pub fn join_sep_exec(v: &[String], sep: &str) -> (r: String)
    ensures
        r@ == join_sep(texts(v@), sep@),
{
    let mut out = String::new();
    let mut i: usize = 0;
    while i < v.len()
        invariant
            0 <= i <= v@.len(),
            out@ == join_sep(texts(v@.take(i as int)), sep@),
        decreases v@.len() - i,
    {
        if i > 0 {
            crate::text::push_str(&mut out, sep);
        }
        crate::text::push_str(&mut out, v[i].as_str());
        proof {
            lemma_texts_take(v@, i as int);
            assert(texts(v@.take(i + 1)).drop_last() =~= texts(v@.take(i as int)));
            if i == 0 {
                assert(texts(v@.take(0)) =~= Seq::<Seq<char>>::empty());
                assert(out@ =~= v@[0]@);
            }
        }
        i += 1;
    }
    assert(v@.take(v@.len() as int) =~= v@);
    out
}
} // verus!
