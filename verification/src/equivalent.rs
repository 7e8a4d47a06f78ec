//! Member sets: the ordered list of concrete member names a spelling
//! denotes, in writing order. Every `[k]` / `{m}` / `.m` spelling of the same
//! members expands to the same ordered list, and two spellings are
//! equivalent exactly when their member sets are equal.
use vstd::prelude::*;
use crate::mc_ida::texts;
use crate::mc_ids::{display_segments, ids_expand, parse_display, IdsSegModel, McIds};
use crate::text::{contains_char, chars_of, str_eq};
use crate::strs::{copy_string, strings_eq};

verus! {

/// The member set of a segment list: its expansion, unless that is empty.
pub open spec fn member_set_of(v: Seq<IdsSegModel>) -> Option<Seq<Seq<char>>> {
    if ids_expand(v).len() == 0 {
        None
    } else {
        Some(ids_expand(v))
    }
}

/// A bare identifier holds none of `.`, `[`, `]`, `{`, `}`, `|`, `,`.
pub open spec fn is_bare(s: Seq<char>) -> bool {
    !s.contains('.') && !s.contains('[') && !s.contains(']') && !s.contains('{')
        && !s.contains('}') && !s.contains('|') && !s.contains(',')
}

/// The one bare member of a member set of exactly one member.
pub open spec fn canonical_single_of(v: Seq<IdsSegModel>) -> Option<Seq<char>> {
    match member_set_of(v) {
        Some(m) => if m.len() == 1 && is_bare(m[0]) {
            Some(m[0])
        } else {
            None
        },
        None => None,
    }
}

/// Two segment lists denote the same, non-empty, ordered member set.
pub open spec fn equivalent(a: Seq<IdsSegModel>, b: Seq<IdsSegModel>) -> bool {
    member_set_of(a) is Some && member_set_of(b) is Some && member_set_of(a) == member_set_of(b)
}

/// Expand `ids` to its ordered member set; `None` only for an empty
/// expansion.
pub fn member_set(ids: &McIds) -> (r: Option<Vec<String>>)
    ensures
        match r {
            Some(v) => member_set_of(ids@) == Some(texts(v@)),
            None => member_set_of(ids@) is None,
        },
{
    let expanded = ids.expand();
    if expanded.len() == 0 {
        return None;
    }
    Some(expanded)
}

/// The single member of the member set, when there is exactly one and it is
/// a bare identifier; dotted, bracketed and curly members give `None`.
pub fn canonical_single(ids: &McIds) -> (r: Option<String>)
    ensures
        match r {
            Some(s) => canonical_single_of(ids@) == Some(s@),
            None => canonical_single_of(ids@) is None,
        },
{
    let set = member_set(ids);
    match set {
        None => None,
        Some(v) => {
            if v.len() != 1 {
                return None;
            }
            let c = chars_of(v[0].as_str());
            if contains_char(c.as_slice(), '.') || contains_char(c.as_slice(), '[')
                || contains_char(c.as_slice(), ']') || contains_char(c.as_slice(), '{')
                || contains_char(c.as_slice(), '}') || contains_char(c.as_slice(), '|')
                || contains_char(c.as_slice(), ',') {
                return None;
            }
            Some(copy_string(&v[0]))
        },
    }
}

/// Two spellings are equivalent when they denote the same ordered member
/// set.
pub fn are_equivalent(a: &McIds, b: &McIds) -> (r: bool)
    ensures
        r == equivalent(a@, b@),
{
    match (member_set(a), member_set(b)) {
        (Some(x), Some(y)) => strings_eq(&x, &y),
        _ => false,
    }
}

/// The ordered member set of a display text.
pub fn member_set_from_str(display: &str) -> (r: Option<Vec<String>>)
    ensures
        match r {
            Some(v) => member_set_of(display_segments(display@)) == Some(texts(v@)),
            None => member_set_of(display_segments(display@)) is None,
        },
{
    let ids = parse_display(display);
    let expanded = member_set(&ids);
    match expanded {
        None => None,
        Some(v) => {
            if v.len() == 0 {
                None
            } else {
                Some(v)
            }
        },
    }
}

/// Equivalence of spellings is reflexive on spellings that denote members.
/// Two spellings are equivalent exactly when their expansions are the same
/// non-empty member list, member for member and in order; so equivalent
/// spellings have as many members, and spellings with different member
/// counts never are.
pub proof fn equivalent_is_equal_expansion(a: Seq<IdsSegModel>, b: Seq<IdsSegModel>)
    ensures
        equivalent(a, b) <==> (ids_expand(a).len() > 0 && ids_expand(a) == ids_expand(b)),
        equivalent(a, b) ==> ids_expand(a).len() == ids_expand(b).len() && forall|k: int|
            0 <= k < ids_expand(a).len() ==> ids_expand(a)[k] == ids_expand(b)[k],
        ids_expand(a).len() != ids_expand(b).len() ==> !equivalent(a, b),
        member_set_of(a) is None <==> ids_expand(a).len() == 0,
        ids_expand(a).len() > 0 ==> member_set_of(a) == Some(ids_expand(a)),
        canonical_single_of(a) is Some <==> (ids_expand(a).len() == 1 && is_bare(
            ids_expand(a)[0],
        )),
        canonical_single_of(a) matches Some(s) ==> s == ids_expand(a)[0],
{
}

pub proof fn lemma_equivalent_reflexive(a: Seq<IdsSegModel>)
    requires
        ids_expand(a).len() > 0,
    ensures
        equivalent(a, a),
{
}

/// Equivalence of spellings is symmetric.
pub proof fn lemma_equivalent_symmetric(a: Seq<IdsSegModel>, b: Seq<IdsSegModel>)
    ensures
        equivalent(a, b) == equivalent(b, a),
{
}

/// Equivalence of spellings is transitive.
pub proof fn lemma_equivalent_transitive(
    a: Seq<IdsSegModel>,
    b: Seq<IdsSegModel>,
    c: Seq<IdsSegModel>,
)
    requires
        equivalent(a, b),
        equivalent(b, c),
    ensures
        equivalent(a, c),
{
}

/// A canonical single member is the whole member set.
pub proof fn lemma_canonical_single_is_member_set(a: Seq<IdsSegModel>)
    requires
        canonical_single_of(a) is Some,
    ensures
        member_set_of(a) == Some(seq![canonical_single_of(a)->0]),
{
    let m = member_set_of(a)->0;
    assert(m =~= seq![m[0]]);
}

} // verus!
