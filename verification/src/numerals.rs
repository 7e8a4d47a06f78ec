//! Numeral texts: hexadecimal literals (`0x1F`, read with `i64::from_str_radix`
//! after the `0x` / `0X` prefixes are taken off) and the decimal fraction
//! grammar that `f64::from_str` accepts.
use vstd::prelude::*;
use crate::text::{all_digits, ascii_lower, chars_eq, is_digit, lower_chars, sub_chars};

verus! {

// ---------------------------------------------------------------------------
// Hexadecimal
// ---------------------------------------------------------------------------

/// An ASCII hexadecimal digit, in either case.
pub open spec fn is_hex_digit(c: char) -> bool {
    ('0' <= c && c <= '9') || ('a' <= c && c <= 'f') || ('A' <= c && c <= 'F')
}

/// The value of a hexadecimal digit.
pub open spec fn hex_digit_value(c: char) -> int {
    if '0' <= c && c <= '9' {
        (c as u32) - ('0' as u32)
    } else if 'a' <= c && c <= 'f' {
        (c as u32) - ('a' as u32) + 10
    } else {
        (c as u32) - ('A' as u32) + 10
    }
}

/// Every character of `s` is a hexadecimal digit.
pub open spec fn all_hex_digits(s: Seq<char>) -> bool {
    forall|i: int| 0 <= i < s.len() ==> is_hex_digit(#[trigger] s[i])
}

/// The value of a run of hexadecimal digits, most significant first.
pub open spec fn hex_digits_value(s: Seq<char>) -> int
    decreases s.len(),
{
    if s.len() == 0 {
        0
    } else {
        hex_digits_value(s.drop_last()) * 16 + hex_digit_value(s.last())
    }
}

/// `s` with every leading copy of the two characters `a b` taken off
/// (`str::trim_start_matches` with a two-character pattern).
pub open spec fn strip_pairs(s: Seq<char>, a: char, b: char) -> Seq<char>
    decreases s.len(),
{
    if s.len() >= 2 && s[0] == a && s[1] == b {
        strip_pairs(s.skip(2), a, b)
    } else {
        s
    }
}

/// The digits of a hexadecimal literal: its text without the leading `0x`
/// prefixes, then without the leading `0X` prefixes.
pub open spec fn hex_body(s: Seq<char>) -> Seq<char> {
    strip_pairs(strip_pairs(s, '0', 'x'), '0', 'X')
}

/// The value a text denotes in base 16, if it is an optional sign followed
/// by one or more hexadecimal digits (`i64::from_str_radix` grammar, before
/// the range check).
pub open spec fn hex_value(s: Seq<char>) -> Option<int> {
    let (neg, body) = if s.len() > 0 && s[0] == '-' {
        (true, s.drop_first())
    } else if s.len() > 0 && s[0] == '+' {
        (false, s.drop_first())
    } else {
        (false, s)
    };
    if body.len() > 0 && all_hex_digits(body) {
        Some(
            if neg {
                -hex_digits_value(body)
            } else {
                hex_digits_value(body)
            },
        )
    } else {
        None
    }
}

/// The `i64` a hexadecimal literal denotes: the value of its digits after
/// the prefixes, when that is a signed base-16 numeral in the `i64` range.
pub open spec fn parse_hex(s: Seq<char>) -> Option<i64> {
    match hex_value(hex_body(s)) {
        Some(v) => if i64::MIN <= v <= i64::MAX {
            Some(v as i64)
        } else {
            None
        },
        None => None,
    }
}

proof fn lemma_hex_value_nonneg(s: Seq<char>)
    requires
        all_hex_digits(s),
    ensures
        hex_digits_value(s) >= 0,
    decreases s.len(),
{
    if s.len() > 0 {
        assert(all_hex_digits(s.drop_last())) by {
            assert forall|i: int| 0 <= i < s.drop_last().len() implies is_hex_digit(
                #[trigger] s.drop_last()[i],
            ) by {
                assert(s.drop_last()[i] == s[i]);
            }
        }
        lemma_hex_value_nonneg(s.drop_last());
        assert(is_hex_digit(s[s.len() - 1]));
    }
}

proof fn lemma_hex_value_prefix(s: Seq<char>, k: int)
    requires
        all_hex_digits(s),
        0 <= k <= s.len(),
    ensures
        hex_digits_value(s.take(k)) <= hex_digits_value(s),
    decreases s.len(),
{
    if k < s.len() {
        let t = s.drop_last();
        assert(all_hex_digits(t)) by {
            assert forall|i: int| 0 <= i < t.len() implies is_hex_digit(#[trigger] t[i]) by {
                assert(t[i] == s[i]);
            }
        }
        lemma_hex_value_prefix(t, k);
        assert(t.take(k) =~= s.take(k));
        lemma_hex_value_nonneg(t);
        assert(is_hex_digit(s[s.len() - 1]));
        assert(hex_digits_value(t) * 16 >= hex_digits_value(t)) by (nonlinear_arith)
            requires
                hex_digits_value(t) >= 0,
        ;
    } else {
        assert(s.take(k) =~= s);
    }
}

/// Where the pairs `a b` that `strip_pairs` takes off end.
fn strip_pairs_at(v: &[char], from: usize, a: char, b: char) -> (r: usize)
    requires
        from <= v@.len(),
    ensures
        from <= r <= v@.len(),
        v@.skip(r as int) == strip_pairs(v@.skip(from as int), a, b),
{
    let n = v.len();
    let mut i: usize = from;
    while n - i >= 2 && v[i] == a && v[i + 1] == b
        invariant
            from <= i <= n,
            n == v@.len(),
            strip_pairs(v@.skip(from as int), a, b) == strip_pairs(v@.skip(i as int), a, b),
        decreases n - i,
    {
        proof {
            let t = v@.skip(i as int);
            assert(t[0] == v@[i as int]);
            assert(t[1] == v@[i + 1]);
            assert(t.skip(2) =~= v@.skip(i + 2));
        }
        i += 2;
    }
    proof {
        let t = v@.skip(i as int);
        if t.len() >= 2 {
            assert(t[0] == v@[i as int]);
            assert(t[1] == v@[i + 1]);
        }
    }
    i
}

/// The digit value of a hexadecimal digit character.
fn hex_digit_exec(c: char) -> (r: Option<u64>)
    ensures
        r matches Some(d) ==> is_hex_digit(c) && d == hex_digit_value(c) && d < 16,
        r is None ==> !is_hex_digit(c),
{
    if '0' <= c && c <= '9' {
        Some((c as u32 - '0' as u32) as u64)
    } else if 'a' <= c && c <= 'f' {
        Some((c as u32 - 'a' as u32 + 10) as u64)
    } else if 'A' <= c && c <= 'F' {
        Some((c as u32 - 'A' as u32 + 10) as u64)
    } else {
        None
    }
}

/// The `i64` a signed base-16 numeral denotes (`i64::from_str_radix` with
/// radix 16): `None` unless it is an optional sign and one or more
/// hexadecimal digits whose value fits in `i64`.
fn signed_hex(v: &[char]) -> (r: Option<i64>)
    ensures
        r == (match hex_value(v@) {
            Some(x) => if i64::MIN <= x <= i64::MAX {
                Some(x as i64)
            } else {
                None
            },
            None => None,
        }),
{
    let n = v.len();
    let mut start: usize = 0;
    let mut neg = false;
    if n > 0 && v[0] == '-' {
        start = 1;
        neg = true;
    } else if n > 0 && v[0] == '+' {
        start = 1;
    }
    let ghost body = v@.skip(start as int);
    proof {
        if start == 1 {
            assert(v@.drop_first() =~= body);
        } else {
            assert(v@ =~= body);
        }
    }
    if start >= n {
        return None;
    }
    // Magnitude accumulated so far; never above 2^63.
    let mut acc: u64 = 0;
    let mut i: usize = start;
    while i < n
        invariant
            start <= i <= n,
            n == v@.len(),
            start < n,
            body == v@.skip(start as int),
            start == 1 ==> v@.drop_first() == body,
            start == 0 ==> v@ == body,
            neg == (v@.len() > 0 && v@[0] == '-'),
            start == (if v@.len() > 0 && (v@[0] == '-' || v@[0] == '+') {
                1usize
            } else {
                0usize
            }),
            forall|j: int| start <= j < i ==> is_hex_digit(#[trigger] v@[j]),
            acc as int == hex_digits_value(body.take(i - start)),
            acc <= 9223372036854775808u64,
        decreases n - i,
    {
        let c = v[i];
        let dd = hex_digit_exec(c);
        if dd.is_none() {
            proof {
                assert(body[i - start] == c);
                assert(!all_hex_digits(body));
            }
            return None;
        }
        let d = dd.unwrap();
        proof {
            assert(body.take(i - start + 1).drop_last() =~= body.take(i - start));
            assert(body.take(i - start + 1).last() == c);
        }
        if acc > 576460752303423488u64 || (acc == 576460752303423488u64 && d > 0) {
            proof {
                assert(acc as int * 16 + d as int > 9223372036854775808) by (nonlinear_arith)
                    requires
                        acc > 576460752303423488u64 || (acc == 576460752303423488u64 && d > 0),
                ;
                assert(hex_digits_value(body.take(i - start + 1)) > 9223372036854775808);
                if all_hex_digits(body) {
                    lemma_hex_value_prefix(body, i - start + 1);
                }
            }
            return None;
        }
        assert(acc as int * 16 + d as int <= 9223372036854775808) by (nonlinear_arith)
            requires
                acc < 576460752303423488u64 || (acc == 576460752303423488u64 && d == 0),
                d < 16,
        ;
        acc = acc * 16 + d;
        i += 1;
    }
    proof {
        assert(body.take(n - start) =~= body);
        assert forall|j: int| 0 <= j < body.len() implies is_hex_digit(#[trigger] body[j]) by {
            assert(body[j] == v@[j + start]);
        }
        assert(hex_value(v@) == Some(if neg { -(acc as int) } else { acc as int }));
    }
    if neg {
        if acc == 9223372036854775808u64 {
            Some(i64::MIN)
        } else {
            Some(-(acc as i64))
        }
    } else {
        if acc > 9223372036854775807u64 {
            None
        } else {
            Some(acc as i64)
        }
    }
}

/// Reads a hexadecimal literal's value (`0x` and `0X` prefixes off, then
/// `i64::from_str_radix` in base 16).
pub fn parse_hex_chars(v: &[char]) -> (r: Option<i64>)
    ensures
        r == parse_hex(v@),
{
    let n = v.len();
    assert(v@.skip(0) =~= v@);
    let p = strip_pairs_at(v, 0, '0', 'x');
    let q = strip_pairs_at(v, p, '0', 'X');
    let t = sub_chars(v, q, n);
    assert(t@ =~= v@.skip(q as int));
    signed_hex(t.as_slice())
}

// ---------------------------------------------------------------------------
// Decimal fractions
// ---------------------------------------------------------------------------

/// `s` without one leading `+` or `-`.
pub open spec fn unsigned_part(s: Seq<char>) -> Seq<char> {
    if s.len() > 0 && (s[0] == '+' || s[0] == '-') {
        s.drop_first()
    } else {
        s
    }
}

/// The exponent mark of a decimal fraction, in either case.
pub open spec fn is_exp_mark(c: char) -> bool {
    c == 'e' || c == 'E'
}

/// Number of characters before the first exponent mark of `s` (its length
/// when it holds none).
pub open spec fn mark_pos(s: Seq<char>) -> nat
    decreases s.len(),
{
    if s.len() > 0 && !is_exp_mark(s[0]) {
        1 + mark_pos(s.drop_first())
    } else {
        0
    }
}

/// A mantissa: digits with at most one `.` among them, and at least one
/// digit (`12`, `1.5`, `3.`, `.5`).
pub open spec fn mantissa_ok(m: Seq<char>) -> bool {
    &&& forall|i: int| 0 <= i < m.len() ==> is_digit(#[trigger] m[i]) || m[i] == '.'
    &&& forall|i: int, j: int|
        0 <= i < j < m.len() ==> !(#[trigger] m[i] == '.' && #[trigger] m[j] == '.')
    &&& exists|i: int| 0 <= i < m.len() && is_digit(#[trigger] m[i])
}

/// An exponent after its mark: an optional sign and one or more digits.
pub open spec fn exponent_ok(x: Seq<char>) -> bool {
    unsigned_part(x).len() > 0 && all_digits(unsigned_part(x))
}

/// An unsigned decimal number: a mantissa, then optionally an exponent
/// mark and an exponent.
pub open spec fn decimal_ok(b: Seq<char>) -> bool {
    let k = mark_pos(b) as int;
    mantissa_ok(b.take(k)) && (k == b.len() || exponent_ok(b.skip(k + 1)))
}

/// `inf`, `infinity` or `nan`, in any mix of cases.
pub open spec fn special_word(b: Seq<char>) -> bool {
    let l = ascii_lower(b);
    l == seq!['i', 'n', 'f'] || l == seq!['i', 'n', 'f', 'i', 'n', 'i', 't', 'y'] || l == seq![
        'n',
        'a',
        'n',
    ]
}

/// The texts `f64::from_str` accepts: an optional sign, then `inf`,
/// `infinity` or `nan` in any case, or a decimal number with an optional
/// exponent; no blanks anywhere.
pub open spec fn float_text(s: Seq<char>) -> bool {
    special_word(unsigned_part(s)) || decimal_ok(unsigned_part(s))
}

fn unsigned_exec(v: &[char]) -> (r: Vec<char>)
    ensures
        r@ == unsigned_part(v@),
{
    let n = v.len();
    if n > 0 && (v[0] == '+' || v[0] == '-') {
        let r = sub_chars(v, 1, n);
        assert(r@ =~= v@.drop_first());
        r
    } else {
        let r = sub_chars(v, 0, n);
        assert(r@ =~= v@);
        r
    }
}

fn special_word_exec(b: &[char]) -> (r: bool)
    ensures
        r == special_word(b@),
{
    let l = lower_chars(b);
    let w1: Vec<char> = vec!['i', 'n', 'f'];
    let w2: Vec<char> = vec!['i', 'n', 'f', 'i', 'n', 'i', 't', 'y'];
    let w3: Vec<char> = vec!['n', 'a', 'n'];
    assert(w1@ =~= seq!['i', 'n', 'f']);
    assert(w2@ =~= seq!['i', 'n', 'f', 'i', 'n', 'i', 't', 'y']);
    assert(w3@ =~= seq!['n', 'a', 'n']);
    chars_eq(l.as_slice(), w1.as_slice()) || chars_eq(l.as_slice(), w2.as_slice()) || chars_eq(
        l.as_slice(),
        w3.as_slice(),
    )
}

proof fn lemma_mark_pos(s: Seq<char>, k: int)
    requires
        0 <= k <= s.len(),
        forall|j: int| 0 <= j < k ==> !is_exp_mark(#[trigger] s[j]),
        k < s.len() ==> is_exp_mark(s[k]),
    ensures
        mark_pos(s) == k,
    decreases s.len(),
{
    if k > 0 {
        let t = s.drop_first();
        assert forall|j: int| 0 <= j < k - 1 implies !is_exp_mark(#[trigger] t[j]) by {
            assert(t[j] == s[j + 1]);
        }
        if k - 1 < t.len() {
            assert(t[k - 1] == s[k]);
        }
        lemma_mark_pos(t, k - 1);
    }
}

fn mark_pos_exec(b: &[char]) -> (r: usize)
    ensures
        r == mark_pos(b@),
        r <= b@.len(),
{
    let n = b.len();
    let mut i: usize = 0;
    while i < n && !(b[i] == 'e' || b[i] == 'E')
        invariant
            i <= n,
            n == b@.len(),
            forall|j: int| 0 <= j < i ==> !is_exp_mark(#[trigger] b@[j]),
        decreases n - i,
    {
        i += 1;
    }
    proof {
        lemma_mark_pos(b@, i as int);
    }
    i
}

fn mantissa_ok_exec(m: &[char]) -> (r: bool)
    ensures
        r == mantissa_ok(m@),
{
    let n = m.len();
    let mut seen_dot = false;
    let mut seen_digit = false;
    let ghost mut dot_at: int = 0;
    let mut i: usize = 0;
    while i < n
        invariant
            i <= n,
            n == m@.len(),
            forall|j: int| 0 <= j < i ==> is_digit(#[trigger] m@[j]) || m@[j] == '.',
            forall|a: int, b: int|
                0 <= a < b < i ==> !(#[trigger] m@[a] == '.' && #[trigger] m@[b] == '.'),
            seen_dot ==> 0 <= dot_at < i && m@[dot_at] == '.',
            !seen_dot ==> forall|j: int| 0 <= j < i ==> #[trigger] m@[j] != '.',
            seen_digit == (exists|j: int| 0 <= j < i && is_digit(#[trigger] m@[j])),
        decreases n - i,
    {
        let c = m[i];
        if c == '.' {
            if seen_dot {
                proof {
                    assert(m@[dot_at] == '.' && m@[i as int] == '.');
                }
                return false;
            }
            seen_dot = true;
            proof {
                dot_at = i as int;
            }
            assert(!is_digit(m@[i as int]));
        } else if '0' <= c && c <= '9' {
            seen_digit = true;
            assert(is_digit(m@[i as int]));
        } else {
            proof {
                assert(!(is_digit(m@[i as int]) || m@[i as int] == '.'));
            }
            return false;
        }
        i += 1;
    }
    seen_digit
}

fn exponent_ok_exec(x: &[char]) -> (r: bool)
    ensures
        r == exponent_ok(x@),
{
    let u = unsigned_exec(x);
    if u.len() == 0 {
        return false;
    }
    let mut i: usize = 0;
    while i < u.len()
        invariant
            i <= u@.len(),
            u@ == unsigned_part(x@),
            forall|j: int| 0 <= j < i ==> is_digit(#[trigger] u@[j]),
        decreases u@.len() - i,
    {
        if !('0' <= u[i] && u[i] <= '9') {
            return false;
        }
        i += 1;
    }
    true
}

/// Whether `f64::from_str` accepts a text.
pub fn float_text_exec(v: &[char]) -> (r: bool)
    ensures
        r == float_text(v@),
{
    let b = unsigned_exec(v);
    if special_word_exec(b.as_slice()) {
        return true;
    }
    let n = b.len();
    let k = mark_pos_exec(b.as_slice());
    let m = sub_chars(b.as_slice(), 0, k);
    assert(m@ =~= b@.take(k as int));
    if !mantissa_ok_exec(m.as_slice()) {
        return false;
    }
    if k == n {
        return true;
    }
    let x = sub_chars(b.as_slice(), k + 1, n);
    assert(x@ =~= b@.skip(k + 1));
    exponent_ok_exec(x.as_slice())
}

} // verus!
