//! A single identifier token (IDA) with embedded square groups:
//! `GPIO`, `res[1:4]`, `PDM[CLK, DATA]`, `R[1:rows]C[1:cols]`.
use vstd::prelude::*;
use crate::strs::{
    append_all_exec, concat_exec, concat_strings, copy_string, extend_strings, prepend_all_exec,
    product_exec, single_string,
};
use crate::text::{
    str_eq, chars_of, int_string, int_text, is_ascii_letter_exec, parse_i64, parse_i64_chars, push_char,
    string_of, sub_chars, trim_chars, trimmed, is_ascii_letter,
};

verus! {

// ---------------------------------------------------------------------------
// Types and their mathematical models
// ---------------------------------------------------------------------------

/// One item inside square brackets.
#[derive(Clone, PartialEq, Eq, Hash, Debug)]
pub enum SquareItem {
    /// Single identifier or number
    Id(String),
    /// Range expression (start:end)
    Range(String, String),
}

/// One segment of an IDA token.
#[derive(Clone, PartialEq, Eq, Hash, Debug)]
pub enum IdaSegment {
    /// Regular identifier text
    Id(String),
    /// Square bracket group with its items
    Square(Vec<SquareItem>),
}

/// An identifier token split into text and square-bracket segments.
#[derive(Clone, PartialEq, Eq, Hash, Debug)]
pub struct McIda {
    pub segments: Vec<IdaSegment>,
}

/// Model of a [`SquareItem`].
pub enum SquareItemModel {
    Id(Seq<char>),
    Range(Seq<char>, Seq<char>),
}

/// Model of an [`IdaSegment`].
pub enum IdaSegModel {
    Id(Seq<char>),
    Square(Seq<SquareItemModel>),
}

impl View for SquareItem {
    type V = SquareItemModel;

    open spec fn view(&self) -> SquareItemModel {
        match self {
            SquareItem::Id(s) => SquareItemModel::Id(s@),
            SquareItem::Range(a, b) => SquareItemModel::Range(a@, b@),
        }
    }
}

impl View for IdaSegment {
    type V = IdaSegModel;

    open spec fn view(&self) -> IdaSegModel {
        match self {
            IdaSegment::Id(s) => IdaSegModel::Id(s@),
            IdaSegment::Square(items) => IdaSegModel::Square(
                items@.map_values(|i: SquareItem| i@),
            ),
        }
    }
}

impl View for McIda {
    type V = Seq<IdaSegModel>;

    open spec fn view(&self) -> Seq<IdaSegModel> {
        self.segments@.map_values(|s: IdaSegment| s@)
    }
}

/// The texts of a sequence of strings.
pub open spec fn texts(v: Seq<String>) -> Seq<Seq<char>> {
    v.map_values(|s: String| s@)
}

pub proof fn lemma_texts_push(v: Seq<String>, s: String)
    ensures
        texts(v.push(s)) == texts(v).push(s@),
{
    assert(texts(v.push(s)) =~= texts(v).push(s@));
}

pub proof fn lemma_texts_take(v: Seq<String>, i: int)
    requires
        0 <= i < v.len(),
    ensures
        texts(v.take(i + 1)) == texts(v.take(i)).push(v[i]@),
{
    assert(texts(v.take(i + 1)) =~= texts(v.take(i)).push(v[i]@));
}

pub proof fn lemma_texts_add(a: Seq<String>, b: Seq<String>)
    ensures
        texts(a + b) == texts(a) + texts(b),
{
    assert(texts(a + b) =~= texts(a) + texts(b));
}

// ---------------------------------------------------------------------------
// Parsing specification
// ---------------------------------------------------------------------------

/// Index of the first `c` in `s` at or after `from`; `s.len()` when there is none.
pub open spec fn find_from(s: Seq<char>, from: int, c: char) -> int
    decreases s.len() - from,
{
    if from >= s.len() {
        s.len() as int
    } else if s[from] == c {
        from
    } else {
        find_from(s, from + 1, c)
    }
}

pub proof fn lemma_find_from(s: Seq<char>, from: int, c: char)
    ensures
        from <= find_from(s, from, c) || (from > s.len() && find_from(s, from, c) == s.len()),
        find_from(s, from, c) <= s.len(),
        forall|k: int| from <= k < find_from(s, from, c) ==> s[k] != c,
        find_from(s, from, c) < s.len() ==> s[find_from(s, from, c)] == c,
    decreases s.len() - from,
{
    if from < s.len() && s[from] != c {
        lemma_find_from(s, from + 1, c);
    }
}

/// Reading of one trimmed, non-empty square item: `a:b` with both sides
/// non-empty after trimming is a range, anything else a single item.
pub open spec fn item_of(t: Seq<char>) -> SquareItemModel {
    let k = find_from(t, 0, ':');
    if k < t.len() && trimmed(t.take(k)).len() > 0 && trimmed(t.skip(k + 1)).len() > 0 {
        SquareItemModel::Range(trimmed(t.take(k)), trimmed(t.skip(k + 1)))
    } else {
        SquareItemModel::Id(t)
    }
}

/// The item a comma-separated part contributes: none when it is blank.
pub open spec fn part_item(cur: Seq<char>) -> Seq<SquareItemModel> {
    if trimmed(cur).len() > 0 {
        seq![item_of(trimmed(cur))]
    } else {
        seq![]
    }
}

/// Items of square-bracket content from position `i`, `cur` being the part
/// read so far: the content is split at every `,`, each part trimmed, blank
/// parts dropped.
pub open spec fn square_scan(c: Seq<char>, i: int, cur: Seq<char>) -> Seq<SquareItemModel>
    decreases c.len() - i,
{
    if i >= c.len() {
        part_item(cur)
    } else if c[i] == ',' {
        part_item(cur) + square_scan(c, i + 1, seq![])
    } else {
        square_scan(c, i + 1, cur.push(c[i]))
    }
}

/// The segment a text run contributes: none when it is empty.
pub open spec fn flush_id(cur: Seq<char>) -> Seq<IdaSegModel> {
    if cur.len() > 0 {
        seq![IdaSegModel::Id(cur)]
    } else {
        seq![]
    }
}

/// The segment a square-bracket content contributes: none when it holds no item.
pub open spec fn square_seg(content: Seq<char>) -> Seq<IdaSegModel> {
    let items = square_scan(content, 0, seq![]);
    if items.len() > 0 {
        seq![IdaSegModel::Square(items)]
    } else {
        seq![]
    }
}

/// Segments of an IDA text from position `i`, `cur` being the text run read
/// so far. `[` opens a square group that runs to the next `]` (or the end);
/// a backslash takes the next character literally.
pub open spec fn ida_scan(s: Seq<char>, i: int, cur: Seq<char>) -> Seq<IdaSegModel>
    decreases s.len() - i,
{
    if i >= s.len() {
        flush_id(cur)
    } else if s[i] == '[' {
        let j = find_from(s, i + 1, ']');
        proof {
            lemma_find_from(s, i + 1, ']');
        }
        flush_id(cur) + square_seg(s.subrange(i + 1, j)) + if j < s.len() {
            ida_scan(s, j + 1, seq![])
        } else {
            seq![]
        }
    } else if s[i] == '\\' && i + 1 < s.len() {
        ida_scan(s, i + 2, cur.push(s[i + 1]))
    } else {
        ida_scan(s, i + 1, cur.push(s[i]))
    }
}

/// Segments of an IDA text.
pub open spec fn parse_ida(s: Seq<char>) -> Seq<IdaSegModel> {
    ida_scan(s, 0, seq![])
}

// ---------------------------------------------------------------------------
// Display specification
// ---------------------------------------------------------------------------

/// Text of one square item: `id` or `start:end`.
pub open spec fn item_text(i: SquareItemModel) -> Seq<char> {
    match i {
        SquareItemModel::Id(s) => s,
        SquareItemModel::Range(a, b) => a + seq![':'] + b,
    }
}

/// Texts joined with `, `.
pub open spec fn join_comma(v: Seq<Seq<char>>) -> Seq<char>
    decreases v.len(),
{
    if v.len() == 0 {
        seq![]
    } else if v.len() == 1 {
        v[0]
    } else {
        join_comma(v.drop_last()) + seq![',', ' '] + v.last()
    }
}

/// Text of one segment: the identifier text, or `[a, b:c]`.
pub open spec fn ida_seg_text(s: IdaSegModel) -> Seq<char> {
    match s {
        IdaSegModel::Id(t) => t,
        IdaSegModel::Square(items) => seq!['['] + join_comma(
            items.map_values(|i: SquareItemModel| item_text(i)),
        ) + seq![']'],
    }
}

/// Concatenation of texts.
pub open spec fn concat(v: Seq<Seq<char>>) -> Seq<char>
    decreases v.len(),
{
    if v.len() == 0 {
        seq![]
    } else {
        concat(v.drop_last()) + v.last()
    }
}

/// Text of an IDA: its segment texts concatenated.
pub open spec fn ida_text(segs: Seq<IdaSegModel>) -> Seq<char> {
    concat(segs.map_values(|s: IdaSegModel| ida_seg_text(s)))
}

// ---------------------------------------------------------------------------
// Expansion specification
// ---------------------------------------------------------------------------

/// Decimal texts of the integers from `a` to `b` in declaration order:
/// ascending when `a <= b`, descending when `a > b` (no member is dropped).
pub open spec fn int_range_texts(a: int, b: int) -> Seq<Seq<char>> {
    if a <= b {
        Seq::new((b - a + 1) as nat, |j: int| int_text(a + j))
    } else {
        Seq::new((a - b + 1) as nat, |j: int| int_text(a - j))
    }
}

/// One-character texts of the characters from `a` to `b` in declaration
/// order: ascending when `a <= b`, descending when `a > b`.
pub open spec fn char_range_texts(a: char, b: char) -> Seq<Seq<char>> {
    if a <= b {
        Seq::new(((b as u32) - (a as u32) + 1) as nat, |j: int| seq![((a as u32) + j) as char])
    } else {
        Seq::new(((a as u32) - (b as u32) + 1) as nat, |j: int| seq![((a as u32) - j) as char])
    }
}

/// A text of exactly one byte: one ASCII character.
pub open spec fn single_byte(s: Seq<char>) -> bool {
    s.len() == 1 && (s[0] as u32) < 128
}

/// The member texts one square item denotes. A range of two integers is the
/// run between them in declaration order; a range of two one-byte letters is
/// the letter run in declaration order; two one-byte sides that are not both letters denote nothing; any
/// other range stays the literal text `start:end`.
pub open spec fn item_expand(i: SquareItemModel) -> Seq<Seq<char>> {
    match i {
        SquareItemModel::Id(s) => seq![s],
        SquareItemModel::Range(a, b) => {
            if parse_i64(a) is Some && parse_i64(b) is Some {
                int_range_texts(parse_i64(a)->0 as int, parse_i64(b)->0 as int)
            } else if single_byte(a) && single_byte(b) {
                if is_ascii_letter(a[0]) && is_ascii_letter(b[0]) {
                    char_range_texts(a[0], b[0])
                } else {
                    seq![]
                }
            } else {
                seq![a + seq![':'] + b]
            }
        },
    }
}

/// The member texts of all items of one square group, in order.
pub open spec fn items_expand(items: Seq<SquareItemModel>) -> Seq<Seq<char>>
    decreases items.len(),
{
    if items.len() == 0 {
        seq![]
    } else {
        items_expand(items.drop_last()) + item_expand(items.last())
    }
}

/// Every text of `g` with `suffix` appended.
pub open spec fn append_all(g: Seq<Seq<char>>, suffix: Seq<char>) -> Seq<Seq<char>> {
    g.map_values(|e: Seq<char>| e + suffix)
}

/// Every text of `g` with `prefix` prepended.
pub open spec fn prepend_all(prefix: Seq<char>, g: Seq<Seq<char>>) -> Seq<Seq<char>> {
    g.map_values(|e: Seq<char>| prefix + e)
}

/// Cartesian product of two text lists, row-major: each text of `g`
/// followed by each text of `x`.
pub open spec fn product(g: Seq<Seq<char>>, x: Seq<Seq<char>>) -> Seq<Seq<char>>
    decreases g.len(),
{
    if g.len() == 0 {
        seq![]
    } else {
        product(g.drop_last(), x) + prepend_all(g.last(), x)
    }
}

/// The expansion state after a prefix of segments: the base text written
/// before the first expanding group, and the expanded combinations once a
/// group has expanded.
pub open spec fn ida_fold(segs: Seq<IdaSegModel>) -> (Seq<char>, Option<Seq<Seq<char>>>)
    decreases segs.len(),
{
    if segs.len() == 0 {
        (seq![], None)
    } else {
        let (base, f) = ida_fold(segs.drop_last());
        match segs.last() {
            IdaSegModel::Id(id) => match f {
                None => (base + id, None),
                Some(g) => (base, Some(append_all(g, id))),
            },
            IdaSegModel::Square(items) => {
                let x = items_expand(items);
                if x.len() == 0 {
                    (base, f)
                } else {
                    match f {
                        None => (base, Some(x)),
                        Some(g) => (base, Some(product(g, x))),
                    }
                }
            },
        }
    }
}

/// All member names an IDA denotes: square groups expand to the Cartesian
/// product of their members, text segments are written around them.
pub open spec fn ida_expand(segs: Seq<IdaSegModel>) -> Seq<Seq<char>> {
    let (base, f) = ida_fold(segs);
    match f {
        None => seq![base],
        Some(g) => prepend_all(base, g),
    }
}

/// Whether a square item is a range with a side that is not an integer,
/// unless both sides are one-byte letters.
pub open spec fn item_has_param_ref(i: SquareItemModel) -> bool {
    match i {
        SquareItemModel::Id(_) => false,
        SquareItemModel::Range(a, b) => (parse_i64(a) is None || parse_i64(b) is None) && !(
        single_byte(a) && single_byte(b) && is_ascii_letter(a[0]) && is_ascii_letter(
            b[0],
        )),
    }
}

/// Whether an IDA refers to a parameter in one of its ranges.
pub open spec fn ida_has_param_ref(segs: Seq<IdaSegModel>) -> bool {
    exists|k: int, j: int|
        #![trigger segs[k], item_has_param_ref(segs[k]->Square_0[j])]
        0 <= k < segs.len() && segs[k] is Square && 0 <= j < segs[k]->Square_0.len()
            && item_has_param_ref(segs[k]->Square_0[j])
}

/// The text a range side is replaced by: the value of the first binding
/// whose name equals it, else the side itself.
pub open spec fn subst_text(name: Seq<char>, bindings: Seq<(String, i64)>) -> Seq<char>
    decreases bindings.len(),
{
    if bindings.len() == 0 {
        name
    } else if bindings[0].0@ == name {
        int_text(bindings[0].1 as int)
    } else {
        subst_text(name, bindings.drop_first())
    }
}

/// A square item with its range sides replaced through the bindings.
pub open spec fn item_subst(i: SquareItemModel, bindings: Seq<(String, i64)>) -> SquareItemModel {
    match i {
        SquareItemModel::Id(t) => SquareItemModel::Id(t),
        SquareItemModel::Range(a, b) => SquareItemModel::Range(
            subst_text(a, bindings),
            subst_text(b, bindings),
        ),
    }
}

/// A segment with the range sides of its square group replaced through the bindings.
pub open spec fn seg_subst(s: IdaSegModel, bindings: Seq<(String, i64)>) -> IdaSegModel {
    match s {
        IdaSegModel::Id(t) => IdaSegModel::Id(t),
        IdaSegModel::Square(items) => IdaSegModel::Square(
            items.map_values(|i: SquareItemModel| item_subst(i, bindings)),
        ),
    }
}

/// An IDA with the range sides of its square groups replaced through the bindings.
pub open spec fn ida_subst(segs: Seq<IdaSegModel>, bindings: Seq<(String, i64)>) -> Seq<
    IdaSegModel,
> {
    segs.map_values(|s: IdaSegModel| seg_subst(s, bindings))
}

// ---------------------------------------------------------------------------
// Executable parsing
// ---------------------------------------------------------------------------

/// The models of a list of segments.
pub open spec fn seg_models(v: Seq<IdaSegment>) -> Seq<IdaSegModel> {
    v.map_values(|s: IdaSegment| s@)
}

/// The models of a list of square items.
pub open spec fn item_models(v: Seq<SquareItem>) -> Seq<SquareItemModel> {
    v.map_values(|s: SquareItem| s@)
}

/// Index of the first `c` in `s` at or after `from`, or `s.len()`.
pub fn find_from_exec(s: &[char], from: usize, c: char) -> (r: usize)
    requires
        from <= s@.len(),
    ensures
        r as int == find_from(s@, from as int, c),
{
    let mut i = from;
    while i < s.len() && s[i] != c
        invariant
            from <= i <= s@.len(),
            find_from(s@, i as int, c) == find_from(s@, from as int, c),
        decreases s@.len() - i,
    {
        i += 1;
    }
    i
}

/// Reading of one trimmed, non-empty square item.
fn item_of_exec(t: &[char]) -> (r: SquareItem)
    ensures
        r@ == item_of(t@),
{
    let k = find_from_exec(t, 0, ':');
    if k < t.len() {
        let left = sub_chars(t, 0, k);
        let right = sub_chars(t, k + 1, t.len());
        assert(left@ =~= t@.take(k as int));
        assert(right@ =~= t@.skip(k + 1));
        let a = trim_chars(left.as_slice());
        let b = trim_chars(right.as_slice());
        if a.len() > 0 && b.len() > 0 {
            return SquareItem::Range(string_of(a.as_slice()), string_of(b.as_slice()));
        }
    }
    SquareItem::Id(string_of(t))
}

/// Adds the item of one comma-separated part, unless the part is blank.
fn push_part_item(out: &mut Vec<SquareItem>, cur: &[char])
    ensures
        item_models(final(out)@) == item_models(old(out)@) + part_item(cur@),
{
    let t = trim_chars(cur);
    if t.len() > 0 {
        out.push(item_of_exec(t.as_slice()));
        assert(item_models(out@) =~= item_models(old(out)@) + part_item(cur@));
    } else {
        assert(item_models(out@) =~= item_models(old(out)@) + part_item(cur@));
    }
}

/// Items of square-bracket content: split at `,`, trimmed, blanks dropped.
fn parse_square_content(c: &[char]) -> (r: Vec<SquareItem>)
    ensures
        item_models(r@) == square_scan(c@, 0, seq![]),
{
    let mut out: Vec<SquareItem> = Vec::new();
    let mut cur: Vec<char> = Vec::new();
    let mut i: usize = 0;
    while i < c.len()
        invariant
            0 <= i <= c@.len(),
            item_models(out@) + square_scan(c@, i as int, cur@) == square_scan(c@, 0, seq![]),
        decreases c@.len() - i,
    {
        if c[i] == ',' {
            let ghost before = item_models(out@);
            push_part_item(&mut out, cur.as_slice());
            assert(before + square_scan(c@, i as int, cur@) == before + part_item(cur@)
                + square_scan(c@, i + 1, seq![]));
            assert(item_models(out@) + square_scan(c@, i + 1, seq![]) =~= before
                + square_scan(c@, i as int, cur@));
            cur = Vec::new();
        } else {
            cur.push(c[i]);
        }
        i += 1;
    }
    let ghost before = item_models(out@);
    push_part_item(&mut out, cur.as_slice());
    assert(item_models(out@) =~= before + square_scan(c@, i as int, cur@));
    out
}

/// Moves a non-empty text run into the segment list.
fn flush_run(segments: &mut Vec<IdaSegment>, cur: &[char])
    ensures
        seg_models(final(segments)@) == seg_models(old(segments)@) + flush_id(cur@),
{
    if cur.len() > 0 {
        segments.push(IdaSegment::Id(string_of(cur)));
    }
    assert(seg_models(segments@) =~= seg_models(old(segments)@) + flush_id(cur@));
}

impl McIda {
    /// Parses an IDA from its characters.
    pub fn parse_chars(s: &[char]) -> (r: McIda)
        ensures
            r@ == parse_ida(s@),
    {
        let mut segments: Vec<IdaSegment> = Vec::new();
        let mut cur: Vec<char> = Vec::new();
        let mut i: usize = 0;
        let n = s.len();
        while i < n
            invariant
                0 <= i <= n,
                n == s@.len(),
                seg_models(segments@) + ida_scan(s@, i as int, cur@) == parse_ida(s@),
            decreases n - i,
        {
            let ghost before = seg_models(segments@);
            if s[i] == '[' {
                flush_run(&mut segments, cur.as_slice());
                let j = find_from_exec(s, i + 1, ']');
                proof {
                    lemma_find_from(s@, i + 1, ']');
                }
                let content = sub_chars(s, i + 1, j);
                let items = parse_square_content(content.as_slice());
                if items.len() > 0 {
                    segments.push(IdaSegment::Square(items));
                }
                let next = if j < n {
                    j + 1
                } else {
                    n
                };
                proof {
                    let sq = square_seg(s@.subrange(i + 1, j as int));
                    assert(seg_models(segments@) =~= before + flush_id(cur@) + sq);
                    if j >= n {
                        assert(ida_scan(s@, n as int, seq![]) =~= seq![]);
                    }
                    assert(ida_scan(s@, i as int, cur@) =~= flush_id(cur@) + sq + ida_scan(
                        s@,
                        next as int,
                        seq![],
                    ));
                    assert(seg_models(segments@) + ida_scan(s@, next as int, seq![]) =~= before
                        + ida_scan(s@, i as int, cur@));
                }
                cur = Vec::new();
                i = next;
            } else if s[i] == '\\' && i + 1 < n {
                cur.push(s[i + 1]);
                i += 2;
            } else {
                cur.push(s[i]);
                i += 1;
            }
        }
        flush_run(&mut segments, cur.as_slice());
        McIda { segments }
    }

    /// Parses an IDA text: text runs, `[...]` square groups, backslash
    /// escapes.
    pub fn from(s: &str) -> (r: McIda)
        ensures
            r@ == parse_ida(s@),
    {
        let v = chars_of(s);
        Self::parse_chars(v.as_slice())
    }
}

// ---------------------------------------------------------------------------
// Display
// ---------------------------------------------------------------------------

/// Text of one square item.
pub fn item_text_exec(item: &SquareItem) -> (r: String)
    ensures
        r@ == item_text(item@),
{
    match item {
        SquareItem::Id(s) => copy_string(s),
        SquareItem::Range(a, b) => {
            let mut r = copy_string(a);
            push_char(&mut r, ':');
            let r2 = concat_strings(r.as_str(), b.as_str());
            assert(r2@ =~= a@ + seq![':'] + b@);
            r2
        },
    }
}

/// The items' texts joined with `, `.
fn join_items(items: &[SquareItem]) -> (r: String)
    ensures
        r@ == join_comma(item_models(items@).map_values(|i: SquareItemModel| item_text(i))),
{
    let ghost all = item_models(items@).map_values(|i: SquareItemModel| item_text(i));
    let mut out = String::new();
    let mut i: usize = 0;
    while i < items.len()
        invariant
            0 <= i <= items@.len(),
            all == item_models(items@).map_values(|i: SquareItemModel| item_text(i)),
            out@ == join_comma(all.take(i as int)),
        decreases items@.len() - i,
    {
        let t = item_text_exec(&items[i]);
        if i > 0 {
            push_char(&mut out, ',');
            push_char(&mut out, ' ');
        }
        let ghost prev = out@;
        out.append(t.as_str());
        i += 1;
        proof {
            assert(all.take(i as int).drop_last() =~= all.take(i - 1));
            assert(all.take(i as int).last() == t@);
            if i == 1 {
                assert(all.take(0) =~= seq![]);
                assert(out@ =~= t@);
            } else {
                assert(out@ =~= join_comma(all.take(i - 1)) + seq![',', ' '] + t@);
            }
        }
    }
    assert(all.take(items@.len() as int) =~= all);
    out
}

/// Text of one segment.
pub fn seg_text_exec(seg: &IdaSegment) -> (r: String)
    ensures
        r@ == ida_seg_text(seg@),
{
    match seg {
        IdaSegment::Id(s) => copy_string(s),
        IdaSegment::Square(items) => {
            let mut r = String::new();
            push_char(&mut r, '[');
            let inner = join_items(items.as_slice());
            r.append(inner.as_str());
            push_char(&mut r, ']');
            assert(r@ =~= seq!['['] + inner@ + seq![']']);
            r
        },
    }
}

impl McIda {
    /// The token's text: segment texts concatenated, square groups written
    /// as `[a, b:c]`.
    pub fn to_string(&self) -> (r: String)
        ensures
            r@ == ida_text(self@),
    {
        let ghost all = self@.map_values(|s: IdaSegModel| ida_seg_text(s));
        let mut out = String::new();
        let mut i: usize = 0;
        while i < self.segments.len()
            invariant
                0 <= i <= self.segments@.len(),
                all == self@.map_values(|s: IdaSegModel| ida_seg_text(s)),
                all.len() == self.segments@.len(),
                out@ == concat(all.take(i as int)),
            decreases self.segments@.len() - i,
        {
            let t = seg_text_exec(&self.segments[i]);
            out.append(t.as_str());
            i += 1;
            proof {
                assert(all.take(i as int).drop_last() =~= all.take(i - 1));
                assert(all.take(i as int).last() == t@);
            }
        }
        assert(all.take(all.len() as int) =~= all);
        out
    }

    pub fn is_empty(&self) -> (r: bool)
        ensures
            r == (self@.len() == 0),
    {
        self.segments.len() == 0
    }

    /// Number of segments.
    pub fn len(&self) -> (r: usize)
        ensures
            r == self@.len(),
    {
        self.segments.len()
    }

    /// The text before the first square group when the token starts with
    /// text (`PWR_[VDD2, GND2]` gives `PWR_`), else the empty text.
    pub fn prefix(&self) -> (r: &str)
        ensures
            r@ == (if self@.len() > 0 && self@[0] is Id {
                self@[0]->Id_0
            } else {
                Seq::<char>::empty()
            }),
    {
        if self.segments.len() > 0 {
            match &self.segments[0] {
                IdaSegment::Id(s) => {
                    return s.as_str();
                },
                IdaSegment::Square(_) => {},
            }
        }
        proof {
            reveal_strlit("");
        }
        ""
    }

    /// Whether the token holds a square group.
    pub fn has_square(&self) -> (r: bool)
        ensures
            r == (exists|k: int| 0 <= k < self@.len() && #[trigger] self@[k] is Square),
    {
        let mut i: usize = 0;
        while i < self.segments.len()
            invariant
                0 <= i <= self.segments@.len(),
                forall|k: int| 0 <= k < i ==> !(#[trigger] self@[k] is Square),
            decreases self.segments@.len() - i,
        {
            if let IdaSegment::Square(_) = &self.segments[i] {
                assert(self@[i as int] is Square);
                return true;
            }
            i += 1;
        }
        false
    }
}

// ---------------------------------------------------------------------------
// Expansion
// ---------------------------------------------------------------------------

/// Decimal texts of `a..=b`, ascending.
pub fn int_range_exec(a: i64, b: i64) -> (r: Vec<String>)
    ensures
        texts(r@) == int_range_texts(a as int, b as int),
{
    let mut out: Vec<String> = Vec::new();
    if a > b {
        let mut k = a;
        loop
            invariant_except_break
                texts(out@) == Seq::new((a - k) as nat, |j: int| int_text(a - j)),
            invariant
                b <= k <= a,
            ensures
                texts(out@) == Seq::new((a - b + 1) as nat, |j: int| int_text(a - j)),
            decreases k - b,
        {
            let t = int_string(k);
            proof {
                lemma_texts_push(out@, t);
                assert(Seq::new((a - k + 1) as nat, |j: int| int_text(a - j)) =~= Seq::new(
                    (a - k) as nat,
                    |j: int| int_text(a - j),
                ).push(t@));
            }
            out.push(t);
            if k == b {
                break;
            }
            k -= 1;
        }
        return out;
    }
    let mut k = a;
    loop
        invariant_except_break
            texts(out@) == Seq::new((k - a) as nat, |j: int| int_text(a + j)),
        invariant
            a <= k <= b,
        ensures
            texts(out@) == Seq::new((b - a + 1) as nat, |j: int| int_text(a + j)),
        decreases b - k,
    {
        let t = int_string(k);
        proof {
            lemma_texts_push(out@, t);
            assert(Seq::new((k - a + 1) as nat, |j: int| int_text(a + j)) =~= Seq::new(
                (k - a) as nat,
                |j: int| int_text(a + j),
            ).push(t@));
        }
        out.push(t);
        if k == b {
            break;
        }
        k += 1;
    }
    out
}

/// One-character texts of `a..=b`, for ASCII `a` and `b`.
fn char_range_exec(a: char, b: char) -> (r: Vec<String>)
    requires
        (a as u32) < 128,
        (b as u32) < 128,
    ensures
        texts(r@) == char_range_texts(a, b),
{
    let mut out: Vec<String> = Vec::new();
    if a > b {
        let top = a as u32;
        let bottom = b as u32;
        let mut k: u32 = top;
        loop
            invariant_except_break
                texts(out@) == Seq::new((top - k) as nat, |j: int| seq![((a as u32) - j) as char]),
            invariant
                bottom <= k <= top,
                top == a as u32,
                bottom == b as u32,
                top < 128,
            ensures
                texts(out@) == Seq::new((top - bottom + 1) as nat, |j: int| seq![((a as u32) - j) as char]),
            decreases k - bottom,
        {
            let c = crate::text::char_of_code(k);
            let mut s = String::new();
            push_char(&mut s, c);
            proof {
                lemma_texts_push(out@, s);
                assert(s@ =~= seq![((a as u32) - (top - k)) as char]);
                assert(Seq::new((top - k + 1) as nat, |j: int| seq![((a as u32) - j) as char])
                    =~= Seq::new((top - k) as nat, |j: int| seq![((a as u32) - j) as char]).push(
                    s@,
                ));
            }
            out.push(s);
            if k == bottom {
                break;
            }
            k -= 1;
        }
        return out;
    }
    let lo = a as u32;
    let hi = b as u32;
    let mut k: u32 = lo;
    while k <= hi
        invariant
            lo <= k <= hi + 1,
            lo == a as u32,
            hi == b as u32,
            hi < 128,
            texts(out@) == Seq::new((k - lo) as nat, |j: int| seq![((a as u32) + j) as char]),
        decreases hi + 1 - k,
    {
        let c = crate::text::char_of_code(k);
        let mut s = String::new();
        push_char(&mut s, c);
        proof {
            lemma_texts_push(out@, s);
            assert(s@ =~= seq![((a as u32) + (k - lo)) as char]);
            assert(Seq::new((k + 1 - lo) as nat, |j: int| seq![((a as u32) + j) as char])
                =~= Seq::new((k - lo) as nat, |j: int| seq![((a as u32) + j) as char]).push(
                s@,
            ));
        }
        out.push(s);
        k += 1;
    }
    out
}

/// The member texts one square item denotes.
pub fn item_expand_exec(item: &SquareItem) -> (r: Vec<String>)
    ensures
        texts(r@) == item_expand(item@),
{
    match item {
        SquareItem::Id(s) => {
            let mut out: Vec<String> = Vec::new();
            out.push(copy_string(s));
            assert(texts(out@) =~= item_expand(item@));
            out
        },
        SquareItem::Range(a, b) => {
            let ca = chars_of(a.as_str());
            let cb = chars_of(b.as_str());
            let pa = parse_i64_chars(ca.as_slice());
            let pb = parse_i64_chars(cb.as_slice());
            if pa.is_some() && pb.is_some() {
                return int_range_exec(pa.unwrap(), pb.unwrap());
            }
            if ca.len() == 1 && (ca[0] as u32) < 128 && cb.len() == 1 && (cb[0] as u32) < 128 {
                if is_ascii_letter_exec(ca[0]) && is_ascii_letter_exec(cb[0]) {
                    char_range_exec(ca[0], cb[0])
                } else {
                    let out: Vec<String> = Vec::new();
                    assert(ca@ == a@ && cb@ == b@);
                    assert(single_byte(a@) && single_byte(b@));
                    assert(!(parse_i64(a@) is Some && parse_i64(b@) is Some));
                    assert(!(is_ascii_letter(a@[0]) && is_ascii_letter(b@[0])));
                    assert(item_expand(item@) == Seq::<Seq<char>>::empty());
                    assert(texts(out@) =~= item_expand(item@));
                    out
                }
            } else {
                let mut t = copy_string(a);
                push_char(&mut t, ':');
                let t2 = concat_strings(t.as_str(), b.as_str());
                let mut out: Vec<String> = Vec::new();
                out.push(t2);
                assert(ca@ == a@ && cb@ == b@);
                assert(!(single_byte(a@) && single_byte(b@)));
                assert(t2@ =~= a@ + seq![':'] + b@);
                assert(texts(out@) =~= item_expand(item@));
                out
            }
        },
    }
}

/// The member texts of all items of a square group, in order.
pub fn items_expand_exec(items: &[SquareItem]) -> (r: Vec<String>)
    ensures
        texts(r@) == items_expand(item_models(items@)),
{
    let mut out: Vec<String> = Vec::new();
    let mut i: usize = 0;
    while i < items.len()
        invariant
            0 <= i <= items@.len(),
            texts(out@) == items_expand(item_models(items@.take(i as int))),
        decreases items@.len() - i,
    {
        let x = item_expand_exec(&items[i]);
        extend_strings(&mut out, x.as_slice());
        i += 1;
        proof {
            let m = item_models(items@.take(i as int));
            assert(m.drop_last() =~= item_models(items@.take(i - 1)));
            assert(m.last() == items@[i - 1]@);
        }
    }
    assert(items@.take(items@.len() as int) =~= items@);
    out
}

impl McIda {
    /// All member names the token denotes (`id[1:3]` gives `id1`, `id2`,
    /// `id3`; `id[1:2][4:5]` gives the row-major product).
    pub fn expand(&self) -> (r: Vec<String>)
        ensures
            texts(r@) == ida_expand(self@),
    {
        let mut base = String::new();
        let mut started = false;
        let mut g: Vec<String> = Vec::new();
        let mut i: usize = 0;
        while i < self.segments.len()
            invariant
                0 <= i <= self.segments@.len(),
                ida_fold(self@.take(i as int)) == (
                base@,
                if started {
                    Some(texts(g@))
                } else {
                    None
                },
                ),
            decreases self.segments@.len() - i,
        {
            proof {
                assert(self@.take(i + 1).drop_last() =~= self@.take(i as int));
                assert(self@.take(i + 1).last() == self.segments@[i as int]@);
            }
            match &self.segments[i] {
                IdaSegment::Id(id) => {
                    if !started {
                        base.append(id.as_str());
                    } else {
                        g = append_all_exec(g.as_slice(), id.as_str());
                    }
                },
                IdaSegment::Square(items) => {
                    let x = items_expand_exec(items.as_slice());
                    if x.len() > 0 {
                        if !started {
                            g = x;
                            started = true;
                        } else {
                            g = product_exec(g.as_slice(), x.as_slice());
                        }
                    }
                },
            }
            i += 1;
        }
        assert(self@.take(self@.len() as int) =~= self@);
        if !started {
            let mut out: Vec<String> = Vec::new();
            let c = copy_string(&base);
            out.push(c);
            assert(texts(out@) =~= seq![base@]);
            out
        } else {
            prepend_all_exec(base.as_str(), g.as_slice())
        }
    }

    /// Whether a square range of the token names a parameter (a side that
    /// is not an integer, unless both sides are one-byte letters):
    /// `R[1:rows]` does, `R[1:4]` and `R[a:e]` do not.
    pub fn has_param_ref(&self) -> (r: bool)
        ensures
            r == ida_has_param_ref(self@),
    {
        let mut k: usize = 0;
        while k < self.segments.len()
            invariant
                0 <= k <= self.segments@.len(),
                forall|k2: int, j: int|
                    0 <= k2 < k && self@[k2] is Square && 0 <= j < self@[k2]->Square_0.len()
                        ==> !item_has_param_ref(#[trigger] self@[k2]->Square_0[j]),
            decreases self.segments@.len() - k,
        {
            if let IdaSegment::Square(items) = &self.segments[k] {
                let mut j: usize = 0;
                while j < items.len()
                    invariant
                        0 <= j <= items@.len(),
                        0 <= k < self.segments@.len(),
                        self.segments@[k as int] == IdaSegment::Square(*items),
                        forall|j2: int|
                            0 <= j2 < j ==> !item_has_param_ref(#[trigger] items@[j2]@),
                    decreases items@.len() - j,
                {
                    if let SquareItem::Range(a, b) = &items[j] {
                        let ca = chars_of(a.as_str());
                        let cb = chars_of(b.as_str());
                        let pa = parse_i64_chars(ca.as_slice());
                        let pb = parse_i64_chars(cb.as_slice());
                        if pa.is_none() || pb.is_none() {
                            let letters = ca.len() == 1 && (ca[0] as u32) < 128 && cb.len() == 1
                                && (cb[0] as u32) < 128 && is_ascii_letter_exec(ca[0]) && is_ascii_letter_exec(
                                cb[0],
                            );
                            if !letters {
                                proof {
                                    assert(item_has_param_ref(self@[k as int]->Square_0[j as int]));
                                }
                                return true;
                            }
                        }
                    }
                    j += 1;
                }
            }
            k += 1;
        }
        false
    }
}

/// Text a range side is replaced by under the bindings.
fn subst_exec(name: &String, bindings: &[(String, i64)]) -> (r: String)
    ensures
        r@ == subst_text(name@, bindings@),
{
    let mut i: usize = 0;
    assert(bindings@.skip(0) =~= bindings@);
    while i < bindings.len()
        invariant
            0 <= i <= bindings@.len(),
            subst_text(name@, bindings@.skip(i as int)) == subst_text(name@, bindings@),
        decreases bindings@.len() - i,
    {
        assert(bindings@.skip(i as int).drop_first() =~= bindings@.skip(i + 1));
        if bindings[i].0 == *name {
            return int_string(bindings[i].1);
        }
        i += 1;
    }
    copy_string(name)
}

impl McIda {
    /// The token with every range side that names a binding replaced by the
    /// bound value: `R[1:rows]` with `rows = 2` gives `R[1:2]`.
    pub fn substitute_bindings(&self, bindings: &[(String, i64)]) -> (r: McIda)
        ensures
            r@ == ida_subst(self@, bindings@),
    {
        let mut segs: Vec<IdaSegment> = Vec::new();
        let mut k: usize = 0;
        while k < self.segments.len()
            invariant
                0 <= k <= self.segments@.len(),
                seg_models(segs@) == ida_subst(self@.take(k as int), bindings@),
            decreases self.segments@.len() - k,
        {
            let seg = match &self.segments[k] {
                IdaSegment::Id(id) => IdaSegment::Id(copy_string(id)),
                IdaSegment::Square(items) => {
                    let mut out: Vec<SquareItem> = Vec::new();
                    let mut j: usize = 0;
                    while j < items.len()
                        invariant
                            0 <= j <= items@.len(),
                            item_models(out@) == item_models(items@.take(j as int)).map_values(
                                |i: SquareItemModel| item_subst(i, bindings@),
                            ),
                        decreases items@.len() - j,
                    {
                        let it = match &items[j] {
                            SquareItem::Id(t) => SquareItem::Id(copy_string(t)),
                            SquareItem::Range(a, b) => SquareItem::Range(
                                subst_exec(a, bindings),
                                subst_exec(b, bindings),
                            ),
                        };
                        assert(it@ == item_subst(items@[j as int]@, bindings@));
                        assert(item_models(items@.take(j + 1)) =~= item_models(
                            items@.take(j as int),
                        ).push(items@[j as int]@));
                        let ghost prev = item_models(out@);
                        out.push(it);
                        assert(item_models(out@) =~= prev.push(it@));
                        j += 1;
                        assert(item_models(out@) =~= item_models(items@.take(j as int)).map_values(
                            |i: SquareItemModel| item_subst(i, bindings@),
                        ));
                    }
                    assert(items@.take(items@.len() as int) =~= items@);
                    assert(item_models(out@) =~= item_models(items@).map_values(
                        |i: SquareItemModel| item_subst(i, bindings@),
                    ));
                    IdaSegment::Square(out)
                },
            };
            assert(seg@ == seg_subst(self.segments@[k as int]@, bindings@));
            assert(self@.take(k + 1) =~= self@.take(k as int).push(self.segments@[k as int]@));
            let ghost prev = seg_models(segs@);
            segs.push(seg);
            assert(seg_models(segs@) =~= prev.push(seg@));
            k += 1;
            assert(seg_models(segs@) =~= ida_subst(self@.take(k as int), bindings@));
        }
        assert(self@.take(self@.len() as int) =~= self@);
        McIda { segments: segs }
    }
}


impl McIda {
    /// A copy of the token.
    pub fn copy(&self) -> (r: McIda)
        ensures
            r@ == self@,
    {
        let mut segs: Vec<IdaSegment> = Vec::new();
        let mut k: usize = 0;
        while k < self.segments.len()
            invariant
                0 <= k <= self.segments@.len(),
                seg_models(segs@) == seg_models(self.segments@.take(k as int)),
            decreases self.segments@.len() - k,
        {
            let seg = match &self.segments[k] {
                IdaSegment::Id(id) => IdaSegment::Id(copy_string(id)),
                IdaSegment::Square(items) => {
                    let mut out: Vec<SquareItem> = Vec::new();
                    let mut j: usize = 0;
                    while j < items.len()
                        invariant
                            0 <= j <= items@.len(),
                            item_models(out@) == item_models(items@.take(j as int)),
                        decreases items@.len() - j,
                    {
                        let it = match &items[j] {
                            SquareItem::Id(t) => SquareItem::Id(copy_string(t)),
                            SquareItem::Range(a, b) => SquareItem::Range(
                                copy_string(a),
                                copy_string(b),
                            ),
                        };
                        let ghost prev = item_models(out@);
                        out.push(it);
                        assert(item_models(out@) =~= prev.push(it@));
                        assert(item_models(items@.take(j + 1)) =~= item_models(
                            items@.take(j as int),
                        ).push(items@[j as int]@));
                        j += 1;
                    }
                    assert(items@.take(items@.len() as int) =~= items@);
                    IdaSegment::Square(out)
                },
            };
            let ghost prev = seg_models(segs@);
            segs.push(seg);
            assert(seg_models(segs@) =~= prev.push(seg@));
            assert(seg_models(self.segments@.take(k + 1)) =~= seg_models(
                self.segments@.take(k as int),
            ).push(self.segments@[k as int]@));
            k += 1;
        }
        assert(self.segments@.take(self.segments@.len() as int) =~= self.segments@);
        McIda { segments: segs }
    }
}


// ---------------------------------------------------------------------------
// Comparison
// ---------------------------------------------------------------------------

/// Whether two square items are the same.
fn item_eq(a: &SquareItem, b: &SquareItem) -> (r: bool)
    ensures
        r == (a@ == b@),
{
    match (a, b) {
        (SquareItem::Id(x), SquareItem::Id(y)) => str_eq(x.as_str(), y.as_str()),
        (SquareItem::Range(x1, x2), SquareItem::Range(y1, y2)) => str_eq(x1.as_str(), y1.as_str())
            && str_eq(x2.as_str(), y2.as_str()),
        _ => false,
    }
}

/// Whether two IDA segments are the same.
fn ida_seg_eq(a: &IdaSegment, b: &IdaSegment) -> (r: bool)
    ensures
        r == (a@ == b@),
{
    match (a, b) {
        (IdaSegment::Id(x), IdaSegment::Id(y)) => str_eq(x.as_str(), y.as_str()),
        (IdaSegment::Square(xs), IdaSegment::Square(ys)) => {
            let ghost mx = xs@.map_values(|i: SquareItem| i@);
            let ghost my = ys@.map_values(|i: SquareItem| i@);
            if xs.len() != ys.len() {
                assert(mx.len() != my.len());
                return false;
            }
            let mut i: usize = 0;
            while i < xs.len()
                invariant
                    0 <= i <= xs@.len(),
                    xs@.len() == ys@.len(),
                    mx == xs@.map_values(|i: SquareItem| i@),
                    my == ys@.map_values(|i: SquareItem| i@),
                    *a == IdaSegment::Square(*xs),
                    *b == IdaSegment::Square(*ys),
                    forall|j: int| 0 <= j < i ==> mx[j] == my[j],
                decreases xs@.len() - i,
            {
                if !item_eq(&xs[i], &ys[i]) {
                    assert(mx[i as int] != my[i as int]);
                    return false;
                }
                i += 1;
            }
            assert(mx =~= my);
            true
        },
        _ => false,
    }
}

impl McIda {
    /// Whether two tokens have the same segments.
    pub fn same_as(&self, other: &McIda) -> (r: bool)
        ensures
            r == (self@ == other@),
    {
        if self.segments.len() != other.segments.len() {
            assert(self@.len() != other@.len());
            return false;
        }
        let mut i: usize = 0;
        while i < self.segments.len()
            invariant
                0 <= i <= self@.len(),
                self@.len() == other@.len(),
                self.segments@.len() == other.segments@.len(),
                forall|j: int| 0 <= j < i ==> self@[j] == other@[j],
            decreases self@.len() - i,
        {
            if !ida_seg_eq(&self.segments[i], &other.segments[i]) {
                assert(self@[i as int] != other@[i as int]);
                return false;
            }
            i += 1;
        }
        assert(self@ =~= other@);
        true
    }
}

} // verus!
