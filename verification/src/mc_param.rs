//! Actual arguments of a call and their binding to the formal parameters:
//! named arguments first, then arguments whose unit or class picks their
//! slot, then the rest in written order.
use vstd::prelude::*;
use crate::attr_keys::McUnit;
use crate::enum_classes::{class_of_member, is_class, is_member, EnumClasses};
use crate::mc_ida::{find_from, find_from_exec, lemma_find_from};
use crate::mc_ids::{dot_parts, ida_prefix, ids_expand, ids_text, seg_text, IdsSegModel, IdsSegment, McIds};
use crate::mc_ida::parse_ida;
use crate::mc_param_type::McParamTypeKind;
use crate::mc_paramd::{
    decl_matches, decl_model, decl_name, decl_primary, expand_all, ids_list, opt_text,
    McParamDeclare, McParamDeclareKind, McParamDeclares,
};
use crate::mc_literal::{McConst, McHex, McInt, McString};
use crate::mc_opd::{opd_text, McOpd, OpdModel};
use crate::mc_ida::texts;
use crate::strs::{copy_string, join_sep, join_sep_exec};
use crate::text::{
    ascii_lower, chars_eq, chars_of, int_string, int_text, lower_chars, nat_string, nat_text, owned,
    push_str, str_eq, sub_chars,
};

verus! {

/// Why binding call arguments to formal parameters failed.
#[derive(Debug, Clone)]
pub enum ParamBindError {
    /// Too many arguments.
    TooManyArguments { expected: usize, got: usize },
    /// A required parameter is missing.
    MissingRequired { name: String },
    /// An argument's type does not fit its parameter.
    TypeMismatch { param_name: String, expected: String, got: String },
    /// A named argument whose name matches no formal parameter.
    UnknownParameter { name: String },
}

/// The message of a binding error.
pub open spec fn bind_error_text(e: ParamBindError) -> Seq<char> {
    match e {
        ParamBindError::TooManyArguments { expected, got } => "Too many arguments: expected "@
            + nat_text(expected as nat) + ", got "@ + nat_text(got as nat),
        ParamBindError::MissingRequired { name } => "Missing required parameter: "@ + name@,
        ParamBindError::TypeMismatch { param_name, expected, got } => "Type mismatch for parameter '"@
            + param_name@ + "': expected "@ + expected@ + ", got "@ + got@,
        ParamBindError::UnknownParameter { name } => "Unknown parameter: no formal parameter named '"@
            + name@ + "'"@,
    }
}

impl ParamBindError {
    /// The error message.
    pub fn to_string(&self) -> (r: String)
        ensures
            r@ == bind_error_text(*self),
    {
        match self {
            ParamBindError::TooManyArguments { expected, got } => {
                let mut s = owned("Too many arguments: expected ");
                push_str(&mut s, nat_string(*expected as u64).as_str());
                push_str(&mut s, ", got ");
                push_str(&mut s, nat_string(*got as u64).as_str());
                s
            },
            ParamBindError::MissingRequired { name } => {
                let mut s = owned("Missing required parameter: ");
                push_str(&mut s, name.as_str());
                s
            },
            ParamBindError::TypeMismatch { param_name, expected, got } => {
                let mut s = owned("Type mismatch for parameter '");
                push_str(&mut s, param_name.as_str());
                push_str(&mut s, "': expected ");
                push_str(&mut s, expected.as_str());
                push_str(&mut s, ", got ");
                push_str(&mut s, got.as_str());
                s
            },
            ParamBindError::UnknownParameter { name } => {
                let mut s = owned("Unknown parameter: no formal parameter named '");
                push_str(&mut s, name.as_str());
                push_str(&mut s, "'");
                s
            },
        }
    }
}


// ---------------------------------------------------------------------------
// Argument values
// ---------------------------------------------------------------------------

/// A physical value argument (`10kΩ`, `3.3V`): its unit and its text.
#[derive(Debug)]
pub struct McUnitValue {
    pub unit: McUnit,
    pub text: String,
}

impl McUnitValue {
    /// The unit the value is measured in.
    pub fn unit(&self) -> (r: McUnit)
        ensures
            r == self.unit,
    {
        self.unit
    }
}

/// One entry of an attribute block argument (`{ cap = 1uF; volt = 50V }`):
/// its key, its values read as arguments, and its text as written.
#[derive(Debug)]
pub struct NamedArg {
    pub id: McIds,
    pub values: Vec<McParamValue>,
    pub text: String,
}

/// An actual argument of a call.
#[derive(Debug)]
pub enum McParamValue {
    /// The placeholder `_`.
    NONE(String),
    /// `NC`: not connected.
    NC(String),
    Const(McConst),
    Int(McInt),
    Hex(McHex),
    /// A decimal fraction literal, kept as written.
    Float(String),
    String(McString),
    UValue(McUnitValue),
    Ids(McIds),
    Opd(McOpd),
    /// A connection phrase or a nested call, kept as its text.
    Phrase(String),
    /// An attribute block: named arguments.
    InlineAttrs(Vec<NamedArg>),
    List(Vec<McParamValue>),
}

/// Model of an argument.
pub enum ValModel {
    Blank(Seq<char>),
    NotConnected(Seq<char>),
    Keyword(Seq<char>),
    Int(i64),
    Hex(i64, Seq<char>),
    Float(Seq<char>),
    Str(Seq<char>),
    UValue(McUnit, Seq<char>),
    Ids(Seq<IdsSegModel>),
    Opd(OpdModel),
    Phrase(Seq<char>),
    InlineAttrs(Seq<(Seq<IdsSegModel>, Seq<ValModel>, Seq<char>)>),
    List(Seq<ValModel>),
}

/// Model of an argument.
pub open spec fn val_model(v: McParamValue) -> ValModel
    decreases v,
{
    match v {
        McParamValue::NONE(s) => ValModel::Blank(s@),
        McParamValue::NC(s) => ValModel::NotConnected(s@),
        McParamValue::Const(McConst::Keyword(k)) => ValModel::Keyword(k@),
        McParamValue::Int(i) => ValModel::Int(i.value),
        McParamValue::Hex(h) => ValModel::Hex(h.value, h.hex_str@),
        McParamValue::Float(t) => ValModel::Float(t@),
        McParamValue::String(s) => ValModel::Str(s.value@),
        McParamValue::UValue(u) => ValModel::UValue(u.unit, u.text@),
        McParamValue::Ids(i) => ValModel::Ids(i@),
        McParamValue::Opd(o) => ValModel::Opd(o@),
        McParamValue::Phrase(t) => ValModel::Phrase(t@),
        McParamValue::InlineAttrs(attrs) => ValModel::InlineAttrs(
            Seq::new(
                attrs@.len(),
                |k: int|
                    if 0 <= k < attrs@.len() {
                        named_model(attrs@[k])
                    } else {
                        (Seq::<IdsSegModel>::empty(), Seq::<ValModel>::empty(), Seq::<char>::empty())
                    },
            ),
        ),
        McParamValue::List(vs) => ValModel::List(
            Seq::new(
                vs@.len(),
                |k: int|
                    if 0 <= k < vs@.len() {
                        val_model(vs@[k])
                    } else {
                        ValModel::Blank(Seq::<char>::empty())
                    },
            ),
        ),
    }
}

/// Model of a named argument: key, values, text.
pub open spec fn named_model(a: NamedArg) -> (Seq<IdsSegModel>, Seq<ValModel>, Seq<char>)
    decreases a,
{
    (
        a.id@,
        Seq::new(
            a.values@.len(),
            |k: int|
                if 0 <= k < a.values@.len() {
                    val_model(a.values@[k])
                } else {
                    ValModel::Blank(Seq::<char>::empty())
                },
        ),
        a.text@,
    )
}

/// The models of a list of arguments.
pub open spec fn val_models(v: Seq<McParamValue>) -> Seq<ValModel> {
    v.map_values(|x: McParamValue| val_model(x))
}

/// The models of a list of named arguments.
pub open spec fn named_models(v: Seq<NamedArg>) -> Seq<(Seq<IdsSegModel>, Seq<ValModel>, Seq<char>)> {
    v.map_values(|x: NamedArg| named_model(x))
}

pub(crate) proof fn lemma_inner_val_models(v: McParamValue)
    ensures
        v matches McParamValue::InlineAttrs(attrs) ==> val_model(v) == ValModel::InlineAttrs(
            named_models(attrs@),
        ),
        v matches McParamValue::List(vs) ==> val_model(v) == ValModel::List(val_models(vs@)),
{
    match v {
        McParamValue::InlineAttrs(attrs) => {
            assert(val_model(v)->InlineAttrs_0 =~= named_models(attrs@));
        },
        McParamValue::List(vs) => {
            assert(val_model(v)->List_0 =~= val_models(vs@));
        },
        _ => {},
    }
}

proof fn lemma_named_model(a: NamedArg)
    ensures
        named_model(a) == (a.id@, val_models(a.values@), a.text@),
{
    assert(named_model(a).1 =~= val_models(a.values@));
}

/// The text of an argument as a call site displays it: `_`, `NC`, the
/// literal, the name; a block or set as its entries in brackets.
pub open spec fn val_text(m: ValModel) -> Seq<char>
    decreases m,
{
    match m {
        ValModel::Blank(_) => "_"@,
        ValModel::NotConnected(_) => "NC"@,
        ValModel::Keyword(k) => k,
        ValModel::Int(v) => int_text(v as int),
        ValModel::Hex(_, h) => h,
        ValModel::Float(t) => t,
        ValModel::Str(s) => s,
        ValModel::UValue(_, t) => t,
        ValModel::Ids(i) => ids_text(i),
        ValModel::Opd(o) => opd_text(o),
        ValModel::Phrase(t) => t,
        ValModel::InlineAttrs(a) => "["@ + join_sep(entry_texts(a), ", "@) + "]"@,
        ValModel::List(vs) => "["@ + join_sep(list_texts(vs), ", "@) + "]"@,
    }
}

/// Whether some entry of an attribute block answers to `name`.
pub open spec fn block_answers(v: McParamValue, name: Seq<char>) -> bool {
    match v {
        McParamValue::InlineAttrs(attrs) => exists|i: int|
            0 <= i < attrs@.len() && key_answers((#[trigger] attrs@[i]).id@, name),
        _ => false,
    }
}

/// The root name of an indexed key: the text of its first token before any
/// square group (`pins[6:9]` gives `pins`), when there is such text.
pub open spec fn key_root(key: Seq<IdsSegModel>) -> Option<Seq<char>> {
    if key.len() > 0 && key[0] is Ida && ida_prefix(key[0]->Ida_0).len() > 0 {
        Some(ida_prefix(key[0]->Ida_0))
    } else {
        None
    }
}

/// Whether an attribute key answers to a formal name: the key's text, its
/// first segment, or the root name of an indexed key equals the name up to
/// ASCII case.
pub open spec fn key_answers(key: Seq<IdsSegModel>, name: Seq<char>) -> bool {
    ascii_lower(ids_text(key)) == ascii_lower(name) || (key.len() > 0 && ascii_lower(
        seg_text(key[0]),
    ) == ascii_lower(name)) || (key_root(key) matches Some(r) && ascii_lower(r) == ascii_lower(
        name,
    ))
}

/// Whether an attribute key answers to a formal name (`CAP` answers `cap`,
/// `pins[6:9]` answers `PINS`).
pub fn attr_key_matches(key: &McIds, name: &str) -> (r: bool)
    ensures
        r == key_answers(key@, name@),
{
    let full = key.to_string();
    if eq_ignore_case(full.as_str(), name) {
        return true;
    }
    let by_first = match key.root_name() {
        Some(root) => eq_ignore_case(root.as_str(), name),
        None => false,
    };
    if by_first {
        return true;
    }
    if key.segments.len() > 0 {
        assert(key@[0] == key.segments@[0]@);
        match &key.segments[0] {
            IdsSegment::Ida(a) => {
                let p = a.prefix();
                let pc = chars_of(p);
                assert(key@[0] == IdsSegModel::Ida(a@));
                if pc.len() > 0 {
                    return eq_ignore_case(p, name);
                }
                assert(key_root(key@) is None);
            },
            _ => {
                assert(!(key@[0] is Ida));
            },
        }
    }
    false
}

/// The texts of a list of argument models.
pub open spec fn list_texts(vs: Seq<ValModel>) -> Seq<Seq<char>>
    decreases vs,
{
    if vs.len() == 0 {
        Seq::<Seq<char>>::empty()
    } else {
        list_texts(vs.subrange(0, vs.len() - 1)).push(val_text(vs[vs.len() - 1]))
    }
}

/// The written texts of named argument models.
pub open spec fn entry_texts(a: Seq<(Seq<IdsSegModel>, Seq<ValModel>, Seq<char>)>) -> Seq<Seq<char>> {
    a.map_values(|e: (Seq<IdsSegModel>, Seq<ValModel>, Seq<char>)| e.2)
}

/// A deep copy of a list of arguments.
fn copy_values(v: &Vec<McParamValue>) -> (r: Vec<McParamValue>)
    ensures
        val_models(r@) == val_models(v@),
    decreases v,
{
    let mut out: Vec<McParamValue> = Vec::new();
    let mut i: usize = 0;
    while i < v.len()
        invariant
            0 <= i <= v@.len(),
            val_models(out@) == val_models(v@.take(i as int)),
        decreases v@.len() - i,
    {
        let ghost before = out@;
        let c = v[i].copy();
        out.push(c);
        assert(val_models(out@) =~= val_models(before).push(val_model(v@[i as int])));
        assert(v@.take(i + 1) =~= v@.take(i as int).push(v@[i as int]));
        assert(val_models(v@.take(i + 1)) =~= val_models(v@.take(i as int)).push(
            val_model(v@[i as int]),
        ));
        i += 1;
    }
    assert(v@.take(v@.len() as int) =~= v@);
    out
}

/// A deep copy of a list of named arguments.
fn copy_named_args(v: &Vec<NamedArg>) -> (r: Vec<NamedArg>)
    ensures
        named_models(r@) == named_models(v@),
    decreases v,
{
    let mut out: Vec<NamedArg> = Vec::new();
    let mut i: usize = 0;
    while i < v.len()
        invariant
            0 <= i <= v@.len(),
            named_models(out@) == named_models(v@.take(i as int)),
        decreases v@.len() - i,
    {
        let ghost before = out@;
        let a = &v[i];
        let vals = copy_values(&a.values);
        let c = NamedArg { id: a.id.copy(), values: vals, text: copy_string(&a.text) };
        proof {
            lemma_named_model(c);
            lemma_named_model(*a);
        }
        out.push(c);
        assert(named_models(out@) =~= named_models(before).push(named_model(v@[i as int])));
        assert(v@.take(i + 1) =~= v@.take(i as int).push(v@[i as int]));
        assert(named_models(v@.take(i + 1)) =~= named_models(v@.take(i as int)).push(
            named_model(v@[i as int]),
        ));
        i += 1;
    }
    assert(v@.take(v@.len() as int) =~= v@);
    out
}

impl McParamValue {
    /// A deep copy.
    pub fn copy(&self) -> (r: McParamValue)
        ensures
            val_model(r) == val_model(*self),
        decreases self,
    {
        match self {
            McParamValue::NONE(s) => McParamValue::NONE(copy_string(s)),
            McParamValue::NC(s) => McParamValue::NC(copy_string(s)),
            McParamValue::Const(McConst::Keyword(k)) => McParamValue::Const(
                McConst::Keyword(copy_string(k)),
            ),
            McParamValue::Int(i) => McParamValue::Int(McInt { value: i.value }),
            McParamValue::Hex(h) => McParamValue::Hex(
                McHex { value: h.value, hex_str: copy_string(&h.hex_str) },
            ),
            McParamValue::Float(t) => McParamValue::Float(copy_string(t)),
            McParamValue::String(s) => McParamValue::String(McString { value: copy_string(&s.value) }),
            McParamValue::UValue(u) => McParamValue::UValue(
                McUnitValue { unit: u.unit, text: copy_string(&u.text) },
            ),
            McParamValue::Ids(i) => McParamValue::Ids(i.copy()),
            McParamValue::Opd(o) => McParamValue::Opd(o.copy()),
            McParamValue::Phrase(t) => McParamValue::Phrase(copy_string(t)),
            McParamValue::InlineAttrs(attrs) => {
                let c = copy_named_args(attrs);
                proof {
                    lemma_inner_val_models(McParamValue::InlineAttrs(c));
                    lemma_inner_val_models(*self);
                }
                McParamValue::InlineAttrs(c)
            },
            McParamValue::List(vs) => {
                let c = copy_values(vs);
                proof {
                    lemma_inner_val_models(McParamValue::List(c));
                    lemma_inner_val_models(*self);
                }
                McParamValue::List(c)
            },
        }
    }
}

/// The texts of a list of arguments.
fn value_texts(v: &Vec<McParamValue>) -> (r: Vec<String>)
    ensures
        texts(r@) == list_texts(val_models(v@)),
    decreases v,
{
    let mut out: Vec<String> = Vec::new();
    let mut i: usize = 0;
    while i < v.len()
        invariant
            0 <= i <= v@.len(),
            texts(out@) == list_texts(val_models(v@.take(i as int))),
        decreases v@.len() - i,
    {
        let ghost before = out@;
        let t = v[i].to_string();
        out.push(t);
        assert(texts(out@) =~= texts(before).push(t@));
        assert(v@.take(i + 1) =~= v@.take(i as int).push(v@[i as int]));
        assert(val_models(v@.take(i + 1)).subrange(0, i as int) =~= val_models(v@.take(i as int)));
        i += 1;
    }
    assert(v@.take(v@.len() as int) =~= v@);
    out
}

/// The written texts of a list of named arguments.
fn named_texts(v: &Vec<NamedArg>) -> (r: Vec<String>)
    ensures
        texts(r@) == entry_texts(named_models(v@)),
{
    let mut out: Vec<String> = Vec::new();
    let mut i: usize = 0;
    while i < v.len()
        invariant
            0 <= i <= v@.len(),
            texts(out@) == entry_texts(named_models(v@.take(i as int))),
        decreases v@.len() - i,
    {
        let ghost before = out@;
        let t = copy_string(&v[i].text);
        out.push(t);
        proof {
            lemma_named_model(v@[i as int]);
        }
        assert(texts(out@) =~= texts(before).push(t@));
        assert(v@.take(i + 1) =~= v@.take(i as int).push(v@[i as int]));
        assert(entry_texts(named_models(v@.take(i + 1))) =~= entry_texts(
            named_models(v@.take(i as int)),
        ).push(v@[i as int].text@));
        i += 1;
    }
    assert(v@.take(v@.len() as int) =~= v@);
    out
}

fn bracketed(items: &Vec<String>) -> (r: String)
    ensures
        r@ == "["@ + join_sep(texts(items@), ", "@) + "]"@,
{
    let mut s = owned("[");
    let j = join_sep_exec(items.as_slice(), ", ");
    push_str(&mut s, j.as_str());
    push_str(&mut s, "]");
    s
}

impl McParamValue {
    /// The argument's text as a call site displays it.
    pub fn to_string(&self) -> (r: String)
        ensures
            r@ == val_text(val_model(*self)),
        decreases self,
    {
        match self {
            McParamValue::NONE(_) => owned("_"),
            McParamValue::NC(_) => owned("NC"),
            McParamValue::Const(McConst::Keyword(k)) => copy_string(k),
            McParamValue::Int(i) => int_string(i.value),
            McParamValue::Hex(h) => copy_string(&h.hex_str),
            McParamValue::Float(t) => copy_string(t),
            McParamValue::String(s) => copy_string(&s.value),
            McParamValue::UValue(u) => copy_string(&u.text),
            McParamValue::Ids(i) => i.to_string(),
            McParamValue::Opd(o) => o.to_string(),
            McParamValue::Phrase(t) => copy_string(t),
            McParamValue::InlineAttrs(attrs) => {
                let ts = named_texts(attrs);
                proof {
                    lemma_inner_val_models(*self);
                }
                bracketed(&ts)
            },
            McParamValue::List(vs) => {
                let ts = value_texts(vs);
                proof {
                    lemma_inner_val_models(*self);
                }
                bracketed(&ts)
            },
        }
    }

    /// The keyword constant, if the argument is one.
    pub fn as_const(&self) -> (r: Option<&McConst>)
        ensures
            match *self {
                McParamValue::Const(c) => r == Some(&c),
                _ => r is None,
            },
    {
        match self {
            McParamValue::Const(c) => Some(c),
            _ => None,
        }
    }

    /// The identifier, if the argument is one.
    pub fn as_ids(&self) -> (r: Option<&McIds>)
        ensures
            match *self {
                McParamValue::Ids(i) => r == Some(&i),
                _ => r is None,
            },
    {
        match self {
            McParamValue::Ids(i) => Some(i),
            _ => None,
        }
    }

    /// Whether the argument is a keyword constant.
    pub fn is_const(&self) -> (r: bool)
        ensures
            r == (*self is Const),
    {
        match self {
            McParamValue::Const(_) => true,
            _ => false,
        }
    }

    /// Whether the argument is an identifier.
    pub fn is_ids(&self) -> (r: bool)
        ensures
            r == (*self is Ids),
    {
        match self {
            McParamValue::Ids(_) => true,
            _ => false,
        }
    }

    /// Whether the argument is a bracketed list of values.
    pub fn is_set(&self) -> (r: bool)
        ensures
            r == (*self is List),
    {
        match self {
            McParamValue::List(_) => true,
            _ => false,
        }
    }

    /// Whether some entry of an attribute block answers to the formal
    /// `name`: its key, or the key's first segment (`pins[6:9]` gives
    /// `pins`), equal to it up to ASCII case.
    pub fn matches_param_name(&self, name: &str) -> (r: bool)
        ensures
            r == block_answers(*self, name@),
    {
        match self {
            McParamValue::InlineAttrs(attrs) => {
                let mut i: usize = 0;
                while i < attrs.len()
                    invariant
                        0 <= i <= attrs@.len(),
                        *self == McParamValue::InlineAttrs(*attrs),
                        forall|j: int| 0 <= j < i ==> !key_answers((#[trigger] attrs@[j]).id@, name@),
                    decreases attrs@.len() - i,
                {
                    if attr_key_matches(&attrs[i].id, name) {
                        let ghost whole = *self;
                        assert(whole->InlineAttrs_0 == *attrs);
                        assert(key_answers(whole->InlineAttrs_0@[i as int].id@, name@));
                        assert(block_answers(whole, name@));
                        return true;
                    }
                    i += 1;
                }
                false
            },
            _ => false,
        }
    }

    /// Whether the argument is an attribute block of named arguments.
    pub fn is_named_param(&self) -> (r: bool)
        ensures
            r == (*self is InlineAttrs),
    {
        match self {
            McParamValue::InlineAttrs(_) => true,
            _ => false,
        }
    }

    /// The key of the block's first named argument.
    pub fn get_param_name(&self) -> (r: Option<String>)
        ensures
            match *self {
                McParamValue::InlineAttrs(attrs) => match r {
                    Some(n) => attrs@.len() > 0 && n@ == ids_text(attrs@[0].id@),
                    None => attrs@.len() == 0,
                },
                _ => r is None,
            },
    {
        match self {
            McParamValue::InlineAttrs(attrs) => if attrs.len() > 0 {
                Some(attrs[0].id.to_string())
            } else {
                None
            },
            _ => None,
        }
    }
}

// ---------------------------------------------------------------------------
// Binding: the specification
// ---------------------------------------------------------------------------

/// Where a bound value comes from: the `k`-th entry of the attribute block
/// at argument `i`, or argument `i` itself.
#[derive(Debug, Clone, Copy, PartialEq, Eq, Structural)]
pub enum ArgRef {
    Named(usize, usize),
    Positional(usize),
}

/// Model of a binding error.
pub enum BindErrModel {
    TooMany(usize, usize),
    Missing(Seq<char>),
    Mismatch(Seq<char>, Seq<char>, Seq<char>),
    Unknown(Seq<char>),
}

impl View for ParamBindError {
    type V = BindErrModel;

    open spec fn view(&self) -> BindErrModel {
        match self {
            ParamBindError::TooManyArguments { expected, got } => BindErrModel::TooMany(*expected, *got),
            ParamBindError::MissingRequired { name } => BindErrModel::Missing(name@),
            ParamBindError::TypeMismatch { param_name, expected, got } => BindErrModel::Mismatch(
                param_name@,
                expected@,
                got@,
            ),
            ParamBindError::UnknownParameter { name } => BindErrModel::Unknown(name@),
        }
    }
}

/// The named arguments one argument contributes: each entry of an
/// attribute block, keyed by its text.
pub open spec fn named_of(v: McParamValue, vi: int) -> Seq<(Seq<char>, ArgRef)> {
    match v {
        McParamValue::InlineAttrs(attrs) => Seq::new(
            attrs@.len(),
            |k: int| (ids_text(attrs@[k].id@), ArgRef::Named(vi as usize, k as usize)),
        ),
        _ => Seq::<(Seq<char>, ArgRef)>::empty(),
    }
}

/// The named arguments of a call, in written order.
pub open spec fn named_args(vals: Seq<McParamValue>) -> Seq<(Seq<char>, ArgRef)>
    decreases vals.len(),
{
    if vals.len() == 0 {
        Seq::<(Seq<char>, ArgRef)>::empty()
    } else {
        named_args(vals.drop_last()) + named_of(vals.last(), vals.len() - 1)
    }
}

/// The positions of the positional arguments that occupy a slot: neither
/// an attribute block nor `NC`, in written order.
pub open spec fn positional_args(vals: Seq<McParamValue>) -> Seq<usize>
    decreases vals.len(),
{
    if vals.len() == 0 {
        Seq::<usize>::empty()
    } else {
        positional_args(vals.drop_last()) + (if vals.last() is InlineAttrs || vals.last() is NC {
            Seq::<usize>::empty()
        } else {
            seq![(vals.len() - 1) as usize]
        })
    }
}

/// The value an argument reference stands for: the argument, or the first
/// value of the block entry (`_` when the entry has none).
pub open spec fn arg_model(vals: Seq<McParamValue>, r: ArgRef) -> ValModel {
    match r {
        ArgRef::Positional(i) => val_model(vals[i as int]),
        ArgRef::Named(i, k) => match vals[i as int] {
            McParamValue::InlineAttrs(attrs) => if attrs@[k as int].values@.len() > 0 {
                val_model(attrs@[k as int].values@[0])
            } else {
                ValModel::Blank("_"@)
            },
            _ => ValModel::Blank("_"@),
        },
    }
}

/// The value bound to a slot, if any.
pub open spec fn bound_model(vals: Seq<McParamValue>, r: Option<ArgRef>) -> Option<ValModel> {
    match r {
        Some(a) => Some(arg_model(vals, a)),
        None => None,
    }
}

/// A named argument claims a formal when its key equals the formal's name
/// up to ASCII case, or names one of the formal's members.
pub open spec fn name_claims(d: McParamDeclare, p: Seq<char>, n: Seq<char>) -> bool {
    ascii_lower(n) == ascii_lower(p) || decl_matches(d, n)
}

/// The first named argument from `i` on, not yet claimed, that claims `d`.
pub open spec fn named_for(
    named: Seq<(Seq<char>, ArgRef)>,
    claimed: Seq<bool>,
    d: McParamDeclare,
    p: Seq<char>,
    i: int,
) -> int
    decreases named.len() - i,
{
    if i < 0 || i >= named.len() {
        named.len() as int
    } else if !claimed[i] && name_claims(d, p, named[i].0) {
        i
    } else {
        named_for(named, claimed, d, p, i + 1)
    }
}

/// Round one over the first `k` formals: each formal with a name takes the
/// first unclaimed named argument that claims it. Gives the slots, which
/// named arguments were claimed, and how many.
pub open spec fn claim_named(decls: Seq<McParamDeclare>, named: Seq<(Seq<char>, ArgRef)>, k: int) -> (
    Seq<Option<ArgRef>>,
    Seq<bool>,
    nat,
)
    decreases k,
{
    if k <= 0 {
        (Seq::<Option<ArgRef>>::empty(), Seq::new(named.len(), |i: int| false), 0)
    } else {
        let (s, c, n) = claim_named(decls, named, k - 1);
        let d = decls[k - 1];
        match decl_primary(d) {
            None => (s.push(None), c, n),
            Some(p) => {
                let j = named_for(named, c, d, p, 0);
                if j < named.len() {
                    (s.push(Some(named[j].1)), c.update(j, true), n + 1)
                } else {
                    (s.push(None), c, n)
                }
            },
        }
    }
}

/// The first index from `i` on whose flag is down.
pub open spec fn first_false(c: Seq<bool>, i: int) -> int
    decreases c.len() - i,
{
    if i < 0 || i >= c.len() {
        c.len() as int
    } else if !c[i] {
        i
    } else {
        first_false(c, i + 1)
    }
}

/// A formal the call must answer: no unit type, no enum class, no default.
pub open spec fn is_required(d: McParamDeclare) -> bool {
    !(d.param_type.kind is UnitValue || d.param_type.kind is UnitValueDefault
        || d.param_type.kind is CompoundUnit) && !(d.param_type.kind is EnumClass
        || d.param_type.kind is EnumClassDefault) && d.default_val is None
}

/// Names of the required formals among the first `k` left without a value.
pub open spec fn required_names(decls: Seq<McParamDeclare>, slots: Seq<Option<ArgRef>>, k: int) -> Seq<
    Seq<char>,
>
    decreases k,
{
    if k <= 0 {
        Seq::<Seq<char>>::empty()
    } else {
        required_names(decls, slots, k - 1) + (if slots[k - 1] is None && is_required(decls[k - 1])
            && decl_primary(decls[k - 1]) is Some {
            seq![decl_primary(decls[k - 1])->0]
        } else {
            Seq::<Seq<char>>::empty()
        })
    }
}

/// The unit a formal is declared with.
pub open spec fn declared_unit(d: McParamDeclare) -> Option<McUnit> {
    match d.param_type.kind {
        McParamTypeKind::UnitValue { unit } => Some(unit),
        McParamTypeKind::UnitValueDefault { unit, default: _ } => Some(unit),
        McParamTypeKind::CompoundUnit { head } => Some(head),
        _ => None,
    }
}

/// The enum class a formal is declared with (`diel::CAP`).
pub open spec fn declared_enum_class(d: McParamDeclare) -> Option<Seq<char>> {
    match d.kind {
        McParamDeclareKind::EnumClass(ec) => Some(ec.class_name@),
        _ => None,
    }
}

/// The interface class a formal is bound to (`dc24v::DC(24V)`).
pub open spec fn declared_interface(d: McParamDeclare) -> Option<Seq<char>> {
    match d.param_type.kind {
        McParamTypeKind::Interface { class_name, params: _ } => Some(class_name@),
        McParamTypeKind::InterfaceWithRole { class_name, role_val: _ } => Some(class_name@),
        _ => None,
    }
}

/// An interface class answers to a written class when the class, or its
/// text before the first dot, is that class.
pub open spec fn interface_answers(formal: Seq<char>, written: Seq<char>) -> bool {
    formal.take(find_from(formal, 0, '.')) == written || formal == written
}

/// The kinds of free slot a typed argument can claim.
pub enum SlotWant {
    Unit(McUnit),
    EnumClass(Seq<char>),
    Interface(Seq<char>),
}

/// Whether a formal offers what a typed argument wants.
pub open spec fn offers(d: McParamDeclare, w: SlotWant) -> bool {
    match w {
        SlotWant::Unit(u) => declared_unit(d) == Some(u),
        SlotWant::EnumClass(c) => declared_enum_class(d) == Some(c),
        SlotWant::Interface(c) => declared_interface(d) matches Some(f) && interface_answers(f, c),
    }
}

/// The first free slot from `i` on whose formal offers `w`.
pub open spec fn free_slot(decls: Seq<McParamDeclare>, s: Seq<Option<ArgRef>>, w: SlotWant, i: int) -> int
    decreases decls.len() - i,
{
    if i < 0 || i >= decls.len() {
        decls.len() as int
    } else if s[i] is None && offers(decls[i], w) {
        i
    } else {
        free_slot(decls, s, w, i + 1)
    }
}

/// The `Debug` name of a unit.
pub open spec fn unit_name(u: McUnit) -> Seq<char> {
    match u {
        McUnit::Volt => "Volt"@,
        McUnit::Wat => "Wat"@,
        McUnit::Ohm => "Ohm"@,
        McUnit::Cap => "Cap"@,
        McUnit::Ind => "Ind"@,
        McUnit::Amp => "Amp"@,
        McUnit::Hz => "Hz"@,
        McUnit::Charge => "Charge"@,
        McUnit::Percent => "Percent"@,
        McUnit::Temp => "Temp"@,
        McUnit::Time => "Time"@,
        McUnit::Len => "Len"@,
    }
}

/// The slots and claimed-flags after a typed argument takes slot `di`.
pub open spec fn take_slot(
    s: Seq<Option<ArgRef>>,
    c: Seq<bool>,
    di: int,
    k: int,
    pos: Seq<usize>,
) -> (Seq<Option<ArgRef>>, Seq<bool>) {
    (s.update(di, Some(ArgRef::Positional(pos[k]))), c.update(k, true))
}

/// Round two over the first `k` positional arguments: a unit value takes
/// the first free formal declared with its unit, and is an error when
/// there is none.
pub open spec fn claim_units(
    decls: Seq<McParamDeclare>,
    vals: Seq<McParamValue>,
    pos: Seq<usize>,
    s0: Seq<Option<ArgRef>>,
    k: int,
) -> Result<(Seq<Option<ArgRef>>, Seq<bool>), BindErrModel>
    decreases k,
{
    if k <= 0 {
        Ok((s0, Seq::new(pos.len(), |i: int| false)))
    } else {
        match claim_units(decls, vals, pos, s0, k - 1) {
            Err(e) => Err(e),
            Ok((s, c)) => match vals[pos[k - 1] as int] {
                McParamValue::UValue(u) => {
                    let di = free_slot(decls, s, SlotWant::Unit(u.unit), 0);
                    if di < decls.len() {
                        Ok(take_slot(s, c, di, k - 1, pos))
                    } else {
                        Err(
                            BindErrModel::Mismatch(
                                u.text@,
                                "a parameter declared with unit "@ + unit_name(u.unit),
                                "no matching unit declaration"@,
                            ),
                        )
                    }
                },
                _ => Ok((s, c)),
            },
        }
    }
}

/// The identifier an argument names: a name, or an operand naming one.
pub open spec fn arg_ids(v: McParamValue) -> Option<Seq<IdsSegModel>> {
    match v {
        McParamValue::Ids(i) => Some(i@),
        McParamValue::Opd(McOpd::Id(i)) => Some(i@),
        _ => None,
    }
}

/// The enum class a dot chain names: a dotted chain names its first part
/// when that is a known class; a bare name names the class listing it.
pub open spec fn chain_enum_class(enums: Seq<(Seq<char>, Seq<Seq<char>>)>, parts: Seq<Seq<char>>) -> Option<
    Seq<char>,
> {
    if parts.len() > 1 {
        if is_class(enums, parts[0]) {
            Some(parts[0])
        } else {
            None
        }
    } else {
        class_of_member(enums, parts[parts.len() - 1])
    }
}

/// Round two and a half, for positional argument `k`: an unclaimed name
/// that names an enum class takes the first free formal of that class (an
/// error when there is none); a dotted name that names no enum class takes
/// the first free formal bound to that interface class, if any.
pub open spec fn class_step(
    decls: Seq<McParamDeclare>,
    vals: Seq<McParamValue>,
    enums: Seq<(Seq<char>, Seq<Seq<char>>)>,
    pos: Seq<usize>,
    s: Seq<Option<ArgRef>>,
    c: Seq<bool>,
    k: int,
) -> Result<(Seq<Option<ArgRef>>, Seq<bool>), BindErrModel> {
    let arg = vals[pos[k] as int];
    if c[k] {
        Ok((s, c))
    } else {
        match arg_ids(arg) {
            None => Ok((s, c)),
            Some(ids) => match dot_parts(ids) {
                None => Ok((s, c)),
                Some(parts) => if parts.len() == 0 {
                    Ok((s, c))
                } else {
                    match chain_enum_class(enums, parts) {
                        Some(ac) => {
                            let di = free_slot(decls, s, SlotWant::EnumClass(ac), 0);
                            if di < decls.len() {
                                Ok(take_slot(s, c, di, k, pos))
                            } else {
                                Err(
                                    BindErrModel::Mismatch(
                                        val_text(val_model(arg)),
                                        "a parameter declared with enum class "@ + ac,
                                        "no matching enum-class declaration"@,
                                    ),
                                )
                            }
                        },
                        None => if parts.len() > 1 {
                            let di = free_slot(decls, s, SlotWant::Interface(parts[0]), 0);
                            if di < decls.len() {
                                Ok(take_slot(s, c, di, k, pos))
                            } else {
                                Ok((s, c))
                            }
                        } else {
                            Ok((s, c))
                        },
                    }
                },
            },
        }
    }
}

/// Round two and a half over the first `k` positional arguments.
pub open spec fn claim_classes(
    decls: Seq<McParamDeclare>,
    vals: Seq<McParamValue>,
    enums: Seq<(Seq<char>, Seq<Seq<char>>)>,
    pos: Seq<usize>,
    s0: Seq<Option<ArgRef>>,
    c0: Seq<bool>,
    k: int,
) -> Result<(Seq<Option<ArgRef>>, Seq<bool>), BindErrModel>
    decreases k,
{
    if k <= 0 {
        Ok((s0, c0))
    } else {
        match claim_classes(decls, vals, enums, pos, s0, c0, k - 1) {
            Err(e) => Err(e),
            Ok((s, c)) => class_step(decls, vals, enums, pos, s, c, k - 1),
        }
    }
}

/// The positional arguments among the first `k` still unclaimed.
pub open spec fn unclaimed(pos: Seq<usize>, c: Seq<bool>, k: int) -> Seq<usize>
    decreases k,
{
    if k <= 0 {
        Seq::<usize>::empty()
    } else {
        unclaimed(pos, c, k - 1) + (if c[k - 1] {
            Seq::<usize>::empty()
        } else {
            seq![pos[k - 1]]
        })
    }
}

/// Round three from slot `i` on: the remaining arguments fill the free
/// slots in order. Gives the slots and the arguments left over.
pub open spec fn fill_slots(s: Seq<Option<ArgRef>>, rem: Seq<usize>, i: int) -> (
    Seq<Option<ArgRef>>,
    Seq<usize>,
)
    decreases s.len() - i,
{
    if i < 0 || i >= s.len() {
        (s, rem)
    } else if s[i] is None && rem.len() > 0 {
        fill_slots(s.update(i, Some(ArgRef::Positional(rem[0]))), rem.drop_first(), i + 1)
    } else {
        fill_slots(s, rem, i + 1)
    }
}

/// The value name an enum-class formal is checked with: the bound name, or
/// the default when nothing is bound; none for any other bound value.
pub open spec fn enum_value_name(d: McParamDeclare, b: Option<ValModel>) -> Option<Seq<char>> {
    match d.kind {
        McParamDeclareKind::EnumClass(ec) => match b {
            Some(ValModel::Ids(i)) => if i.len() == 0 {
                None
            } else {
                Some(ids_text(i))
            },
            Some(_) => None,
            None => opt_text(ec.default_val),
        },
        _ => None,
    }
}

/// The first enum-class formal from `i` on whose value is not a member of
/// its class, as an error.
pub open spec fn enum_error(
    decls: Seq<McParamDeclare>,
    vals: Seq<McParamValue>,
    enums: Seq<(Seq<char>, Seq<Seq<char>>)>,
    s: Seq<Option<ArgRef>>,
    i: int,
) -> Option<BindErrModel>
    decreases decls.len() - i,
{
    if i < 0 || i >= decls.len() {
        None
    } else {
        match decls[i].kind {
            McParamDeclareKind::EnumClass(ec) => match enum_value_name(decls[i], bound_model(vals, s[i])) {
                Some(vn) => if !is_member(enums, ec.class_name@, vn) {
                    Some(
                        BindErrModel::Mismatch(
                            ids_text(ec.name@),
                            "a valid member of enum "@ + ec.class_name@,
                            vn,
                        ),
                    )
                } else {
                    enum_error(decls, vals, enums, s, i + 1)
                },
                None => enum_error(decls, vals, enums, s, i + 1),
            },
            _ => enum_error(decls, vals, enums, s, i + 1),
        }
    }
}

/// What binding `vals` to `decls` gives: the slot each formal's value
/// comes from, or the error. Arguments beyond the formals fail first; then
/// named arguments claim their formals and a name no formal answers fails;
/// required formals must be coverable by the positional arguments; then
/// unit values, enum members and interface members claim typed formals;
/// the rest fill the free formals in order, and any left over fail; last,
/// every enum-class value must be a member of its class.
pub open spec fn bind_spec(
    decls: Seq<McParamDeclare>,
    vals: Seq<McParamValue>,
    enums: Seq<(Seq<char>, Seq<Seq<char>>)>,
) -> Result<Seq<Option<ArgRef>>, BindErrModel> {
    let named = named_args(vals);
    let pos = positional_args(vals);
    if pos.len() > decls.len() {
        Err(BindErrModel::TooMany(decls.len() as usize, pos.len() as usize))
    } else {
        let (s1, c1, n1) = claim_named(decls, named, decls.len() as int);
        let u = first_false(c1, 0);
        if u < named.len() {
            Err(BindErrModel::Unknown(named[u].0))
        } else {
            let req = required_names(decls, s1, decls.len() as int);
            if pos.len() < req.len() {
                Err(BindErrModel::Missing(req[pos.len() as int]))
            } else {
                match claim_units(decls, vals, pos, s1, pos.len() as int) {
                    Err(e) => Err(e),
                    Ok((s2, c2)) => match claim_classes(
                        decls,
                        vals,
                        enums,
                        pos,
                        s2,
                        c2,
                        pos.len() as int,
                    ) {
                        Err(e) => Err(e),
                        Ok((s3, c3)) => {
                            let (s4, left) = fill_slots(s3, unclaimed(pos, c3, pos.len() as int), 0);
                            if left.len() > 0 {
                                Err(BindErrModel::TooMany((decls.len() - n1) as usize, pos.len() as usize))
                            } else {
                                match enum_error(decls, vals, enums, s4, 0) {
                                    Some(e) => Err(e),
                                    None => Ok(s4),
                                }
                            }
                        },
                    },
                }
            }
        }
    }
}

/// Whether binding stops at a unit-typed argument that claims no formal:
/// the arguments pass the count, name and required checks, and the unit
/// round fails.
pub open spec fn unit_miss(
    decls: Seq<McParamDeclare>,
    vals: Seq<McParamValue>,
) -> bool {
    let named = named_args(vals);
    let pos = positional_args(vals);
    let (s1, c1, n1) = claim_named(decls, named, decls.len() as int);
    &&& pos.len() <= decls.len()
    &&& first_false(c1, 0) >= named.len()
    &&& pos.len() >= required_names(decls, s1, decls.len() as int).len()
    &&& claim_units(decls, vals, pos, s1, pos.len() as int) is Err
}

/// The number of unit-typed arguments that claimed no formal, over the
/// bindings counted into it.
#[derive(Debug)]
pub struct UnresolvedUnits {
    pub count: usize,
}

impl UnresolvedUnits {
    /// A counter at zero.
    pub fn new() -> (r: UnresolvedUnits)
        ensures
            r.count == 0,
    {
        UnresolvedUnits { count: 0 }
    }
}

/// Sets the unresolved-unit counter back to zero, before a build run.
pub fn reset_r05_counter(counter: &mut UnresolvedUnits)
    ensures
        final(counter).count == 0,
{
    counter.count = 0;
}

// ---------------------------------------------------------------------------
// Binding: the phases
// ---------------------------------------------------------------------------

/// The named arguments as key texts with their references.
pub open spec fn named_view(v: Seq<(String, ArgRef)>) -> Seq<(Seq<char>, ArgRef)> {
    v.map_values(|e: (String, ArgRef)| (e.0@, e.1))
}

/// Whether two texts are equal up to ASCII case.
fn eq_ignore_case(a: &str, b: &str) -> (r: bool)
    ensures
        r == (ascii_lower(a@) == ascii_lower(b@)),
{
    let ca = chars_of(a);
    let cb = chars_of(b);
    let la = lower_chars(ca.as_slice());
    let lb = lower_chars(cb.as_slice());
    chars_eq(la.as_slice(), lb.as_slice())
}

/// Split the arguments into named arguments and slot-taking positional
/// arguments.
fn collect_args(values: &[McParamValue]) -> (r: (Vec<(String, ArgRef)>, Vec<usize>))
    ensures
        named_view(r.0@) == named_args(values@),
        r.1@ == positional_args(values@),
{
    let mut named: Vec<(String, ArgRef)> = Vec::new();
    let mut pos: Vec<usize> = Vec::new();
    let mut i: usize = 0;
    while i < values.len()
        invariant
            0 <= i <= values@.len(),
            named_view(named@) == named_args(values@.take(i as int)),
            pos@ == positional_args(values@.take(i as int)),
        decreases values@.len() - i,
    {
        let ghost pre = values@.take(i as int);
        assert(values@.take(i + 1).drop_last() =~= pre);
        assert(values@.take(i + 1).last() == values@[i as int]);
        match &values[i] {
            McParamValue::InlineAttrs(attrs) => {
                let mut k: usize = 0;
                while k < attrs.len()
                    invariant
                        0 <= k <= attrs@.len(),
                        values@[i as int] == McParamValue::InlineAttrs(*attrs),
                        named_view(named@) == named_args(pre) + named_of(values@[i as int], i as int).take(
                            k as int,
                        ),
                    decreases attrs@.len() - k,
                {
                    let ghost before = named@;
                    named.push((attrs[k].id.to_string(), ArgRef::Named(i, k)));
                    assert(named_of(values@[i as int], i as int).take(k + 1) =~= named_of(
                        values@[i as int],
                        i as int,
                    ).take(k as int).push((ids_text(attrs@[k as int].id@), ArgRef::Named(i, k))));
                    assert(named_view(named@) =~= named_view(before).push(
                        (ids_text(attrs@[k as int].id@), ArgRef::Named(i, k)),
                    ));
                    k += 1;
                }
                assert(named_of(values@[i as int], i as int).take(attrs@.len() as int) =~= named_of(
                    values@[i as int],
                    i as int,
                ));
            },
            McParamValue::NC(_) => {
                assert(named_of(values@[i as int], i as int) =~= Seq::<(Seq<char>, ArgRef)>::empty());
                assert(named_view(named@) =~= named_args(pre) + named_of(values@[i as int], i as int));
            },
            _ => {
                assert(named_of(values@[i as int], i as int) =~= Seq::<(Seq<char>, ArgRef)>::empty());
                assert(named_view(named@) =~= named_args(pre) + named_of(values@[i as int], i as int));
                let ghost before = pos@;
                pos.push(i);
                assert(pos@ =~= before + seq![i]);
            },
        }
        i += 1;
        assert(pos@ =~= positional_args(values@.take(i as int)));
    }
    assert(values@.take(values@.len() as int) =~= values@);
    (named, pos)
}

pub(crate) proof fn lemma_claim_named_shape(decls: Seq<McParamDeclare>, named: Seq<(Seq<char>, ArgRef)>, k: int)
    requires
        0 <= k <= decls.len(),
    ensures
        claim_named(decls, named, k).0.len() == k,
        claim_named(decls, named, k).1.len() == named.len(),
        claim_named(decls, named, k).2 <= k,
    decreases k,
{
    if k > 0 {
        lemma_claim_named_shape(decls, named, k - 1);
        let (s, c, n) = claim_named(decls, named, k - 1);
        match decl_primary(decls[k - 1]) {
            Some(p) => {
                lemma_named_for(named, c, decls[k - 1], p, 0);
            },
            None => {},
        }
    }
}

pub(crate) proof fn lemma_named_for(
    named: Seq<(Seq<char>, ArgRef)>,
    claimed: Seq<bool>,
    d: McParamDeclare,
    p: Seq<char>,
    i: int,
)
    requires
        0 <= i <= named.len(),
    ensures
        i <= named_for(named, claimed, d, p, i) <= named.len(),
        named_for(named, claimed, d, p, i) < named.len() ==> !claimed[named_for(named, claimed, d, p, i)],
    decreases named.len() - i,
{
    if i < named.len() {
        lemma_named_for(named, claimed, d, p, i + 1);
    }
}

/// Round one: each formal with a name takes the first unclaimed named
/// argument that claims it.
fn claim_named_exec(decls: &Vec<McParamDeclare>, named: &Vec<(String, ArgRef)>) -> (r: (
    Vec<Option<ArgRef>>,
    Vec<bool>,
    usize,
))
    ensures
        (r.0@, r.1@, r.2 as nat) == claim_named(decls@, named_view(named@), decls@.len() as int),
{
    let ghost nv = named_view(named@);
    let mut slots: Vec<Option<ArgRef>> = Vec::new();
    let mut claimed: Vec<bool> = Vec::new();
    let mut t: usize = 0;
    while t < named.len()
        invariant
            0 <= t <= named@.len(),
            claimed@ == Seq::new(t as nat, |i: int| false),
        decreases named@.len() - t,
    {
        claimed.push(false);
        assert(claimed@ =~= Seq::new((t + 1) as nat, |i: int| false));
        t += 1;
    }
    let mut count: usize = 0;
    let mut di: usize = 0;
    proof {
        assert(claimed@ =~= Seq::new(nv.len(), |i: int| false));
    }
    while di < decls.len()
        invariant
            0 <= di <= decls@.len(),
            nv == named_view(named@),
            (slots@, claimed@, count as nat) == claim_named(decls@, nv, di as int),
        decreases decls@.len() - di,
    {
        proof {
            lemma_claim_named_shape(decls@, nv, di as int);
        }
        let d = &decls[di];
        match d.get_primary_name() {
            None => {
                slots.push(None);
            },
            Some(p) => {
                let mut j: usize = 0;
                proof {
                    lemma_named_for(nv, claimed@, *d, p@, 0);
                }
                while j < named.len()
                    invariant
                        0 <= j <= named@.len(),
                        nv == named_view(named@),
                        claimed@.len() == named@.len(),
                        named_for(nv, claimed@, *d, p@, 0) == named_for(nv, claimed@, *d, p@, j as int),
                    ensures
                        named_for(nv, claimed@, *d, p@, 0) == j as int,
                    decreases named@.len() - j,
                {
                    let n = &named[j].0;
                    assert(nv[j as int].0 == n@);
                    if !claimed[j] && (eq_ignore_case(n.as_str(), p.as_str()) || d.match_name(
                        n.as_str(),
                    )) {
                        break;
                    }
                    j += 1;
                }
                if j < named.len() {
                    slots.push(Some(named[j].1));
                    claimed.set(j, true);
                    count = count + 1;
                } else {
                    slots.push(None);
                }
            },
        }
        di += 1;
    }
    (slots, claimed, count)
}

pub(crate) proof fn lemma_first_false(c: Seq<bool>, i: int)
    requires
        0 <= i <= c.len(),
    ensures
        i <= first_false(c, i) <= c.len(),
        first_false(c, i) < c.len() ==> !c[first_false(c, i)],
    decreases c.len() - i,
{
    if i < c.len() && c[i] {
        lemma_first_false(c, i + 1);
    }
}

/// The first lowered flag.
fn first_false_exec(c: &Vec<bool>) -> (r: usize)
    ensures
        r as int == first_false(c@, 0),
{
    let mut i: usize = 0;
    while i < c.len()
        invariant
            0 <= i <= c@.len(),
            first_false(c@, 0) == first_false(c@, i as int),
        decreases c@.len() - i,
    {
        if !c[i] {
            return i;
        }
        i += 1;
    }
    i
}

/// The names of the required formals left without a value.
fn required_names_exec(decls: &Vec<McParamDeclare>, slots: &Vec<Option<ArgRef>>) -> (r: Vec<String>)
    requires
        slots@.len() == decls@.len(),
    ensures
        texts(r@) == required_names(decls@, slots@, decls@.len() as int),
{
    let mut out: Vec<String> = Vec::new();
    let mut i: usize = 0;
    while i < decls.len()
        invariant
            0 <= i <= decls@.len(),
            slots@.len() == decls@.len(),
            texts(out@) == required_names(decls@, slots@, i as int),
        decreases decls@.len() - i,
    {
        let d = &decls[i];
        if slots[i].is_none() && !d.has_unit_type() && !d.has_enum_class() && !d.has_default_value() {
            match d.get_primary_name() {
                Some(p) => {
                    let ghost before = out@;
                    out.push(p);
                    assert(texts(out@) =~= texts(before) + seq![p@]);
                },
                None => {
                    assert(texts(out@) =~= texts(out@) + Seq::<Seq<char>>::empty());
                },
            }
        } else {
            assert(texts(out@) =~= texts(out@) + Seq::<Seq<char>>::empty());
        }
        i += 1;
    }
    out
}

/// What a typed argument looks for in a free slot.
pub enum Want<'a> {
    Unit(McUnit),
    EnumClass(&'a str),
    Interface(&'a str),
}

/// The slot kind a want stands for.
pub open spec fn want_model(w: Want) -> SlotWant {
    match w {
        Want::Unit(u) => SlotWant::Unit(u),
        Want::EnumClass(c) => SlotWant::EnumClass(c@),
        Want::Interface(c) => SlotWant::Interface(c@),
    }
}

/// Whether `formal` answers to `written` as an interface class.
fn interface_answers_exec(formal: &str, written: &str) -> (r: bool)
    ensures
        r == interface_answers(formal@, written@),
{
    let f = chars_of(formal);
    let k = find_from_exec(f.as_slice(), 0, '.');
    proof {
        lemma_find_from(f@, 0, '.');
    }
    let head = sub_chars(f.as_slice(), 0, k);
    assert(head@ =~= formal@.take(find_from(formal@, 0, '.')));
    let w = chars_of(written);
    chars_eq(head.as_slice(), w.as_slice()) || str_eq(formal, written)
}

/// Whether a formal offers what a typed argument wants.
fn offers_exec(d: &McParamDeclare, w: &Want) -> (r: bool)
    ensures
        r == offers(*d, want_model(*w)),
{
    match w {
        Want::Unit(u) => match d.get_declared_unit() {
            Some(du) => du == *u,
            None => false,
        },
        Want::EnumClass(c) => match d.get_enum_class() {
            Some(ec) => str_eq(ec, c),
            None => false,
        },
        Want::Interface(c) => match d.interface_annotation() {
            Some((fc, _)) => interface_answers_exec(fc.as_str(), c),
            None => false,
        },
    }
}

pub(crate) proof fn lemma_free_slot(decls: Seq<McParamDeclare>, s: Seq<Option<ArgRef>>, w: SlotWant, i: int)
    requires
        0 <= i <= decls.len(),
    ensures
        i <= free_slot(decls, s, w, i) <= decls.len(),
        free_slot(decls, s, w, i) < decls.len() ==> s[free_slot(decls, s, w, i)] is None,
    decreases decls.len() - i,
{
    if i < decls.len() {
        lemma_free_slot(decls, s, w, i + 1);
    }
}

/// The first free slot whose formal offers `w`.
fn free_slot_exec(decls: &Vec<McParamDeclare>, s: &Vec<Option<ArgRef>>, w: &Want) -> (r: usize)
    requires
        s@.len() == decls@.len(),
    ensures
        r as int == free_slot(decls@, s@, want_model(*w), 0),
        r <= decls@.len(),
{
    let mut i: usize = 0;
    proof {
        lemma_free_slot(decls@, s@, want_model(*w), 0);
    }
    while i < decls.len()
        invariant
            0 <= i <= decls@.len(),
            s@.len() == decls@.len(),
            free_slot(decls@, s@, want_model(*w), 0) == free_slot(decls@, s@, want_model(*w), i as int),
        decreases decls@.len() - i,
    {
        if s[i].is_none() && offers_exec(&decls[i], w) {
            return i;
        }
        i += 1;
    }
    i
}

/// The `Debug` name of a unit.
fn unit_name_exec(u: McUnit) -> (r: &'static str)
    ensures
        r@ == unit_name(u),
{
    match u {
        McUnit::Volt => "Volt",
        McUnit::Wat => "Wat",
        McUnit::Ohm => "Ohm",
        McUnit::Cap => "Cap",
        McUnit::Ind => "Ind",
        McUnit::Amp => "Amp",
        McUnit::Hz => "Hz",
        McUnit::Charge => "Charge",
        McUnit::Percent => "Percent",
        McUnit::Temp => "Temp",
        McUnit::Time => "Time",
        McUnit::Len => "Len",
    }
}

proof fn lemma_claim_units_err(
    decls: Seq<McParamDeclare>,
    vals: Seq<McParamValue>,
    pos: Seq<usize>,
    s0: Seq<Option<ArgRef>>,
    k: int,
    n: int,
)
    requires
        0 <= k <= n,
        claim_units(decls, vals, pos, s0, k) is Err,
    ensures
        claim_units(decls, vals, pos, s0, n) == claim_units(decls, vals, pos, s0, k),
    decreases n - k,
{
    if k < n {
        lemma_claim_units_err(decls, vals, pos, s0, k, n - 1);
    }
}

/// Round two: unit values claim formals declared with their unit.
fn claim_units_exec(
    decls: &Vec<McParamDeclare>,
    values: &[McParamValue],
    pos: &Vec<usize>,
    slots: Vec<Option<ArgRef>>,
) -> (r: Result<(Vec<Option<ArgRef>>, Vec<bool>), ParamBindError>)
    requires
        slots@.len() == decls@.len(),
        forall|k: int| 0 <= k < pos@.len() ==> pos@[k] < values@.len(),
        valid_slots(values@, slots@),
    ensures
        r is Ok ==> valid_slots(values@, r->Ok_0.0@),
        r is Ok ==> claim_units(decls@, values@, pos@, slots@, pos@.len() as int) == Ok::<
            (Seq<Option<ArgRef>>, Seq<bool>),
            BindErrModel,
        >((r->Ok_0.0@, r->Ok_0.1@)) && r->Ok_0.0@.len() == decls@.len() && r->Ok_0.1@.len()
            == pos@.len(),
        r is Err ==> claim_units(decls@, values@, pos@, slots@, pos@.len() as int) == Err::<
            (Seq<Option<ArgRef>>, Seq<bool>),
            BindErrModel,
        >(r->Err_0@),
{
    let ghost s0 = slots@;
    let mut s = slots;
    let mut c: Vec<bool> = Vec::new();
    let mut t: usize = 0;
    while t < pos.len()
        invariant
            0 <= t <= pos@.len(),
            c@ == Seq::new(t as nat, |i: int| false),
        decreases pos@.len() - t,
    {
        c.push(false);
        assert(c@ =~= Seq::new((t + 1) as nat, |i: int| false));
        t += 1;
    }
    let mut k: usize = 0;
    while k < pos.len()
        invariant
            0 <= k <= pos@.len(),
            s@.len() == decls@.len(),
            c@.len() == pos@.len(),
            forall|j: int| 0 <= j < pos@.len() ==> pos@[j] < values@.len(),
            s0 == slots@,
            valid_slots(values@, s@),
            claim_units(decls@, values@, pos@, s0, k as int) == Ok::<
                (Seq<Option<ArgRef>>, Seq<bool>),
                BindErrModel,
            >((s@, c@)),
        decreases pos@.len() - k,
    {
        match &values[pos[k]] {
            McParamValue::UValue(u) => {
                let w = Want::Unit(u.unit);
                let di = free_slot_exec(decls, &s, &w);
                if di < decls.len() {
                    s.set(di, Some(ArgRef::Positional(pos[k])));
                    c.set(k, true);
                } else {
                    let mut expected = owned("a parameter declared with unit ");
                    push_str(&mut expected, unit_name_exec(u.unit));
                    proof {
                        lemma_claim_units_err(decls@, values@, pos@, s0, k + 1, pos@.len() as int);
                    }
                    let e = ParamBindError::TypeMismatch {
                        param_name: copy_string(&u.text),
                        expected,
                        got: owned("no matching unit declaration"),
                    };
                    return Err(e);
                }
            },
            _ => {},
        }
        k += 1;
    }
    Ok((s, c))
}

proof fn lemma_claim_classes_err(
    decls: Seq<McParamDeclare>,
    vals: Seq<McParamValue>,
    enums: Seq<(Seq<char>, Seq<Seq<char>>)>,
    pos: Seq<usize>,
    s0: Seq<Option<ArgRef>>,
    c0: Seq<bool>,
    k: int,
    n: int,
)
    requires
        0 <= k <= n,
        claim_classes(decls, vals, enums, pos, s0, c0, k) is Err,
    ensures
        claim_classes(decls, vals, enums, pos, s0, c0, n) == claim_classes(
            decls,
            vals,
            enums,
            pos,
            s0,
            c0,
            k,
        ),
    decreases n - k,
{
    if k < n {
        lemma_claim_classes_err(decls, vals, enums, pos, s0, c0, k, n - 1);
    }
}

/// Round two and a half: enum members and interface members claim
/// formals of their class.
fn claim_classes_exec(
    decls: &Vec<McParamDeclare>,
    values: &[McParamValue],
    enums: &EnumClasses,
    pos: &Vec<usize>,
    slots: Vec<Option<ArgRef>>,
    claimed: Vec<bool>,
) -> (r: Result<(Vec<Option<ArgRef>>, Vec<bool>), ParamBindError>)
    requires
        slots@.len() == decls@.len(),
        claimed@.len() == pos@.len(),
        forall|k: int| 0 <= k < pos@.len() ==> pos@[k] < values@.len(),
        valid_slots(values@, slots@),
    ensures
        r is Ok ==> valid_slots(values@, r->Ok_0.0@),
        r is Ok ==> claim_classes(
            decls@,
            values@,
            enums@,
            pos@,
            slots@,
            claimed@,
            pos@.len() as int,
        ) == Ok::<(Seq<Option<ArgRef>>, Seq<bool>), BindErrModel>((r->Ok_0.0@, r->Ok_0.1@))
            && r->Ok_0.0@.len() == decls@.len() && r->Ok_0.1@.len() == pos@.len(),
        r is Err ==> claim_classes(
            decls@,
            values@,
            enums@,
            pos@,
            slots@,
            claimed@,
            pos@.len() as int,
        ) == Err::<(Seq<Option<ArgRef>>, Seq<bool>), BindErrModel>(r->Err_0@),
{
    let ghost s0 = slots@;
    let ghost c0 = claimed@;
    let mut s = slots;
    let mut c = claimed;
    let mut k: usize = 0;
    while k < pos.len()
        invariant
            0 <= k <= pos@.len(),
            s@.len() == decls@.len(),
            c@.len() == pos@.len(),
            forall|j: int| 0 <= j < pos@.len() ==> pos@[j] < values@.len(),
            s0 == slots@,
            c0 == claimed@,
            valid_slots(values@, s@),
            claim_classes(decls@, values@, enums@, pos@, s0, c0, k as int) == Ok::<
                (Seq<Option<ArgRef>>, Seq<bool>),
                BindErrModel,
            >((s@, c@)),
        decreases pos@.len() - k,
    {
        let ghost sk = s@;
        let ghost ck = c@;
        if !c[k] {
            let arg = &values[pos[k]];
            let ids_opt: Option<&McIds> = match arg {
                McParamValue::Ids(i) => Some(i),
                McParamValue::Opd(McOpd::Id(i)) => Some(i),
                _ => None,
            };
            match ids_opt {
                Some(ids) => {
                    assert(arg_ids(*arg) == Some(ids@));
                    match ids.dot_chain_parts() {
                        Some(parts) => {
                            assert(texts(parts@) == dot_parts(ids@)->0);
                            if parts.len() > 0 {
                                let last = parts.len() - 1;
                                assert(texts(parts@)[last as int] == parts@[last as int]@);
                                assert(texts(parts@)[0] == parts@[0]@);
                                let ec: Option<String> = if parts.len() > 1 {
                                    if enums.is_enum_class_name(parts[0].as_str()) {
                                        Some(copy_string(&parts[0]))
                                    } else {
                                        None
                                    }
                                } else {
                                    enums.resolve_bare_enum_value(parts[last].as_str())
                                };
                                assert(opt_text(ec) == chain_enum_class(enums@, texts(parts@)));
                                match ec {
                                    Some(ac) => {
                                        let w = Want::EnumClass(ac.as_str());
                                        let di = free_slot_exec(decls, &s, &w);
                                        if di < decls.len() {
                                            s.set(di, Some(ArgRef::Positional(pos[k])));
                                            c.set(k, true);
                                        } else {
                                            let mut expected = owned(
                                                "a parameter declared with enum class ",
                                            );
                                            push_str(&mut expected, ac.as_str());
                                            let e = ParamBindError::TypeMismatch {
                                                param_name: arg.to_string(),
                                                expected,
                                                got: owned("no matching enum-class declaration"),
                                            };
                                            proof {
                                                lemma_claim_classes_err(
                                                    decls@,
                                                    values@,
                                                    enums@,
                                                    pos@,
                                                    s0,
                                                    c0,
                                                    k + 1,
                                                    pos@.len() as int,
                                                );
                                            }
                                            return Err(e);
                                        }
                                    },
                                    None => {
                                        if parts.len() > 1 {
                                            let w = Want::Interface(parts[0].as_str());
                                            let di = free_slot_exec(decls, &s, &w);
                                            if di < decls.len() {
                                                s.set(di, Some(ArgRef::Positional(pos[k])));
                                                c.set(k, true);
                                            }
                                        }
                                    },
                                }
                            }
                        },
                        None => {},
                    }
                },
                None => {},
            }
        }
        assert(class_step(decls@, values@, enums@, pos@, sk, ck, k as int) == Ok::<
            (Seq<Option<ArgRef>>, Seq<bool>),
            BindErrModel,
        >((s@, c@)));
        k += 1;
    }
    Ok((s, c))
}

/// A reference names an argument of the call (an entry of a block for a
/// named one).
pub open spec fn valid_ref(vals: Seq<McParamValue>, r: ArgRef) -> bool {
    match r {
        ArgRef::Positional(i) => i < vals.len(),
        ArgRef::Named(i, k) => i < vals.len() && (match vals[i as int] {
            McParamValue::InlineAttrs(attrs) => k < attrs@.len(),
            _ => false,
        }),
    }
}

/// Every filled slot names an argument of the call.
pub open spec fn valid_slots(vals: Seq<McParamValue>, s: Seq<Option<ArgRef>>) -> bool {
    forall|j: int| 0 <= j < s.len() ==> (match #[trigger] s[j] {
        Some(a) => valid_ref(vals, a),
        None => true,
    })
}

proof fn lemma_named_args_valid(vals: Seq<McParamValue>)
    requires
        vals.len() <= usize::MAX,
    ensures
        forall|j: int|
            0 <= j < named_args(vals).len() ==> valid_ref(vals, (#[trigger] named_args(vals)[j]).1),
    decreases vals.len(),
{
    if vals.len() > 0 {
        let pre = vals.drop_last();
        lemma_named_args_valid(pre);
        let a = named_args(pre);
        let b = named_of(vals.last(), vals.len() - 1);
        assert forall|j: int| 0 <= j < named_args(vals).len() implies valid_ref(
            vals,
            (#[trigger] named_args(vals)[j]).1,
        ) by {
            if j < a.len() {
                assert(named_args(vals)[j] == a[j]);
                assert(valid_ref(pre, a[j].1));
                match a[j].1 {
                    ArgRef::Positional(i) => {},
                    ArgRef::Named(i, k) => {
                        assert(vals[i as int] == pre[i as int]);
                    },
                }
            } else {
                let q = j - a.len();
                assert(named_args(vals)[j] == b[q]);
                assert(vals[vals.len() - 1] == vals.last());
                match vals.last() {
                    McParamValue::InlineAttrs(attrs) => {
                        assert(b[q] == (
                            ids_text(attrs@[q].id@),
                            ArgRef::Named((vals.len() - 1) as usize, q as usize),
                        ));
                        assert(((vals.len() - 1) as usize) as int == vals.len() - 1);
                    },
                    _ => {
                        assert(b.len() == 0);
                    },
                }
            }
        }
    }
}

proof fn lemma_claim_named_valid(
    decls: Seq<McParamDeclare>,
    vals: Seq<McParamValue>,
    named: Seq<(Seq<char>, ArgRef)>,
    k: int,
)
    requires
        0 <= k <= decls.len(),
        forall|j: int| 0 <= j < named.len() ==> valid_ref(vals, (#[trigger] named[j]).1),
    ensures
        valid_slots(vals, claim_named(decls, named, k).0),
    decreases k,
{
    if k > 0 {
        lemma_claim_named_valid(decls, vals, named, k - 1);
        lemma_claim_named_shape(decls, named, k - 1);
        let (s, c, n) = claim_named(decls, named, k - 1);
        match decl_primary(decls[k - 1]) {
            Some(p) => {
                lemma_named_for(named, c, decls[k - 1], p, 0);
            },
            None => {},
        }
        let s2 = claim_named(decls, named, k).0;
        assert forall|j: int| 0 <= j < s2.len() implies (match #[trigger] s2[j] {
            Some(a) => valid_ref(vals, a),
            None => true,
        }) by {
            if j < s.len() {
                assert(s2[j] == s[j]);
            }
        }
    }
}

/// The positional arguments still unclaimed, in order.
fn unclaimed_exec(pos: &Vec<usize>, c: &Vec<bool>) -> (r: Vec<usize>)
    requires
        c@.len() == pos@.len(),
    ensures
        r@ == unclaimed(pos@, c@, pos@.len() as int),
{
    let mut out: Vec<usize> = Vec::new();
    let mut k: usize = 0;
    while k < pos.len()
        invariant
            0 <= k <= pos@.len(),
            c@.len() == pos@.len(),
            out@ == unclaimed(pos@, c@, k as int),
        decreases pos@.len() - k,
    {
        if !c[k] {
            out.push(pos[k]);
        }
        assert(out@ =~= unclaimed(pos@, c@, (k + 1) as int));
        k += 1;
    }
    out
}

/// Round three: the remaining arguments fill the free slots in order; gives
/// the slots and how many arguments were used.
fn fill_exec(slots: Vec<Option<ArgRef>>, rem: &Vec<usize>) -> (r: (Vec<Option<ArgRef>>, usize))
    ensures
        r.1 <= rem@.len(),
        (r.0@, rem@.subrange(r.1 as int, rem@.len() as int)) == fill_slots(slots@, rem@, 0),
        r.0@.len() == slots@.len(),
        forall|j: int|
            0 <= j < slots@.len() ==> (#[trigger] r.0@[j] == slots@[j] || (slots@[j] is None && exists|
                q: int,
            | 0 <= q < rem@.len() && r.0@[j] == Some(ArgRef::Positional(rem@[q])))),
{
    let ghost s0 = slots@;
    let mut s = slots;
    let mut used: usize = 0;
    let mut i: usize = 0;
    assert(rem@.subrange(0, rem@.len() as int) =~= rem@);
    while i < s.len()
        invariant
            0 <= i <= s@.len(),
            used <= rem@.len(),
            s@.len() == s0.len(),
            s0 == slots@,
            fill_slots(s0, rem@, 0) == fill_slots(s@, rem@.subrange(used as int, rem@.len() as int), i as int),
            forall|j: int|
                0 <= j < s0.len() ==> (#[trigger] s@[j] == s0[j] || (s0[j] is None && exists|q: int|
                    0 <= q < rem@.len() && s@[j] == Some(ArgRef::Positional(rem@[q])))),
            forall|j: int| i <= j < s0.len() ==> s@[j] == s0[j],
        decreases s@.len() - i,
    {
        let ghost tail = rem@.subrange(used as int, rem@.len() as int);
        if s[i].is_none() && used < rem.len() {
            assert(tail[0] == rem@[used as int]);
            assert(tail.drop_first() =~= rem@.subrange(used + 1, rem@.len() as int));
            s.set(i, Some(ArgRef::Positional(rem[used])));
            used += 1;
        }
        i += 1;
    }
    (s, used)
}

proof fn lemma_positional_bounds(vals: Seq<McParamValue>)
    requires
        vals.len() <= usize::MAX,
    ensures
        forall|k: int| 0 <= k < positional_args(vals).len() ==> #[trigger] positional_args(vals)[k] < vals.len(),
    decreases vals.len(),
{
    if vals.len() > 0 {
        lemma_positional_bounds(vals.drop_last());
        let a = positional_args(vals.drop_last());
        assert forall|k: int| 0 <= k < positional_args(vals).len() implies #[trigger] positional_args(
            vals,
        )[k] < vals.len() by {
            if k < a.len() {
                assert(positional_args(vals)[k] == a[k]);
            }
        }
    }
}

proof fn lemma_unclaimed_bounds(pos: Seq<usize>, c: Seq<bool>, k: int, bound: int)
    requires
        0 <= k <= pos.len(),
        forall|j: int| 0 <= j < pos.len() ==> pos[j] < bound,
    ensures
        forall|q: int| 0 <= q < unclaimed(pos, c, k).len() ==> #[trigger] unclaimed(pos, c, k)[q] < bound,
    decreases k,
{
    if k > 0 {
        lemma_unclaimed_bounds(pos, c, k - 1, bound);
        let a = unclaimed(pos, c, k - 1);
        assert forall|q: int| 0 <= q < unclaimed(pos, c, k).len() implies #[trigger] unclaimed(
            pos,
            c,
            k,
        )[q] < bound by {
            if q < a.len() {
                assert(unclaimed(pos, c, k)[q] == a[q]);
            }
        }
    }
}

/// The value a reference names; `None` for a block entry without a value.
fn arg_value<'a>(values: &'a [McParamValue], a: ArgRef) -> (r: Option<&'a McParamValue>)
    requires
        valid_ref(values@, a),
    ensures
        match r {
            Some(v) => val_model(*v) == arg_model(values@, a),
            None => arg_model(values@, a) == ValModel::Blank("_"@),
        },
{
    match a {
        ArgRef::Positional(i) => Some(&values[i]),
        ArgRef::Named(i, k) => match &values[i] {
            McParamValue::InlineAttrs(attrs) => if attrs[k].values.len() > 0 {
                Some(&attrs[k].values[0])
            } else {
                None
            },
            _ => None,
        },
    }
}

fn copy_opt_text(o: &Option<String>) -> (r: Option<String>)
    ensures
        opt_text(r) == opt_text(*o),
{
    match o {
        Some(s) => Some(copy_string(s)),
        None => None,
    }
}

/// The value name an enum-class formal is checked with.
fn enum_value_name_exec(d: &McParamDeclare, values: &[McParamValue], slot: Option<ArgRef>) -> (r:
    Option<String>)
    requires
        slot matches Some(a) ==> valid_ref(values@, a),
    ensures
        opt_text(r) == enum_value_name(*d, bound_model(values@, slot)),
{
    match &d.kind {
        McParamDeclareKind::EnumClass(ec) => match slot {
            Some(a) => match arg_value(values, a) {
                Some(McParamValue::Ids(ids)) => ids.get_primary_name(),
                _ => None,
            },
            None => copy_opt_text(&ec.default_val),
        },
        _ => None,
    }
}

/// The first enum-class formal whose value is not a member of its class.
fn enum_error_exec(
    decls: &Vec<McParamDeclare>,
    values: &[McParamValue],
    enums: &EnumClasses,
    s: &Vec<Option<ArgRef>>,
) -> (r: Option<ParamBindError>)
    requires
        s@.len() == decls@.len(),
        valid_slots(values@, s@),
    ensures
        match r {
            Some(e) => enum_error(decls@, values@, enums@, s@, 0) == Some(e@),
            None => enum_error(decls@, values@, enums@, s@, 0) is None,
        },
{
    let mut i: usize = 0;
    while i < decls.len()
        invariant
            0 <= i <= decls@.len(),
            s@.len() == decls@.len(),
            valid_slots(values@, s@),
            enum_error(decls@, values@, enums@, s@, 0) == enum_error(decls@, values@, enums@, s@, i as int),
        decreases decls@.len() - i,
    {
        let d = &decls[i];
        match &d.kind {
            McParamDeclareKind::EnumClass(ec) => {
                let slot = s[i];
                assert(slot matches Some(a) ==> valid_ref(values@, a));
                match enum_value_name_exec(d, values, slot) {
                    Some(vn) => {
                        if !ec.is_valid_value(enums, vn.as_str()) {
                            let mut expected = owned("a valid member of enum ");
                            push_str(&mut expected, ec.class_name.as_str());
                            return Some(
                                ParamBindError::TypeMismatch {
                                    param_name: ec.name.to_string(),
                                    expected,
                                    got: vn,
                                },
                            );
                        }
                    },
                    None => {},
                }
            },
            _ => {},
        }
        i += 1;
    }
    None
}

/// Bind the arguments of a call to the formals: the slot each formal's
/// value comes from, or why the call does not fit.
pub fn bind_slots(declares: &McParamDeclares, values: &[McParamValue], enums: &EnumClasses) -> (r:
    Result<Vec<Option<ArgRef>>, ParamBindError>)
    ensures
        match r {
            Ok(s) => bind_spec(declares.declares@, values@, enums@) == Ok::<
                Seq<Option<ArgRef>>,
                BindErrModel,
            >(s@) && valid_slots(values@, s@) && s@.len() == declares.declares@.len(),
            Err(e) => bind_spec(declares.declares@, values@, enums@) == Err::<
                Seq<Option<ArgRef>>,
                BindErrModel,
            >(e@),
        },
{
    let mut miss = false;
    bind_slots_noting(declares, values, enums, &mut miss)
}

/// [`bind_slots`], noting in `miss` whether the unit round failed.
fn bind_slots_noting(
    declares: &McParamDeclares,
    values: &[McParamValue],
    enums: &EnumClasses,
    miss: &mut bool,
) -> (r: Result<Vec<Option<ArgRef>>, ParamBindError>)
    ensures
        *final(miss) == unit_miss(declares.declares@, values@),
        match r {
            Ok(s) => bind_spec(declares.declares@, values@, enums@) == Ok::<
                Seq<Option<ArgRef>>,
                BindErrModel,
            >(s@) && valid_slots(values@, s@) && s@.len() == declares.declares@.len(),
            Err(e) => bind_spec(declares.declares@, values@, enums@) == Err::<
                Seq<Option<ArgRef>>,
                BindErrModel,
            >(e@),
        },
{
    *miss = false;
    let decls = &declares.declares;
    let ghost dv = decls@;
    let n_values = values.len();
    let (named, pos) = collect_args(values);
    let ghost nv = named_view(named@);
    proof {
        lemma_positional_bounds(values@);
        lemma_named_args_valid(values@);
    }
    let total = decls.len();
    let eff = pos.len();
    if eff > total {
        return Err(ParamBindError::TooManyArguments { expected: total, got: eff });
    }
    let (s1, c1, n1) = claim_named_exec(decls, &named);
    proof {
        lemma_claim_named_shape(dv, nv, dv.len() as int);
        assert forall|j: int| 0 <= j < nv.len() implies valid_ref(values@, (#[trigger] nv[j]).1) by {
            assert(nv[j] == named_args(values@)[j]);
        }
        lemma_claim_named_valid(dv, values@, nv, dv.len() as int);
        lemma_first_false(c1@, 0);
    }
    let u = first_false_exec(&c1);
    if u < named.len() {
        assert(nv[u as int].0 == named@[u as int].0@);
        return Err(ParamBindError::UnknownParameter { name: copy_string(&named[u].0) });
    }
    let req = required_names_exec(decls, &s1);
    if eff < req.len() {
        assert(texts(req@)[eff as int] == req@[eff as int]@);
        return Err(ParamBindError::MissingRequired { name: copy_string(&req[eff]) });
    }
    let (s2, c2) = match claim_units_exec(decls, values, &pos, s1) {
        Ok(x) => x,
        Err(e) => {
            *miss = true;
            return Err(e);
        },
    };
    let (s3, c3) = match claim_classes_exec(decls, values, enums, &pos, s2, c2) {
        Ok(x) => x,
        Err(e) => {
            return Err(e);
        },
    };
    let rem = unclaimed_exec(&pos, &c3);
    proof {
        lemma_unclaimed_bounds(pos@, c3@, pos@.len() as int, values@.len() as int);
    }
    let (s4, used) = fill_exec(s3, &rem);
    if used < rem.len() {
        return Err(ParamBindError::TooManyArguments { expected: total - n1, got: eff });
    }
    assert(rem@.subrange(used as int, rem@.len() as int).len() == 0);
    assert forall|j: int| 0 <= j < s4@.len() implies (match #[trigger] s4@[j] {
        Some(a) => valid_ref(values@, a),
        None => true,
    }) by {
        if s4@[j] != s3@[j] {
            let q = choose|q: int| 0 <= q < rem@.len() && s4@[j] == Some(ArgRef::Positional(rem@[q]));
            assert(rem@[q] < values@.len());
        } else {
            assert(s3@[j] matches Some(a) ==> valid_ref(values@, a));
        }
    }
    match enum_error_exec(decls, values, enums, &s4) {
        Some(e) => Err(e),
        None => Ok(s4),
    }
}

// ---------------------------------------------------------------------------
// Bindings
// ---------------------------------------------------------------------------

/// A formal parameter with the argument bound to it.
#[derive(Debug)]
pub struct McParamBinding {
    pub declare: McParamDeclare,
    pub value: Option<McParamValue>,
    /// No argument was bound: the formal keeps its default or stays open.
    pub is_default: bool,
}

/// The model of an optional argument.
pub open spec fn opt_val_model(o: Option<McParamValue>) -> Option<ValModel> {
    match o {
        Some(v) => Some(val_model(v)),
        None => None,
    }
}

/// A binding holds a copy of `d` and the value `v`.
pub open spec fn binding_is(b: McParamBinding, d: McParamDeclare, v: Option<ValModel>) -> bool {
    &&& decl_model(b.declare) == decl_model(d)
    &&& opt_val_model(b.value) == v
    &&& b.is_default == (v is None)
}

/// The bindings `b` are the formals `decls` with the values the slots `s`
/// name among `vals`.
pub open spec fn bindings_are(
    b: Seq<McParamBinding>,
    decls: Seq<McParamDeclare>,
    vals: Seq<McParamValue>,
    s: Seq<Option<ArgRef>>,
) -> bool {
    &&& b.len() == decls.len()
    &&& s.len() == decls.len()
    &&& forall|i: int| 0 <= i < b.len() ==> binding_is(#[trigger] b[i], decls[i], bound_model(vals, s[i]))
}

impl McParamBinding {
    /// A binding of `declare` to `value`; without a value it is a default.
    pub fn new(declare: McParamDeclare, value: Option<McParamValue>) -> (r: McParamBinding)
        ensures
            r.declare == declare,
            r.value == value,
            r.is_default == (value is None),
    {
        let is_default = value.is_none();
        McParamBinding { declare, value, is_default }
    }

    /// The formal's name and the integer bound to it, when an integer is.
    pub fn as_int_binding(&self) -> (r: Option<(String, i64)>)
        ensures
            match (decl_primary(self.declare), self.value) {
                (Some(p), Some(McParamValue::Int(i))) => r matches Some((n, v)) && n@ == p && v
                    == i.value,
                _ => r is None,
            },
    {
        let name = match self.declare.get_primary_name() {
            Some(n) => n,
            None => {
                return None;
            },
        };
        match &self.value {
            Some(McParamValue::Int(i)) => Some((name, i.value)),
            _ => None,
        }
    }

    /// The bound argument.
    pub fn get_value(&self) -> (r: Option<&McParamValue>)
        ensures
            match self.value {
                Some(v) => r == Some(&v),
                None => r is None,
            },
    {
        self.value.as_ref()
    }

    /// The argument member matching the formal's member `member_name`.
    /// Member-level substitution is not supported: the answer is always
    /// `None`.
    pub fn get_member_value(&self, member_name: &str) -> (r: Option<McParamValue>)
        ensures
            r is None,
    {
        None
    }

    /// The names the formal expands to (`dc24v{VCC24, GND}` gives
    /// `dc24v.VCC24`, `dc24v.GND`).
    pub fn expand_names(&self) -> (r: Vec<String>)
        ensures
            texts(r@) == (match self.declare.kind {
                McParamDeclareKind::Multiple(ms) => expand_all(ids_list(ms@)),
                McParamDeclareKind::UValue(_) => Seq::<Seq<char>>::empty(),
                _ => ids_expand(decl_name(self.declare)->0),
            }),
    {
        self.declare.expand()
    }

    /// A deep copy.
    pub fn copy(&self) -> (r: McParamBinding)
        ensures
            decl_model(r.declare) == decl_model(self.declare),
            opt_val_model(r.value) == opt_val_model(self.value),
            r.is_default == self.is_default,
    {
        McParamBinding {
            declare: self.declare.copy(),
            value: match &self.value {
                Some(v) => Some(v.copy()),
                None => None,
            },
            is_default: self.is_default,
        }
    }
}

/// The bindings of one call, one per formal, in declaration order.
#[derive(Debug)]
pub struct McParamBindings {
    bindings: Vec<McParamBinding>,
}

impl View for McParamBindings {
    type V = Seq<McParamBinding>;

    closed spec fn view(&self) -> Seq<McParamBinding> {
        self.bindings@
    }
}

/// The index of the first binding from `i` on whose formal answers to `name`.
pub open spec fn first_binding(b: Seq<McParamBinding>, name: Seq<char>, i: int) -> int
    decreases b.len() - i,
{
    if i < 0 || i >= b.len() {
        b.len() as int
    } else if decl_matches(b[i].declare, name) {
        i
    } else {
        first_binding(b, name, i + 1)
    }
}

/// The condition-evaluator reading of bindings: each named formal with the
/// text of its value (empty when none is bound).
pub open spec fn eval_params(b: Seq<McParamBinding>) -> Seq<(Seq<IdsSegModel>, Seq<char>)>
    decreases b.len(),
{
    if b.len() == 0 {
        Seq::<(Seq<IdsSegModel>, Seq<char>)>::empty()
    } else {
        eval_params(b.drop_last()) + match decl_primary(b.last().declare) {
            Some(p) => seq![
                (
                    seq![IdsSegModel::Ida(parse_ida(p))],
                    match b.last().value {
                        Some(v) => val_text(val_model(v)),
                        None => Seq::<char>::empty(),
                    },
                ),
            ],
            None => Seq::<(Seq<IdsSegModel>, Seq<char>)>::empty(),
        }
    }
}

impl McParamBindings {
    /// No binding.
    pub fn new() -> (r: McParamBindings)
        ensures
            r@.len() == 0,
    {
        McParamBindings { bindings: Vec::new() }
    }

    /// Bind the arguments of a call to the formals `declares`.
    ///
    /// Named arguments (`{ cap = 1uF }`) take the formal of their name,
    /// ignoring ASCII case; a unit value takes the first free formal of its
    /// unit; an enum member (`X7R`, `CAP.X7R`) takes the first free formal
    /// of its enum class; a dotted interface member (`DC.IVCC5`) takes the
    /// first free formal of that interface class; the rest fill the free
    /// formals in written order. `NC` takes no slot. Extra arguments, an
    /// unknown name, a missing required formal, a typed argument without a
    /// formal of its type and an enum value outside its class are errors.
    pub fn bind(declares: &McParamDeclares, values: &[McParamValue], enums: &EnumClasses) -> (r:
        Result<McParamBindings, ParamBindError>)
        ensures
            match r {
                Ok(b) => bind_spec(declares.declares@, values@, enums@) matches Ok(s) && bindings_are(
                    b@,
                    declares.declares@,
                    values@,
                    s,
                ),
                Err(e) => bind_spec(declares.declares@, values@, enums@) == Err::<
                    Seq<Option<ArgRef>>,
                    BindErrModel,
                >(e@),
            },
    {
        let mut miss = false;
        Self::bind_noting(declares, values, enums, &mut miss)
    }

    /// [`Self::bind`], counting into `counter` a unit-typed argument that
    /// claims no formal.
    pub fn bind_counted(
        declares: &McParamDeclares,
        values: &[McParamValue],
        enums: &EnumClasses,
        counter: &mut UnresolvedUnits,
    ) -> (r: Result<McParamBindings, ParamBindError>)
        ensures
            match r {
                Ok(b) => bind_spec(declares.declares@, values@, enums@) matches Ok(s) && bindings_are(
                    b@,
                    declares.declares@,
                    values@,
                    s,
                ),
                Err(e) => bind_spec(declares.declares@, values@, enums@) == Err::<
                    Seq<Option<ArgRef>>,
                    BindErrModel,
                >(e@),
            },
            final(counter).count == (if unit_miss(declares.declares@, values@) {
                if old(counter).count == usize::MAX {
                    0
                } else {
                    (old(counter).count + 1) as usize
                }
            } else {
                old(counter).count
            }),
    {
        let mut miss = false;
        let r = Self::bind_noting(declares, values, enums, &mut miss);
        if miss {
            counter.count = counter.count.wrapping_add(1);
        }
        r
    }

    fn bind_noting(
        declares: &McParamDeclares,
        values: &[McParamValue],
        enums: &EnumClasses,
        miss: &mut bool,
    ) -> (r: Result<McParamBindings, ParamBindError>)
        ensures
            *final(miss) == unit_miss(declares.declares@, values@),
            match r {
                Ok(b) => bind_spec(declares.declares@, values@, enums@) matches Ok(s) && bindings_are(
                    b@,
                    declares.declares@,
                    values@,
                    s,
                ),
                Err(e) => bind_spec(declares.declares@, values@, enums@) == Err::<
                    Seq<Option<ArgRef>>,
                    BindErrModel,
                >(e@),
            },
    {
        let slots = match bind_slots_noting(declares, values, enums, miss) {
            Ok(s) => s,
            Err(e) => {
                return Err(e);
            },
        };
        let decls = &declares.declares;
        let mut out: Vec<McParamBinding> = Vec::new();
        let mut i: usize = 0;
        while i < decls.len()
            invariant
                0 <= i <= decls@.len(),
                slots@.len() == decls@.len(),
                valid_slots(values@, slots@),
                out@.len() == i,
                forall|j: int|
                    0 <= j < i ==> binding_is(#[trigger] out@[j], decls@[j], bound_model(values@, slots@[j])),
            decreases decls@.len() - i,
        {
            let slot = slots[i];
            assert(slot matches Some(a) ==> valid_ref(values@, a));
            let value = match slot {
                Some(a) => match arg_value(values, a) {
                    Some(v) => Some(v.copy()),
                    None => Some(McParamValue::NONE(owned("_"))),
                },
                None => None,
            };
            let b = McParamBinding::new(decls[i].copy(), value);
            out.push(b);
            i += 1;
        }
        Ok(McParamBindings { bindings: out })
    }

    /// Binding for a component construction: the same rules as [`Self::bind`].
    pub fn bind_quiet(declares: &McParamDeclares, values: &[McParamValue], enums: &EnumClasses) -> (r:
        Result<McParamBindings, ParamBindError>)
        ensures
            match r {
                Ok(b) => bind_spec(declares.declares@, values@, enums@) matches Ok(s) && bindings_are(
                    b@,
                    declares.declares@,
                    values@,
                    s,
                ),
                Err(e) => bind_spec(declares.declares@, values@, enums@) == Err::<
                    Seq<Option<ArgRef>>,
                    BindErrModel,
                >(e@),
            },
    {
        Self::bind(declares, values, enums)
    }

    /// The first binding whose formal answers to `name`.
    pub fn find(&self, name: &str) -> (r: Option<&McParamBinding>)
        ensures
            match r {
                Some(b) => first_binding(self@, name@, 0) < self@.len() && *b == self@[first_binding(
                    self@,
                    name@,
                    0,
                )],
                None => first_binding(self@, name@, 0) == self@.len(),
            },
    {
        let mut i: usize = 0;
        while i < self.bindings.len()
            invariant
                0 <= i <= self@.len(),
                first_binding(self@, name@, 0) == first_binding(self@, name@, i as int),
            decreases self@.len() - i,
        {
            if self.bindings[i].declare.match_name(name) {
                return Some(&self.bindings[i]);
            }
            i += 1;
        }
        None
    }

    /// Each named formal with the text of its value, for the condition
    /// evaluator.
    pub fn to_params_for_eval(&self) -> (r: Vec<(McIds, String)>)
        ensures
            r@.map_values(|p: (McIds, String)| (p.0@, p.1@)) == eval_params(self@),
    {
        let mut out: Vec<(McIds, String)> = Vec::new();
        let mut i: usize = 0;
        while i < self.bindings.len()
            invariant
                0 <= i <= self@.len(),
                out@.map_values(|p: (McIds, String)| (p.0@, p.1@)) == eval_params(self@.take(i as int)),
            decreases self@.len() - i,
        {
            let b = &self.bindings[i];
            assert(self@.take(i + 1).drop_last() =~= self@.take(i as int));
            assert(self@.take(i + 1).last() == *b);
            let ghost before = out@;
            match b.declare.get_primary_name() {
                Some(name) => {
                    let text = match &b.value {
                        Some(v) => v.to_string(),
                        None => String::new(),
                    };
                    let ids = McIds::from(name.as_str());
                    let ghost entry = (ids@, text@);
                    out.push((ids, text));
                    assert(out@.map_values(|p: (McIds, String)| (p.0@, p.1@)) =~= before.map_values(
                        |p: (McIds, String)| (p.0@, p.1@),
                    ).push(entry));
                },
                None => {},
            }
            i += 1;
        }
        assert(self@.take(self@.len() as int) =~= self@);
        out
    }

    /// The bindings in order.
    pub fn iter(&self) -> (r: &[McParamBinding])
        ensures
            r@ == self@,
    {
        self.bindings.as_slice()
    }

    /// The number of bindings.
    pub fn len(&self) -> (r: usize)
        ensures
            r == self@.len(),
    {
        self.bindings.len()
    }

    /// Whether there is no binding.
    pub fn is_empty(&self) -> (r: bool)
        ensures
            r == (self@.len() == 0),
    {
        self.bindings.len() == 0
    }

    /// The binding at `index`.
    pub fn find_by_index(&self, index: usize) -> (r: Option<&McParamBinding>)
        ensures
            match r {
                Some(b) => index < self@.len() && *b == self@[index as int],
                None => index >= self@.len(),
            },
    {
        if index < self.bindings.len() {
            Some(&self.bindings[index])
        } else {
            None
        }
    }

    /// The argument member matching a formal's member name; always `None`,
    /// as [`McParamBinding::get_member_value`] is.
    pub fn find_member_value(&self, member_name: &str) -> (r: Option<McParamValue>)
        ensures
            r is None,
    {
        let mut i: usize = 0;
        while i < self.bindings.len()
            invariant
                0 <= i <= self@.len(),
            decreases self@.len() - i,
        {
            match self.bindings[i].get_member_value(member_name) {
                Some(v) => {
                    return Some(v);
                },
                None => {},
            }
            i += 1;
        }
        None
    }

    /// The bindings without those whose formal's name is among `exclude`
    /// (a formal without a name is kept).
    pub(crate) fn subset_excluding(&self, exclude: &[String]) -> (r: McParamBindings)
        ensures
            r@.len() == kept_indices(self@, texts(exclude@), self@.len() as int).len(),
            forall|i: int|
                0 <= i < r@.len() ==> same_binding(
                    #[trigger] r@[i],
                    self@[kept_indices(self@, texts(exclude@), self@.len() as int)[i]],
                ),
    {
        let ghost ex = texts(exclude@);
        let mut out: Vec<McParamBinding> = Vec::new();
        let mut i: usize = 0;
        while i < self.bindings.len()
            invariant
                0 <= i <= self@.len(),
                ex == texts(exclude@),
                out@.len() == kept_indices(self@, ex, i as int).len(),
                forall|j: int|
                    0 <= j < out@.len() ==> same_binding(
                        #[trigger] out@[j],
                        self@[kept_indices(self@, ex, i as int)[j]],
                    ),
            decreases self@.len() - i,
        {
            let b = &self.bindings[i];
            let keep = match b.declare.get_primary_name() {
                Some(n) => !contains_string(exclude, n.as_str()),
                None => true,
            };
            let ghost ks = kept_indices(self@, ex, i as int);
            if keep {
                out.push(b.copy());
                assert(kept_indices(self@, ex, i + 1) =~= ks.push(i as int));
            } else {
                assert(kept_indices(self@, ex, i + 1) =~= ks);
            }
            i += 1;
        }
        McParamBindings { bindings: out }
    }
}

/// Whether the binding's formal is named by one of `ex`.
pub open spec fn excluded(b: McParamBinding, ex: Seq<Seq<char>>) -> bool {
    match decl_primary(b.declare) {
        Some(p) => ex.contains(p),
        None => false,
    }
}

/// The indices of the first `k` bindings that are not excluded.
pub open spec fn kept_indices(b: Seq<McParamBinding>, ex: Seq<Seq<char>>, k: int) -> Seq<int>
    decreases k,
{
    if k <= 0 {
        Seq::<int>::empty()
    } else {
        kept_indices(b, ex, k - 1) + (if excluded(b[k - 1], ex) {
            Seq::<int>::empty()
        } else {
            seq![k - 1]
        })
    }
}

/// Two bindings hold the same formal and value.
pub open spec fn same_binding(a: McParamBinding, b: McParamBinding) -> bool {
    &&& decl_model(a.declare) == decl_model(b.declare)
    &&& opt_val_model(a.value) == opt_val_model(b.value)
    &&& a.is_default == b.is_default
}

fn contains_string(v: &[String], s: &str) -> (r: bool)
    ensures
        r == texts(v@).contains(s@),
{
    let mut i: usize = 0;
    while i < v.len()
        invariant
            0 <= i <= v@.len(),
            forall|j: int| 0 <= j < i ==> v@[j]@ != s@,
        decreases v@.len() - i,
    {
        if str_eq(v[i].as_str(), s) {
            assert(texts(v@)[i as int] == s@);
            return true;
        }
        i += 1;
    }
    assert forall|j: int| 0 <= j < texts(v@).len() implies texts(v@)[j] != s@ by {
        assert(texts(v@)[j] == v@[j]@);
    }
    false
}

} // verus!
