//! Formal parameter declarations of a definition and the source spans that
//! navigation reads: definition spans (kept for every parameter) and port
//! spans (kept, after type inference, for ports only).
use vstd::prelude::*;
use std::ops::Range;
use crate::attr_keys::McUnit;
use crate::enum_classes::{is_member, EnumClasses};
use crate::mc_ida::{lemma_texts_push, texts};
use crate::mc_conds::{guess_family, guessed_family, CondFamily, CondParam};
use crate::mc_ids::{ids_expand, ids_text, name_forms, IdsSegModel, McIds};
use crate::mc_param_type::{
    kind_default, kind_is_port, McParamType, McParamTypeKind, ParamDirection, TypeKindModel,
};
use crate::strs::{copy_string, copy_strings, extend_strings, join_sep, join_sep_exec};
use crate::text::{chars_of, owned, push_char, push_str, str_eq, string_of, sub_chars};

verus! {

/// A unit-value parameter declaration (`volt::UV.VOLT = 5V`).
#[derive(Debug)]
pub struct McUnitValueDeclare {
    pub name: McIds,
    pub default: Option<String>,
}

/// Enum-class parameter declaration: `diel::CAP` or `diel::CAP = X7R`.
#[derive(Debug)]
pub struct McEnumClassDeclare {
    /// Parameter name (`diel`).
    pub name: McIds,
    /// Enum class name (`CAP`).
    pub class_name: String,
    /// Default value text (`X7R`).
    pub default_val: Option<String>,
}

impl McEnumClassDeclare {
    /// Whether `value_name` is a member of this declaration's enum class.
    pub fn is_valid_value(&self, enums: &EnumClasses, value_name: &str) -> (r: bool)
        ensures
            r == is_member(enums@, self.class_name@, value_name@),
    {
        enums.is_enum_member(self.class_name.as_str(), value_name)
    }
}

/// The structural form of a parameter declaration (shape, not type).
#[derive(Debug)]
pub enum McParamDeclareKind {
    Role { name: McIds, default_role: Option<McIds> },
    Single(McIds),
    Multiple(Vec<McIds>),
    UValue(McUnitValueDeclare),
    EnumClass(McEnumClassDeclare),
}

/// One formal parameter declaration.
#[derive(Debug)]
pub struct McParamDeclare {
    pub kind: McParamDeclareKind,
    /// Semantic type class; decides whether the parameter is a port.
    pub param_type: McParamType,
    /// The written default value, as text; `None` for a required formal.
    pub default_val: Option<String>,
    /// Whether the written default was a quoted string literal.
    pub default_quoted: bool,
}

/// Model of a declaration's form: its names as identifier models.
pub enum DeclKindModel {
    Role(Seq<IdsSegModel>, Option<Seq<IdsSegModel>>),
    Single(Seq<IdsSegModel>),
    Multiple(Seq<Seq<IdsSegModel>>),
    UValue(Seq<IdsSegModel>, Option<Seq<char>>),
    EnumClass(Seq<IdsSegModel>, Seq<char>, Option<Seq<char>>),
}

/// The text of an optional string.
pub open spec fn opt_text(o: Option<String>) -> Option<Seq<char>> {
    match o {
        Some(s) => Some(s@),
        None => None,
    }
}

/// Model of a declaration form.
pub open spec fn decl_kind_model(k: McParamDeclareKind) -> DeclKindModel {
    match k {
        McParamDeclareKind::Role { name, default_role } => DeclKindModel::Role(
            name@,
            match default_role {
                Some(r) => Some(r@),
                None => None,
            },
        ),
        McParamDeclareKind::Single(ids) => DeclKindModel::Single(ids@),
        McParamDeclareKind::Multiple(ms) => DeclKindModel::Multiple(ids_list(ms@)),
        McParamDeclareKind::UValue(u) => DeclKindModel::UValue(u.name@, opt_text(u.default)),
        McParamDeclareKind::EnumClass(ec) => DeclKindModel::EnumClass(
            ec.name@,
            ec.class_name@,
            opt_text(ec.default_val),
        ),
    }
}

/// Model of a declaration: form, type class, direction, default text and
/// whether the default was quoted.
pub open spec fn decl_model(d: McParamDeclare) -> (
    DeclKindModel,
    TypeKindModel,
    Option<ParamDirection>,
    Option<Seq<char>>,
    bool,
) {
    (
        decl_kind_model(d.kind),
        d.param_type.kind@,
        d.param_type.direction,
        opt_text(d.default_val),
        d.default_quoted,
    )
}

fn copy_opt_string(o: &Option<String>) -> (r: Option<String>)
    ensures
        opt_text(r) == opt_text(*o),
{
    match o {
        Some(s) => Some(copy_string(s)),
        None => None,
    }
}

fn copy_ids_vec(v: &Vec<McIds>) -> (r: Vec<McIds>)
    ensures
        ids_list(r@) == ids_list(v@),
{
    let mut out: Vec<McIds> = Vec::new();
    let mut i: usize = 0;
    while i < v.len()
        invariant
            0 <= i <= v@.len(),
            ids_list(out@) == ids_list(v@.take(i as int)),
        decreases v@.len() - i,
    {
        let ghost before = out@;
        out.push(v[i].copy());
        assert(ids_list(out@) =~= ids_list(before).push(v@[i as int]@));
        assert(v@.take(i + 1) =~= v@.take(i as int).push(v@[i as int]));
        assert(ids_list(v@.take(i + 1)) =~= ids_list(v@.take(i as int)).push(v@[i as int]@));
        i += 1;
    }
    assert(v@.take(v@.len() as int) =~= v@);
    out
}

impl McParamDeclare {
    /// A deep copy.
    pub fn copy(&self) -> (r: McParamDeclare)
        ensures
            decl_model(r) == decl_model(*self),
    {
        let kind = match &self.kind {
            McParamDeclareKind::Role { name, default_role } => McParamDeclareKind::Role {
                name: name.copy(),
                default_role: match default_role {
                    Some(r) => Some(r.copy()),
                    None => None,
                },
            },
            McParamDeclareKind::Single(ids) => McParamDeclareKind::Single(ids.copy()),
            McParamDeclareKind::Multiple(ms) => McParamDeclareKind::Multiple(copy_ids_vec(ms)),
            McParamDeclareKind::UValue(u) => McParamDeclareKind::UValue(
                McUnitValueDeclare { name: u.name.copy(), default: copy_opt_string(&u.default) },
            ),
            McParamDeclareKind::EnumClass(ec) => McParamDeclareKind::EnumClass(
                McEnumClassDeclare {
                    name: ec.name.copy(),
                    class_name: copy_string(&ec.class_name),
                    default_val: copy_opt_string(&ec.default_val),
                },
            ),
        };
        McParamDeclare {
            kind,
            param_type: self.param_type.copy(),
            default_val: copy_opt_string(&self.default_val),
            default_quoted: self.default_quoted,
        }
    }
}

/// A default written in a declaration's source, with whether it was a
/// quoted string literal.
#[derive(Debug)]
pub struct WrittenDefault {
    pub text: String,
    pub quoted: bool,
}

/// The name and default a declaration's form or type carries: a single
/// name with the type's default, a unit-value or enum-class declaration
/// with its own default, a role with its default role.
pub open spec fn carried_default(d: McParamDeclare) -> Option<(Seq<IdsSegModel>, Seq<char>)> {
    match d.kind {
        McParamDeclareKind::Single(ids) => match (primary_name(ids@), kind_default(d.param_type.kind)) {
            (Some(p), Some(dv)) => Some((seq![IdsSegModel::Ida(crate::mc_ida::parse_ida(p))], dv)),
            _ => None,
        },
        McParamDeclareKind::UValue(u) => match u.default {
            Some(x) => Some((u.name@, x@)),
            None => None,
        },
        McParamDeclareKind::EnumClass(ec) => match ec.default_val {
            Some(x) => Some((ec.name@, x@)),
            None => None,
        },
        McParamDeclareKind::Role { name, default_role } => match default_role {
            Some(r) => Some((name@, ids_text(r@))),
            None => None,
        },
        McParamDeclareKind::Multiple(_) => None,
    }
}

/// The family of a declaration's default as the condition evaluator reads
/// it: quoted for a quoted string literal, else guessed from the text.
pub open spec fn default_family(d: McParamDeclare, text: Seq<char>, reads_as_unit: bool) -> CondFamily {
    if d.default_quoted {
        CondFamily::Quoted
    } else {
        guessed_family(text, reads_as_unit)
    }
}

impl McParamDeclare {
    /// The name and default as a condition parameter; `reads_as_unit` is
    /// the value engine's answer on whether the default text is a unit
    /// value.
    pub fn get_cond_default(&self, reads_as_unit: bool) -> (r: Option<CondParam>)
        ensures
            r is None <==> name_default(*self) is None,
            r matches Some(p) ==> name_default(*self) == Some((p.name@, p.text@))
                && p.family == default_family(*self, p.text@, reads_as_unit),
    {
        let (name, text) = match self.get_name_with_default() {
            Some(x) => x,
            None => return None,
        };
        let family = if self.default_quoted {
            CondFamily::Quoted
        } else {
            guess_family(text.as_str(), reads_as_unit)
        };
        Some(CondParam { name, text, family })
    }
}

impl McParamDeclare {
    /// The name and default the declaration's form or type carries.
    pub fn name_and_default(&self) -> (r: Option<(McIds, String)>)
        ensures
            match r {
                Some((n, dv)) => carried_default(*self) == Some((n@, dv@)),
                None => carried_default(*self) is None,
            },
    {
        match &self.kind {
            McParamDeclareKind::Single(ids) => {
                let name = match ids.get_primary_name() {
                    Some(n) => n,
                    None => {
                        return None;
                    },
                };
                match self.param_type.default_value() {
                    Some(dv) => Some((McIds::from(name.as_str()), copy_string(dv))),
                    None => None,
                }
            },
            McParamDeclareKind::UValue(u) => match &u.default {
                Some(x) => Some((u.name.copy(), copy_string(x))),
                None => None,
            },
            McParamDeclareKind::EnumClass(ec) => match &ec.default_val {
                Some(x) => Some((ec.name.copy(), copy_string(x))),
                None => None,
            },
            McParamDeclareKind::Role { name, default_role } => match default_role {
                Some(r) => Some((name.copy(), r.to_string())),
                None => None,
            },
            McParamDeclareKind::Multiple(_) => None,
        }
    }

    /// Assemble a declaration: the default its form or type carries wins;
    /// otherwise the default written in the source, with its quoting.
    pub fn recorded(kind: McParamDeclareKind, param_type: McParamType, written: Option<
        WrittenDefault,
    >) -> (r: McParamDeclare)
        ensures
            r.kind == kind,
            r.param_type == param_type,
            ({
                let base = McParamDeclare { kind, param_type, default_val: None, default_quoted: false };
                match carried_default(base) {
                    Some((_, dv)) => opt_text(r.default_val) == Some(dv) && !r.default_quoted,
                    None => match written {
                        Some(w) => opt_text(r.default_val) == Some(w.text@) && r.default_quoted == w.quoted,
                        None => r.default_val is None && !r.default_quoted,
                    },
                }
            }),
    {
        let mut decl = McParamDeclare { kind, param_type, default_val: None, default_quoted: false };
        match decl.name_and_default() {
            Some((_, dv)) => {
                decl.default_val = Some(dv);
            },
            None => {
                match written {
                    Some(w) => {
                        decl.default_quoted = w.quoted;
                        decl.default_val = Some(w.text);
                    },
                    None => {},
                }
            },
        }
        decl
    }
}

/// Kind of a diagnostic about a whole parameter list.
#[derive(Debug, Clone, PartialEq, Eq, Structural)]
pub enum GlobalDiagKind {
    /// Declared but never referenced.
    Unused,
    /// Untyped and could not be inferred.
    Untyped,
}

/// A diagnostic about a parameter of a definition.
#[derive(Debug, Clone)]
pub struct GlobalDiag {
    pub kind: GlobalDiagKind,
    pub param_name: String,
    pub definition: String,
    pub message: String,
    /// Byte offset in the source file.
    pub pos: usize,
    /// Byte length of the span.
    pub len: usize,
}

/// The primary name of an identifier: its text, unless it has no segment.
pub open spec fn primary_name(v: Seq<IdsSegModel>) -> Option<Seq<char>> {
    if v.len() == 0 {
        None
    } else {
        Some(ids_text(v))
    }
}

/// The identifier a declaration is named by, for every kind but a vector.
pub open spec fn decl_name(d: McParamDeclare) -> Option<Seq<IdsSegModel>> {
    match d.kind {
        McParamDeclareKind::Role { name, default_role: _ } => Some(name@),
        McParamDeclareKind::Single(ids) => Some(ids@),
        McParamDeclareKind::Multiple(_) => None,
        McParamDeclareKind::UValue(u) => Some(u.name@),
        McParamDeclareKind::EnumClass(ec) => Some(ec.name@),
    }
}

/// The primary name of a declaration; a vector formal has none.
pub open spec fn decl_primary(d: McParamDeclare) -> Option<Seq<char>> {
    match decl_name(d) {
        Some(v) => primary_name(v),
        None => None,
    }
}

/// The models of a list of identifiers.
pub open spec fn ids_list(v: Seq<McIds>) -> Seq<Seq<IdsSegModel>> {
    v.map_values(|i: McIds| i@)
}

/// Whether a declaration answers to `target`: one of its name's expanded
/// names; for a vector formal, one of any member's; never for a unit value.
pub open spec fn decl_matches(d: McParamDeclare, target: Seq<char>) -> bool {
    match d.kind {
        McParamDeclareKind::Multiple(ms) => exists|i: int|
            0 <= i < ms@.len() && ids_expand(#[trigger] ms@[i]@).contains(target),
        McParamDeclareKind::UValue(_) => false,
        _ => match decl_name(d) {
            Some(v) => ids_expand(v).contains(target),
            None => false,
        },
    }
}

/// Concatenation of the expansions of a list of identifiers.
pub open spec fn expand_all(v: Seq<Seq<IdsSegModel>>) -> Seq<Seq<char>>
    decreases v.len(),
{
    if v.len() == 0 {
        seq![]
    } else {
        expand_all(v.drop_last()) + ids_expand(v.last())
    }
}

/// Concatenation of the name forms of a list of identifiers.
pub open spec fn forms_all(v: Seq<Seq<IdsSegModel>>) -> Seq<Seq<char>>
    decreases v.len(),
{
    if v.len() == 0 {
        seq![]
    } else {
        forms_all(v.drop_last()) + name_forms(v.last())
    }
}

/// The texts of a list of identifiers.
pub open spec fn texts_all(v: Seq<Seq<IdsSegModel>>) -> Seq<Seq<char>> {
    v.map_values(|i: Seq<IdsSegModel>| ids_text(i))
}

/// `[a, b]`: texts joined with `, ` in square brackets.
pub open spec fn bracket_list(t: Seq<Seq<char>>) -> Seq<char> {
    seq!['['] + join_sep(t, ", "@) + seq![']']
}

fn ids_texts(v: &Vec<McIds>) -> (r: Vec<String>)
    ensures
        texts(r@) == texts_all(ids_list(v@)),
{
    let mut out: Vec<String> = Vec::new();
    let mut i: usize = 0;
    while i < v.len()
        invariant
            0 <= i <= v@.len(),
            texts(out@) == texts_all(ids_list(v@)).take(i as int),
        decreases v@.len() - i,
    {
        let t = v[i].to_string();
        proof {
            lemma_texts_push(out@, t);
        }
        out.push(t);
        assert(texts(out@) =~= texts_all(ids_list(v@)).take(i + 1));
        i += 1;
    }
    assert(texts_all(ids_list(v@)).take(v@.len() as int) =~= texts_all(ids_list(v@)));
    out
}

fn bracket_list_exec(t: &Vec<String>) -> (r: String)
    ensures
        r@ == bracket_list(texts(t@)),
{
    let mut s = owned("[");
    let j = join_sep_exec(t.as_slice(), ", ");
    push_str(&mut s, j.as_str());
    push_char(&mut s, ']');
    proof {
        reveal_strlit("[");
    }
    assert(s@ =~= bracket_list(texts(t@)));
    s
}

impl McParamDeclare {
    /// Whether the declaration answers to `target`.
    pub fn match_name(&self, target: &str) -> (r: bool)
        ensures
            r == decl_matches(*self, target@),
    {
        match &self.kind {
            McParamDeclareKind::Role { name, .. } => name.match_name(target),
            McParamDeclareKind::Single(ids) => ids.match_name(target),
            McParamDeclareKind::Multiple(members) => {
                let mut i: usize = 0;
                while i < members.len()
                    invariant
                        0 <= i <= members@.len(),
                        self.kind == McParamDeclareKind::Multiple(*members),
                        forall|j: int| 0 <= j < i ==> !ids_expand(#[trigger] members@[j]@).contains(target@),
                    decreases members@.len() - i,
                {
                    if members[i].match_name(target) {
                        assert(ids_expand(members@[i as int]@).contains(target@));
                        assert(self.kind == McParamDeclareKind::Multiple(*members));
                        assert(ids_expand((self.kind->Multiple_0)@[i as int]@).contains(target@));
                        assert(decl_matches(*self, target@));
                        return true;
                    }
                    i += 1;
                }
                false
            },
            McParamDeclareKind::UValue(_) => false,
            McParamDeclareKind::EnumClass(ec) => ec.name.match_name(target),
        }
    }

    /// The primary name; a vector formal has none.
    pub fn get_primary_name(&self) -> (r: Option<String>)
        ensures
            match r {
                Some(s) => decl_primary(*self) == Some(s@),
                None => decl_primary(*self) is None,
            },
    {
        match &self.kind {
            McParamDeclareKind::Role { name, .. } => name.get_primary_name(),
            McParamDeclareKind::Single(ids) => ids.get_primary_name(),
            McParamDeclareKind::Multiple(_) => None,
            McParamDeclareKind::UValue(uval) => uval.name.get_primary_name(),
            McParamDeclareKind::EnumClass(ec) => ec.name.get_primary_name(),
        }
    }

    /// Display name, compound forms included: a vector formal reads
    /// `[VDD1, GND1]`, anything else its primary name (empty when none).
    pub fn display_name(&self) -> (r: String)
        ensures
            r@ == (match self.kind {
                McParamDeclareKind::Multiple(ms) => bracket_list(texts_all(ids_list(ms@))),
                _ => match decl_primary(*self) {
                    Some(s) => s,
                    None => Seq::<char>::empty(),
                },
            }),
    {
        match &self.kind {
            McParamDeclareKind::Multiple(members) => {
                let names = ids_texts(members);
                bracket_list_exec(&names)
            },
            _ => match self.get_primary_name() {
                Some(s) => s,
                None => String::new(),
            },
        }
    }

    /// The interface class binding of an interface-typed parameter:
    /// `[VDD, GND]::DC(3.3V)` gives (`DC`, `3.3V`).
    pub fn interface_annotation(&self) -> (r: Option<(String, Vec<String>)>)
        ensures
            match self.param_type.kind {
                McParamTypeKind::Interface { class_name, params } => r matches Some((c, p)) && c@
                    == class_name@ && texts(p@) == texts(params@),
                McParamTypeKind::InterfaceWithRole { class_name, role_val } => r matches Some((c, p))
                    && c@ == class_name@ && texts(p@) == seq![role_val@],
                _ => r is None,
            },
    {
        match &self.param_type.kind {
            McParamTypeKind::Interface { class_name, params } => Some(
                (copy_string(class_name), copy_strings(params.as_slice())),
            ),
            McParamTypeKind::InterfaceWithRole { class_name, role_val } => {
                let mut p: Vec<String> = Vec::new();
                let r = copy_string(role_val);
                p.push(r);
                assert(texts(p@) =~= seq![role_val@]);
                Some((copy_string(class_name), p))
            },
            _ => None,
        }
    }

    /// Whether the parameter's type is known (annotated or inferred).
    pub fn has_type_constraint(&self) -> (r: bool)
        ensures
            r == !(self.param_type.kind is Unknown),
    {
        self.param_type.is_explicitly_typed()
    }

    /// Whether the parameter has a physical unit type.
    pub fn has_unit_type(&self) -> (r: bool)
        ensures
            r == (self.param_type.kind is UnitValue || self.param_type.kind is UnitValueDefault
                || self.param_type.kind is CompoundUnit),
    {
        match self.param_type.kind {
            McParamTypeKind::UnitValue { .. } | McParamTypeKind::UnitValueDefault { .. }
            | McParamTypeKind::CompoundUnit { .. } => true,
            _ => false,
        }
    }

    /// Whether the parameter has an enum-class type.
    pub fn has_enum_class(&self) -> (r: bool)
        ensures
            r == (self.param_type.kind is EnumClass || self.param_type.kind is EnumClassDefault),
    {
        match self.param_type.kind {
            McParamTypeKind::EnumClass { .. } | McParamTypeKind::EnumClassDefault { .. } => true,
            _ => false,
        }
    }

    /// The enum class name of an enum-class declaration.
    pub fn get_enum_class(&self) -> (r: Option<&str>)
        ensures
            match self.kind {
                McParamDeclareKind::EnumClass(ec) => r matches Some(s) && s@ == ec.class_name@,
                _ => r is None,
            },
    {
        match &self.kind {
            McParamDeclareKind::EnumClass(ec) => Some(ec.class_name.as_str()),
            _ => None,
        }
    }

    /// The declared physical unit of a unit-typed parameter (the head unit
    /// of a compound unit).
    pub fn get_declared_unit(&self) -> (r: Option<McUnit>)
        ensures
            r == (match self.param_type.kind {
                McParamTypeKind::UnitValue { unit } => Some(unit),
                McParamTypeKind::UnitValueDefault { unit, default: _ } => Some(unit),
                McParamTypeKind::CompoundUnit { head } => Some(head),
                _ => None,
            }),
    {
        match &self.param_type.kind {
            McParamTypeKind::UnitValue { unit } => Some(*unit),
            McParamTypeKind::UnitValueDefault { unit, .. } => Some(*unit),
            McParamTypeKind::CompoundUnit { head } => Some(*head),
            _ => None,
        }
    }

    /// The class or interface name of an interface- or enum-typed parameter.
    pub fn get_class_name(&self) -> (r: Option<String>)
        ensures
            match self.param_type.kind {
                McParamTypeKind::Interface { class_name, params: _ } => r matches Some(c) && c@
                    == class_name@,
                McParamTypeKind::InterfaceWithRole { class_name, role_val: _ } => r matches Some(c)
                    && c@ == class_name@,
                McParamTypeKind::EnumClass { class_name } => r matches Some(c) && c@ == class_name@,
                McParamTypeKind::EnumClassDefault { class_name, default: _ } => r matches Some(c)
                    && c@ == class_name@,
                _ => r is None,
            },
    {
        match &self.param_type.kind {
            McParamTypeKind::Interface { class_name, .. } => Some(copy_string(class_name)),
            McParamTypeKind::InterfaceWithRole { class_name, .. } => Some(copy_string(class_name)),
            McParamTypeKind::EnumClass { class_name } => Some(copy_string(class_name)),
            McParamTypeKind::EnumClassDefault { class_name, .. } => Some(copy_string(class_name)),
            _ => None,
        }
    }

    /// Whether the parameter is bound to a class (interface or enum class).
    pub fn has_class_params(&self) -> (r: bool)
        ensures
            r == (self.param_type.kind is Interface || self.param_type.kind is InterfaceWithRole
                || self.param_type.kind is EnumClass || self.param_type.kind is EnumClassDefault),
    {
        self.get_class_name().is_some()
    }

    /// Whether the parameter is a port (category A).
    pub fn is_port(&self) -> (r: bool)
        ensures
            r == kind_is_port(self.param_type.kind),
    {
        self.param_type.is_port()
    }

    /// Set the type (usage-based inference after parsing).
    pub fn set_param_type(&mut self, pt: McParamType)
        ensures
            final(self).param_type == pt,
            final(self).kind == old(self).kind,
            final(self).default_val == old(self).default_val,
            final(self).default_quoted == old(self).default_quoted,
    {
        self.param_type = pt;
    }

    /// Whether the parameter has a default value (optional at call sites).
    pub fn has_default_value(&self) -> (r: bool)
        ensures
            r == self.default_val is Some,
    {
        self.default_val.is_some()
    }

    /// Expanded names: the name's expansion; a vector formal's member
    /// expansions in order; none for a unit value.
    pub fn expand(&self) -> (r: Vec<String>)
        ensures
            texts(r@) == (match self.kind {
                McParamDeclareKind::Multiple(ms) => expand_all(ids_list(ms@)),
                McParamDeclareKind::UValue(_) => Seq::<Seq<char>>::empty(),
                _ => ids_expand(decl_name(*self)->0),
            }),
    {
        match &self.kind {
            McParamDeclareKind::Role { name, .. } => name.expand(),
            McParamDeclareKind::Single(ids) => ids.expand(),
            McParamDeclareKind::Multiple(members) => {
                let mut out: Vec<String> = Vec::new();
                let mut i: usize = 0;
                while i < members.len()
                    invariant
                        0 <= i <= members@.len(),
                        texts(out@) == expand_all(ids_list(members@).take(i as int)),
                    decreases members@.len() - i,
                {
                    let e = members[i].expand();
                    extend_strings(&mut out, e.as_slice());
                    assert(ids_list(members@).take(i + 1).drop_last() =~= ids_list(members@).take(
                        i as int,
                    ));
                    i += 1;
                }
                assert(ids_list(members@).take(members@.len() as int) =~= ids_list(members@));
                out
            },
            McParamDeclareKind::UValue(_) => {
                let v: Vec<String> = Vec::new();
                assert(texts(v@) =~= Seq::<Seq<char>>::empty());
                v
            },
            McParamDeclareKind::EnumClass(ec) => ec.name.expand(),
        }
    }

    /// Every name form a usage site may spell for this parameter.
    pub fn all_name_forms(&self) -> (r: Vec<String>)
        ensures
            texts(r@) == (match self.kind {
                McParamDeclareKind::Multiple(ms) => forms_all(ids_list(ms@)),
                _ => name_forms(decl_name(*self)->0),
            }),
    {
        match &self.kind {
            McParamDeclareKind::Single(ids) => ids.all_name_forms(),
            McParamDeclareKind::Multiple(members) => {
                let mut out: Vec<String> = Vec::new();
                let mut i: usize = 0;
                while i < members.len()
                    invariant
                        0 <= i <= members@.len(),
                        texts(out@) == forms_all(ids_list(members@).take(i as int)),
                    decreases members@.len() - i,
                {
                    let e = members[i].all_name_forms();
                    extend_strings(&mut out, e.as_slice());
                    assert(ids_list(members@).take(i + 1).drop_last() =~= ids_list(members@).take(
                        i as int,
                    ));
                    i += 1;
                }
                assert(ids_list(members@).take(members@.len() as int) =~= ids_list(members@));
                out
            },
            McParamDeclareKind::Role { name, .. } => name.all_name_forms(),
            McParamDeclareKind::UValue(uval) => uval.name.all_name_forms(),
            McParamDeclareKind::EnumClass(ec) => ec.name.all_name_forms(),
        }
    }

    /// The name and written default of a parameter that has one; a single
    /// formal is named by its primary name, a vector formal gives none.
    pub fn get_name_with_default(&self) -> (r: Option<(McIds, String)>)
        ensures
            match r {
                Some((n, d)) => name_default(*self) == Some((n@, d@)),
                None => name_default(*self) is None,
            },
    {
        let default = match &self.default_val {
            Some(d) => copy_string(d),
            None => return None,
        };
        let name = match &self.kind {
            McParamDeclareKind::Single(ids) => match ids.get_primary_name() {
                Some(p) => McIds::from(p.as_str()),
                None => return None,
            },
            McParamDeclareKind::UValue(uval) => uval.name.copy(),
            McParamDeclareKind::EnumClass(ec) => ec.name.copy(),
            McParamDeclareKind::Role { name, .. } => name.copy(),
            McParamDeclareKind::Multiple(_) => return None,
        };
        Some((name, default))
    }

    /// Port name and members of a port parameter: a vector formal gives
    /// (`[VDD_3V3, GND]`, its member texts), a single one (its text, none);
    /// `None` for a value parameter or another kind.
    pub fn to_port_name_and_members(&self) -> (r: Option<(String, Vec<String>)>)
        ensures
            !kind_is_port(self.param_type.kind) ==> r is None,
            kind_is_port(self.param_type.kind) ==> match self.kind {
                McParamDeclareKind::Multiple(ms) => r matches Some((n, m)) && texts(m@) == texts_all(
                    ids_list(ms@),
                ) && n@ == bracket_list(texts_all(ids_list(ms@))),
                McParamDeclareKind::Single(ids) => r matches Some((n, m)) && n@ == ids_text(ids@)
                    && m@.len() == 0,
                _ => r is None,
            },
    {
        if !self.param_type.is_port() {
            return None;
        }
        match &self.kind {
            McParamDeclareKind::Multiple(ids_list_v) => {
                let members = ids_texts(ids_list_v);
                let name = bracket_list_exec(&members);
                Some((name, members))
            },
            McParamDeclareKind::Single(ids) => Some((ids.to_string(), Vec::new())),
            _ => None,
        }
    }
}


// ---------------------------------------------------------------------------
// The parameter list
// ---------------------------------------------------------------------------

/// The spans recorded under one name, in recording order.
#[derive(Debug)]
pub struct SpanList {
    pub name: String,
    pub spans: Vec<Range<usize>>,
}

/// A span as a pair of offsets.
pub open spec fn span_of(r: Range<usize>) -> (usize, usize) {
    (r.start, r.end)
}

/// The spans of a span list as pairs.
pub open spec fn spans_model(v: Seq<Range<usize>>) -> Seq<(usize, usize)> {
    v.map_values(|r: Range<usize>| span_of(r))
}

/// The spans recorded under `name`, if any.
pub open spec fn spans_under(v: Seq<SpanList>, name: Seq<char>) -> Option<Seq<(usize, usize)>>
    decreases v.len(),
{
    if v.len() == 0 {
        None
    } else if v.last().name@ == name {
        Some(spans_model(v.last().spans@))
    } else {
        spans_under(v.drop_last(), name)
    }
}

/// No name is recorded twice.
pub open spec fn names_unique(v: Seq<SpanList>) -> bool {
    forall|i: int, j: int| 0 <= i < j < v.len() ==> (#[trigger] v[i]).name@ != (#[trigger] v[j]).name@
}

/// The spans under `name` after recording one more.
pub open spec fn spans_after(v: Seq<SpanList>, name: Seq<char>, s: (usize, usize)) -> Option<
    Seq<(usize, usize)>,
> {
    match spans_under(v, name) {
        Some(old) => Some(old.push(s)),
        None => Some(seq![s]),
    }
}

/// A name's definition span is the first span ever recorded for it:
/// recording another span under the name keeps it, and the first recording
/// sets it.
pub proof fn lemma_first_recorded_span_is_definition(
    v: Seq<SpanList>,
    name: Seq<char>,
    s: (usize, usize),
)
    ensures
        spans_after(v, name, s) matches Some(l) && l.len() > 0 && l[0] == (match spans_under(v, name) {
            Some(old) => if old.len() > 0 {
                old[0]
            } else {
                s
            },
            None => s,
        }),
{
}

/// The port key of a declared name: the text before its first `{`.
pub open spec fn port_key(name: Seq<char>) -> Seq<char> {
    name.take(crate::mc_ida::find_from(name, 0, '{'))
}

/// A reference to a parameter from a connection statement: its span, the
/// port name and the scope.
pub type NetRef = (Range<usize>, String, String);

/// A parameter declaration list with its definition, port and reference
/// spans.
#[derive(Debug)]
pub struct McParamDeclares {
    pub declares: Vec<McParamDeclare>,
    /// Definition spans of every parameter (never filtered).
    pub def_spans: Vec<SpanList>,
    /// Port spans; after type inference, ports only.
    pub port_spans: Vec<SpanList>,
    /// References from connection statements.
    pub net_ref_spans: Vec<NetRef>,
    /// Name of the enclosing component or module.
    pub enclosing_component_name: Option<McIds>,
}

proof fn lemma_spans_under_index(v: Seq<SpanList>, k: int)
    requires
        names_unique(v),
        0 <= k < v.len(),
    ensures
        spans_under(v, v[k].name@) == Some(spans_model(v[k].spans@)),
    decreases v.len(),
{
    if k < v.len() - 1 {
        assert(v.last() == v[v.len() - 1]);
        assert(v.drop_last()[k] == v[k]);
        assert forall|i: int, j: int| 0 <= i < j < v.drop_last().len() implies (#[trigger] v.drop_last()[i]).name@
            != (#[trigger] v.drop_last()[j]).name@ by {
            assert(v.drop_last()[i] == v[i] && v.drop_last()[j] == v[j]);
        }
        lemma_spans_under_index(v.drop_last(), k);
    }
}

proof fn lemma_spans_under_absent(v: Seq<SpanList>, name: Seq<char>)
    requires
        forall|i: int| 0 <= i < v.len() ==> (#[trigger] v[i]).name@ != name,
    ensures
        spans_under(v, name) is None,
    decreases v.len(),
{
    if v.len() > 0 {
        assert(v.last() == v[v.len() - 1]);
        lemma_spans_under_absent(v.drop_last(), name);
    }
}

proof fn lemma_spans_under_found(v: Seq<SpanList>, name: Seq<char>)
    requires
        spans_under(v, name) is Some,
    ensures
        exists|i: int| 0 <= i < v.len() && (#[trigger] v[i]).name@ == name,
    decreases v.len(),
{
    if v.len() > 0 {
        assert(v.last() == v[v.len() - 1]);
        if v.last().name@ != name {
            lemma_spans_under_found(v.drop_last(), name);
            let i = choose|i: int| 0 <= i < v.drop_last().len() && (#[trigger] v.drop_last()[i]).name@ == name;
            assert(v[i] == v.drop_last()[i]);
        }
    }
}

/// Record one span under a name, keeping names unique.
fn push_span(list: &mut Vec<SpanList>, name: &str, span: Range<usize>)
    requires
        names_unique(old(list)@),
    ensures
        names_unique(final(list)@),
        spans_under(final(list)@, name@) == spans_after(old(list)@, name@, span_of(span)),
        forall|k: Seq<char>| k != name@ ==> spans_under(final(list)@, k) == spans_under(old(list)@, k),
{
    let ghost old_list = list@;
    let mut k: usize = 0;
    while k < list.len() && !str_eq(list[k].name.as_str(), name)
        invariant
            0 <= k <= list@.len(),
            list@ == old_list,
            forall|q: int| 0 <= q < k ==> (#[trigger] list@[q]).name@ != name@,
        decreases list@.len() - k,
    {
        k += 1;
    }
    if k < list.len() {
        let mut e = list.remove(k);
        let ghost e_old = e;
        e.spans.push(span);
        list.insert(k, e);
        proof {
            assert(list@ =~= old_list.update(k as int, e));
            assert forall|i: int, j: int| 0 <= i < j < list@.len() implies (#[trigger] list@[i]).name@
                != (#[trigger] list@[j]).name@ by {
                assert(list@[i].name == old_list[i].name);
                assert(list@[j].name == old_list[j].name);
            }
            lemma_spans_under_index(old_list, k as int);
            lemma_spans_under_index(list@, k as int);
            assert(spans_model(e.spans@) =~= spans_model(e_old.spans@).push(span_of(span)));
            assert forall|key: Seq<char>| key != name@ implies spans_under(list@, key) == spans_under(
                old_list,
                key,
            ) by {
                lemma_spans_under_update(old_list, k as int, e, key);
            }
        }
    } else {
        let mut spans: Vec<Range<usize>> = Vec::new();
        spans.push(span);
        let e = SpanList { name: owned(name), spans };
        proof {
            lemma_spans_under_absent(old_list, name@);
            assert(spans_model(e.spans@) =~= seq![span_of(span)]);
        }
        list.push(e);
        proof {
            assert(list@ =~= old_list.push(e));
            assert(list@.drop_last() =~= old_list);
            assert forall|i: int, j: int| 0 <= i < j < list@.len() implies (#[trigger] list@[i]).name@
                != (#[trigger] list@[j]).name@ by {
                if j == list@.len() - 1 {
                    assert(list@[i] == old_list[i]);
                } else {
                    assert(list@[i] == old_list[i] && list@[j] == old_list[j]);
                }
            }
        }
    }
}

proof fn lemma_spans_under_update(v: Seq<SpanList>, k: int, e: SpanList, key: Seq<char>)
    requires
        0 <= k < v.len(),
        e.name@ == v[k].name@,
        key != e.name@,
    ensures
        spans_under(v.update(k, e), key) == spans_under(v, key),
    decreases v.len(),
{
    let w = v.update(k, e);
    if v.len() > 0 {
        if k == v.len() - 1 {
            assert(w.drop_last() =~= v.drop_last());
        } else {
            assert(w.drop_last() =~= v.drop_last().update(k, e));
            assert(w.last() == v.last());
            lemma_spans_under_update(v.drop_last(), k, e, key);
        }
    }
}

/// The spans of an optional list with the last one replaced by `s`.
pub open spec fn replace_last(o: Option<Seq<(usize, usize)>>, s: (usize, usize)) -> Option<
    Seq<(usize, usize)>,
> {
    match o {
        Some(v) => if v.len() > 0 {
            Some(v.update(v.len() - 1, s))
        } else {
            Some(v)
        },
        None => None,
    }
}

/// Replaces the last span recorded under `name`, if any.
fn replace_last_span(list: &mut Vec<SpanList>, name: &str, span: Range<usize>)
    requires
        names_unique(old(list)@),
    ensures
        names_unique(final(list)@),
        spans_under(final(list)@, name@) == replace_last(
            spans_under(old(list)@, name@),
            span_of(span),
        ),
        forall|k: Seq<char>| k != name@ ==> spans_under(final(list)@, k) == spans_under(old(list)@, k),
{
    let ghost old_list = list@;
    let mut k: usize = 0;
    while k < list.len() && !str_eq(list[k].name.as_str(), name)
        invariant
            0 <= k <= list@.len(),
            list@ == old_list,
            forall|q: int| 0 <= q < k ==> (#[trigger] list@[q]).name@ != name@,
        decreases list@.len() - k,
    {
        k += 1;
    }
    if k < list.len() {
        let mut e = list.remove(k);
        let ghost e_old = e;
        let n = e.spans.len();
        if n > 0 {
            e.spans.set(n - 1, span);
        }
        list.insert(k, e);
        proof {
            assert(list@ =~= old_list.update(k as int, e));
            assert forall|i: int, j: int| 0 <= i < j < list@.len() implies (#[trigger] list@[i]).name@
                != (#[trigger] list@[j]).name@ by {
                assert(list@[i].name == old_list[i].name);
                assert(list@[j].name == old_list[j].name);
            }
            lemma_spans_under_index(old_list, k as int);
            lemma_spans_under_index(list@, k as int);
            if n > 0 {
                assert(spans_model(e.spans@) =~= spans_model(e_old.spans@).update(
                    n - 1,
                    span_of(span),
                ));
            } else {
                assert(spans_model(e.spans@) =~= spans_model(e_old.spans@));
            }
            assert forall|key: Seq<char>| key != name@ implies spans_under(list@, key) == spans_under(
                old_list,
                key,
            ) by {
                lemma_spans_under_update(old_list, k as int, e, key);
            }
        }
    } else {
        proof {
            lemma_spans_under_absent(old_list, name@);
        }
    }
}

/// Whether some span is recorded under `name`.
fn has_spans(list: &Vec<SpanList>, name: &str) -> (r: bool)
    ensures
        r == spans_under(list@, name@) is Some,
{
    let mut k: usize = 0;
    while k < list.len()
        invariant
            0 <= k <= list@.len(),
            forall|q: int| 0 <= q < k ==> (#[trigger] list@[q]).name@ != name@,
        decreases list@.len() - k,
    {
        if str_eq(list[k].name.as_str(), name) {
            proof {
                lemma_spans_under_found_at(list@, k as int, name@);
            }
            return true;
        }
        k += 1;
    }
    proof {
        lemma_spans_under_absent(list@, name@);
    }
    false
}

proof fn lemma_spans_under_found_at(v: Seq<SpanList>, k: int, name: Seq<char>)
    requires
        0 <= k < v.len(),
        v[k].name@ == name,
    ensures
        spans_under(v, name) is Some,
    decreases v.len(),
{
    if v.last().name@ != name {
        assert(k < v.len() - 1);
        assert(v.drop_last()[k] == v[k]);
        lemma_spans_under_found_at(v.drop_last(), k, name);
    }
}

impl McParamDeclares {
    /// Gives the whole bracket of a vector parameter its exact span: the
    /// name is recorded first if it has no definition span yet, then its last
    /// definition span, and its last port span under the whole name if it
    /// has one, become `span`.
    pub fn set_whole_span(&mut self, whole: &str, span: Range<usize>)
        requires
            old(self).wf(),
        ensures
            final(self).wf(),
            final(self).declares@ == old(self).declares@,
            final(self).net_ref_spans@ == old(self).net_ref_spans@,
            final(self).enclosing_component_name == old(self).enclosing_component_name,
            forall|k: Seq<char>|
                #![trigger spans_under(final(self).def_spans@, k)]
                spans_under(final(self).def_spans@, k) == whole_def(
                    old(self).def_spans@,
                    whole@,
                    span_of(span),
                    k,
                ),
            forall|k: Seq<char>|
                #![trigger spans_under(final(self).port_spans@, k)]
                spans_under(final(self).port_spans@, k) == whole_port(
                    old(self).def_spans@,
                    old(self).port_spans@,
                    whole@,
                    span_of(span),
                    k,
                ),
    {
        let s1 = Range { start: span.start, end: span.end };
        let s2 = Range { start: span.start, end: span.end };
        if !has_spans(&self.def_spans, whole) {
            self.store_def_span(whole, s1);
        }
        replace_last_span(&mut self.def_spans, whole, span);
        replace_last_span(&mut self.port_spans, whole, s2);
    }
}

/// The definition spans under `k` after [`McParamDeclares::set_whole_span`].
pub open spec fn whole_def(old_def: Seq<SpanList>, whole: Seq<char>, s: (usize, usize), k: Seq<char>) -> Option<
    Seq<(usize, usize)>,
> {
    let stored = if spans_under(old_def, whole) is None {
        spans_after(old_def, whole, s)
    } else {
        spans_under(old_def, whole)
    };
    if k == whole {
        replace_last(stored, s)
    } else {
        spans_under(old_def, k)
    }
}

/// The port spans under `k` after [`McParamDeclares::set_whole_span`].
pub open spec fn whole_port(
    old_def: Seq<SpanList>,
    old_port: Seq<SpanList>,
    whole: Seq<char>,
    s: (usize, usize),
    k: Seq<char>,
) -> Option<Seq<(usize, usize)>> {
    let p1 = if spans_under(old_def, whole) is None && k == port_key(whole) {
        spans_after(old_port, k, s)
    } else {
        spans_under(old_port, k)
    };
    if k == whole {
        replace_last(
            if spans_under(old_def, whole) is None && whole == port_key(whole) {
                spans_after(old_port, whole, s)
            } else {
                spans_under(old_port, whole)
            },
            s,
        )
    } else {
        p1
    }
}

/// The first declaration of `s` answering to `name`, as an index (`s.len()`
/// when none does).
pub open spec fn first_match(s: Seq<McParamDeclare>, name: Seq<char>, i: int) -> int
    decreases s.len() - i,
{
    if i >= s.len() || i < 0 {
        s.len() as int
    } else if decl_matches(s[i], name) {
        i
    } else {
        first_match(s, name, i + 1)
    }
}

/// Primary names of the declarations that have one, in order.
pub open spec fn primaries(s: Seq<McParamDeclare>) -> Seq<Seq<char>>
    decreases s.len(),
{
    if s.len() == 0 {
        seq![]
    } else {
        primaries(s.drop_last()) + match decl_primary(s.last()) {
            Some(p) => seq![p],
            None => Seq::<Seq<char>>::empty(),
        }
    }
}

/// Primary names of the port declarations that have one.
pub open spec fn port_primaries(s: Seq<McParamDeclare>) -> Seq<Seq<char>>
    decreases s.len(),
{
    if s.len() == 0 {
        seq![]
    } else {
        port_primaries(s.drop_last()) + (if kind_is_port(s.last().param_type.kind) {
            match decl_primary(s.last()) {
                Some(p) => seq![p],
                None => Seq::<Seq<char>>::empty(),
            }
        } else {
            Seq::<Seq<char>>::empty()
        })
    }
}

/// The span lists of `v` whose names are among `keep`, in order.
pub open spec fn keep_names(v: Seq<SpanList>, keep: Seq<Seq<char>>) -> Seq<SpanList>
    decreases v.len(),
{
    if v.len() == 0 {
        seq![]
    } else if keep.contains(v.last().name@) {
        keep_names(v.drop_last(), keep).push(v.last())
    } else {
        keep_names(v.drop_last(), keep)
    }
}

impl McParamDeclares {
    /// Span lists hold each name once.
    pub open spec fn wf(&self) -> bool {
        names_unique(self.def_spans@) && names_unique(self.port_spans@)
    }

    /// An empty list.
    pub fn new() -> (r: McParamDeclares)
        ensures
            r.wf(),
            r.declares@.len() == 0,
            r.def_spans@.len() == 0,
            r.port_spans@.len() == 0,
            r.net_ref_spans@.len() == 0,
            r.enclosing_component_name is None,
    {
        McParamDeclares {
            declares: Vec::new(),
            def_spans: Vec::new(),
            port_spans: Vec::new(),
            net_ref_spans: Vec::new(),
            enclosing_component_name: None,
        }
    }

    /// Record a parameter's definition span: under its whole declared name
    /// among the definition spans (kept for navigation), and under its port
    /// key (the text before a curly group) among the port spans.
    pub fn store_def_span(&mut self, name: &str, span: Range<usize>)
        requires
            old(self).wf(),
        ensures
            final(self).wf(),
            spans_under(final(self).def_spans@, name@) == spans_after(
                old(self).def_spans@,
                name@,
                span_of(span),
            ),
            forall|k: Seq<char>|
                k != name@ ==> spans_under(final(self).def_spans@, k) == spans_under(
                    old(self).def_spans@,
                    k,
                ),
            spans_under(final(self).port_spans@, port_key(name@)) == spans_after(
                old(self).port_spans@,
                port_key(name@),
                span_of(span),
            ),
            forall|k: Seq<char>|
                k != port_key(name@) ==> spans_under(final(self).port_spans@, k) == spans_under(
                    old(self).port_spans@,
                    k,
                ),
            final(self).declares@ == old(self).declares@,
            final(self).net_ref_spans@ == old(self).net_ref_spans@,
            final(self).enclosing_component_name == old(self).enclosing_component_name,
    {
        let s2 = Range { start: span.start, end: span.end };
        push_span(&mut self.def_spans, name, span);
        let c = chars_of(name);
        let k = crate::mc_ida::find_from_exec(c.as_slice(), 0, '{');
        proof {
            crate::mc_ida::lemma_find_from(c@, 0, '{');
        }
        let key_chars = sub_chars(c.as_slice(), 0, k);
        assert(key_chars@ =~= port_key(name@));
        let key = string_of(key_chars.as_slice());
        push_span(&mut self.port_spans, key.as_str(), s2);
    }

    /// The first declaration answering to `name`.
    pub fn find(&self, name: &str) -> (r: Option<&McParamDeclare>)
        ensures
            match r {
                Some(d) => first_match(self.declares@, name@, 0) < self.declares@.len()
                    && *d == self.declares@[first_match(self.declares@, name@, 0)],
                None => first_match(self.declares@, name@, 0) == self.declares@.len(),
            },
    {
        let mut i: usize = 0;
        while i < self.declares.len()
            invariant
                0 <= i <= self.declares@.len(),
                first_match(self.declares@, name@, 0) == first_match(self.declares@, name@, i as int),
            decreases self.declares@.len() - i,
        {
            if self.declares[i].match_name(name) {
                return Some(&self.declares[i]);
            }
            i += 1;
        }
        None
    }

    /// The first declaration answering to `name`, to be updated in place.
    pub fn find_mut(&mut self, name: &str) -> (r: Option<&mut McParamDeclare>)
        ensures
            match r {
                Some(d) => {
                    let k = first_match(old(self).declares@, name@, 0);
                    &&& k < old(self).declares@.len()
                    &&& *d == old(self).declares@[k]
                    &&& final(self).declares@ == old(self).declares@.update(k, *final(d))
                },
                None => first_match(old(self).declares@, name@, 0) == old(self).declares@.len()
                    && final(self).declares@ == old(self).declares@,
            },
            final(self).def_spans@ == old(self).def_spans@,
            final(self).port_spans@ == old(self).port_spans@,
            final(self).net_ref_spans@ == old(self).net_ref_spans@,
            final(self).enclosing_component_name == old(self).enclosing_component_name,
    {
        let mut i: usize = 0;
        while i < self.declares.len()
            invariant
                0 <= i <= self.declares@.len(),
                first_match(self.declares@, name@, 0) == first_match(self.declares@, name@, i as int),
            ensures
                first_match(self.declares@, name@, 0) == (if i < self.declares@.len() { i as int } else { self.declares@.len() as int }),
            decreases self.declares@.len() - i,
        {
            if self.declares[i].match_name(name) {
                break;
            }
            i += 1;
        }
        if i < self.declares.len() {
            Some(&mut self.declares[i])
        } else {
            None
        }
    }

    /// The declaration at `index`.
    pub fn find_by_index(&self, index: usize) -> (r: Option<&McParamDeclare>)
        ensures
            match r {
                Some(d) => index < self.declares@.len() && *d == self.declares@[index as int],
                None => index >= self.declares@.len(),
            },
    {
        if index < self.declares.len() {
            Some(&self.declares[index])
        } else {
            None
        }
    }

    /// The first declaration one of whose name forms is `name` (its text,
    /// an expanded member name, or its base).
    pub fn find_form(&self, name: &str) -> (r: Option<&McParamDeclare>)
        ensures
            match r {
                Some(d) => exists|i: int|
                    0 <= i < self.declares@.len() && *d == self.declares@[i] && decl_forms(
                        self.declares@[i],
                    ).contains(name@) && forall|j: int|
                        0 <= j < i ==> !decl_forms(#[trigger] self.declares@[j]).contains(name@),
                None => forall|j: int|
                    0 <= j < self.declares@.len() ==> !decl_forms(#[trigger] self.declares@[j]).contains(
                        name@,
                    ),
            },
    {
        let mut i: usize = 0;
        while i < self.declares.len()
            invariant
                0 <= i <= self.declares@.len(),
                forall|j: int| 0 <= j < i ==> !decl_forms(#[trigger] self.declares@[j]).contains(name@),
            decreases self.declares@.len() - i,
        {
            let forms = self.declares[i].all_name_forms();
            if strings_contain(&forms, name) {
                return Some(&self.declares[i]);
            }
            i += 1;
        }
        None
    }

    /// Whether `name` is a port (a name among the port spans).
    pub fn contains(&self, name: &str) -> (r: bool)
        ensures
            r == spans_under(self.port_spans@, name@) is Some,
    {
        span_list_has(&self.port_spans, name)
    }

    /// Whether `name` is a defined parameter: recorded among the definition
    /// spans, or answered by a declaration.
    pub fn is_defined(&self, name: &str) -> (r: bool)
        ensures
            r == (spans_under(self.def_spans@, name@) is Some || first_match(
                self.declares@,
                name@,
                0,
            ) < self.declares@.len()),
    {
        span_list_has(&self.def_spans, name) || self.find(name).is_some()
    }

    /// The first definition span recorded under `name`.
    pub fn get_def_span(&self, name: &str) -> (r: Option<Range<usize>>)
        ensures
            match r {
                Some(s) => spans_under(self.def_spans@, name@) matches Some(v) && v.len() > 0 && v[0]
                    == span_of(s),
                None => match spans_under(self.def_spans@, name@) {
                    Some(v) => v.len() == 0,
                    None => true,
                },
            },
    {
        let mut k = self.def_spans.len();
        assert(self.def_spans@.take(k as int) =~= self.def_spans@);
        while k > 0
            invariant
                0 <= k <= self.def_spans@.len(),
                spans_under(self.def_spans@, name@) == spans_under(self.def_spans@.take(k as int), name@),
            decreases k,
        {
            assert(self.def_spans@.take(k as int).drop_last() =~= self.def_spans@.take(k - 1));
            assert(self.def_spans@.take(k as int).last() == self.def_spans@[k - 1]);
            if str_eq(self.def_spans[k - 1].name.as_str(), name) {
                if self.def_spans[k - 1].spans.len() > 0 {
                    let s = &self.def_spans[k - 1].spans[0];
                    return Some(Range { start: s.start, end: s.end });
                }
                return None;
            }
            k -= 1;
        }
        None
    }

    /// Record a reference to a parameter from a connection statement.
    pub fn record_net_ref(&mut self, span: Range<usize>, port_name: &str, scope: &str)
        ensures
            final(self).net_ref_spans@.len() == old(self).net_ref_spans@.len() + 1,
            forall|i: int|
                0 <= i < old(self).net_ref_spans@.len() ==> final(self).net_ref_spans@[i] == old(
                    self,
                ).net_ref_spans@[i],
            span_of(final(self).net_ref_spans@.last().0) == span_of(span),
            final(self).net_ref_spans@.last().1@ == port_name@,
            final(self).net_ref_spans@.last().2@ == scope@,
            final(self).declares@ == old(self).declares@,
            final(self).def_spans@ == old(self).def_spans@,
            final(self).port_spans@ == old(self).port_spans@,
    {
        self.net_ref_spans.push((span, owned(port_name), owned(scope)));
    }

    /// The recorded references.
    pub fn iter_net_refs(&self) -> (r: &Vec<NetRef>)
        ensures
            r@ == self.net_ref_spans@,
    {
        &self.net_ref_spans
    }

    /// Number of declarations.
    pub fn len(&self) -> (r: usize)
        ensures
            r == self.declares@.len(),
    {
        self.declares.len()
    }

    /// Whether there is no declaration.
    pub fn is_empty(&self) -> (r: bool)
        ensures
            r == (self.declares@.len() == 0),
    {
        self.declares.len() == 0
    }

    /// The declarations, in order.
    pub fn iter(&self) -> (r: &[McParamDeclare])
        ensures
            r@ == self.declares@,
    {
        self.declares.as_slice()
    }

    /// Primary names of the declarations (vector formals have none).
    pub fn names(&self) -> (r: Vec<String>)
        ensures
            texts(r@) == primaries(self.declares@),
    {
        let mut out: Vec<String> = Vec::new();
        let mut i: usize = 0;
        while i < self.declares.len()
            invariant
                0 <= i <= self.declares@.len(),
                texts(out@) == primaries(self.declares@.take(i as int)),
            decreases self.declares@.len() - i,
        {
            assert(self.declares@.take(i + 1).drop_last() =~= self.declares@.take(i as int));
            assert(self.declares@.take(i + 1).last() == self.declares@[i as int]);
            match self.declares[i].get_primary_name() {
                Some(p) => {
                    proof {
                        lemma_texts_push(out@, p);
                    }
                    out.push(p);
                },
                None => {},
            }
            i += 1;
        }
        assert(self.declares@.take(self.declares@.len() as int) =~= self.declares@);
        out
    }

    /// Display names of the declarations, compound forms included.
    pub fn names_full(&self) -> (r: Vec<String>)
        ensures
            r@.len() == self.declares@.len(),
            forall|i: int| 0 <= i < r@.len() ==> r@[i]@ == display_of(self.declares@[i]),
    {
        let mut out: Vec<String> = Vec::new();
        let mut i: usize = 0;
        while i < self.declares.len()
            invariant
                0 <= i <= self.declares@.len(),
                out@.len() == i,
                forall|j: int| 0 <= j < i ==> out@[j]@ == display_of(self.declares@[j]),
            decreases self.declares@.len() - i,
        {
            out.push(self.declares[i].display_name());
            i += 1;
        }
        out
    }

    /// After type inference: keep only the port spans of ports, under the
    /// primary names of the port declarations.
    pub fn filter_port_spans(&mut self)
        requires
            old(self).wf(),
        ensures
            final(self).wf(),
            final(self).port_spans@ == keep_names(old(self).port_spans@, port_primaries(old(self).declares@)),
            final(self).declares@ == old(self).declares@,
            final(self).def_spans@ == old(self).def_spans@,
            final(self).net_ref_spans@ == old(self).net_ref_spans@,
    {
        let mut port_names: Vec<String> = Vec::new();
        let mut i: usize = 0;
        while i < self.declares.len()
            invariant
                0 <= i <= self.declares@.len(),
                texts(port_names@) == port_primaries(self.declares@.take(i as int)),
            decreases self.declares@.len() - i,
        {
            assert(self.declares@.take(i + 1).drop_last() =~= self.declares@.take(i as int));
            assert(self.declares@.take(i + 1).last() == self.declares@[i as int]);
            if self.declares[i].is_port() {
                match self.declares[i].get_primary_name() {
                    Some(p) => {
                        proof {
                            lemma_texts_push(port_names@, p);
                        }
                        port_names.push(p);
                    },
                    None => {},
                }
            }
            i += 1;
        }
        assert(self.declares@.take(self.declares@.len() as int) =~= self.declares@);
        let ghost keep = port_primaries(self.declares@);
        let ghost old_ports = self.port_spans@;
        let mut old_list: Vec<SpanList> = Vec::new();
        std::mem::swap(&mut old_list, &mut self.port_spans);
        let mut kept: Vec<SpanList> = Vec::new();
        let mut rest = old_list;
        let ghost total = rest@;
        let n_rest = rest.len();
        assert(total.len() == n_rest);
        let mut consumed: usize = 0;
        while rest.len() > 0
            invariant
                total == old_ports,
                total.len() <= usize::MAX,
                names_unique(old_ports),
                consumed + rest@.len() == total.len(),
                rest@ == total.skip(consumed as int),
                kept@ == keep_names(total.take(consumed as int), keep),
                texts(port_names@) == keep,
            decreases rest@.len(),
        {
            let e = rest.remove(0);
            proof {
                assert(total.take(consumed + 1).drop_last() =~= total.take(consumed as int));
                assert(total.take(consumed + 1).last() == e);
                assert(rest@ =~= total.skip(consumed + 1));
            }
            if strings_contain(&port_names, e.name.as_str()) {
                kept.push(e);
            }
            consumed += 1;
        }
        assert(total.take(consumed as int) =~= total);
        proof {
            lemma_keep_unique(total, keep);
        }
        self.port_spans = kept;
    }
}

proof fn lemma_keep_unique(v: Seq<SpanList>, keep: Seq<Seq<char>>)
    requires
        names_unique(v),
    ensures
        names_unique(keep_names(v, keep)),
        forall|i: int|
            0 <= i < keep_names(v, keep).len() ==> exists|j: int|
                0 <= j < v.len() && (#[trigger] keep_names(v, keep)[i]) == v[j],
    decreases v.len(),
{
    if v.len() > 0 {
        let d = v.drop_last();
        assert forall|i: int, j: int| 0 <= i < j < d.len() implies (#[trigger] d[i]).name@
            != (#[trigger] d[j]).name@ by {
            assert(d[i] == v[i] && d[j] == v[j]);
        }
        lemma_keep_unique(d, keep);
        let k = keep_names(v, keep);
        let kd = keep_names(d, keep);
        assert forall|i: int| 0 <= i < k.len() implies exists|j: int|
            0 <= j < v.len() && (#[trigger] k[i]) == v[j] by {
            if i < kd.len() {
                let j = choose|j: int| 0 <= j < d.len() && kd[i] == d[j];
                assert(k[i] == kd[i]);
                assert(v[j] == d[j]);
            } else {
                assert(k[i] == v.last());
                assert(v[v.len() - 1] == v.last());
            }
        }
        assert forall|i: int, j: int| 0 <= i < j < k.len() implies (#[trigger] k[i]).name@
            != (#[trigger] k[j]).name@ by {
            if j < kd.len() {
                assert(k[i] == kd[i] && k[j] == kd[j]);
            } else {
                assert(k[j] == v.last());
                assert(k[i] == kd[i]);
                let q = choose|q: int| 0 <= q < d.len() && kd[i] == d[q];
                assert(v[q] == d[q]);
                assert(v[v.len() - 1] == v.last());
            }
        }
    }
}

/// Every name form of a declaration.
pub open spec fn decl_forms(d: McParamDeclare) -> Seq<Seq<char>> {
    match d.kind {
        McParamDeclareKind::Multiple(ms) => forms_all(ids_list(ms@)),
        _ => name_forms(decl_name(d)->0),
    }
}

/// The display name of a declaration.
pub open spec fn display_of(d: McParamDeclare) -> Seq<char> {
    match d.kind {
        McParamDeclareKind::Multiple(ms) => bracket_list(texts_all(ids_list(ms@))),
        _ => match decl_primary(d) {
            Some(s) => s,
            None => Seq::<char>::empty(),
        },
    }
}

/// Whether a list of strings holds a text.
fn strings_contain(v: &Vec<String>, s: &str) -> (r: bool)
    ensures
        r == texts(v@).contains(s@),
{
    let mut i: usize = 0;
    while i < v.len()
        invariant
            0 <= i <= v@.len(),
            forall|j: int| 0 <= j < i ==> v@[j]@ != s@,
        decreases v@.len() - i,
    {
        if str_eq(v[i].as_str(), s) {
            assert(texts(v@)[i as int] == s@);
            return true;
        }
        i += 1;
    }
    proof {
        if texts(v@).contains(s@) {
            let k = choose|k: int| 0 <= k < texts(v@).len() && texts(v@)[k] == s@;
            assert(v@[k]@ == s@);
        }
    }
    false
}

/// Whether a span list records `name`.
fn span_list_has(v: &Vec<SpanList>, name: &str) -> (r: bool)
    ensures
        r == spans_under(v@, name@) is Some,
{
    let mut k = v.len();
    assert(v@.take(k as int) =~= v@);
    while k > 0
        invariant
            0 <= k <= v@.len(),
            spans_under(v@, name@) == spans_under(v@.take(k as int), name@),
        decreases k,
    {
        assert(v@.take(k as int).drop_last() =~= v@.take(k - 1));
        assert(v@.take(k as int).last() == v@[k - 1]);
        if str_eq(v[k - 1].name.as_str(), name) {
            return true;
        }
        k -= 1;
    }
    assert(v@.take(0) =~= Seq::<SpanList>::empty());
    false
}


// ---------------------------------------------------------------------------
// Sorted span views
// ---------------------------------------------------------------------------

/// A named span as a model.
pub open spec fn pair_model(p: (String, Range<usize>)) -> (Seq<char>, (usize, usize)) {
    (p.0@, span_of(p.1))
}

/// The models of a list of named spans.
pub open spec fn pair_models(v: Seq<(String, Range<usize>)>) -> Seq<(Seq<char>, (usize, usize))> {
    v.map_values(|p: (String, Range<usize>)| pair_model(p))
}

/// Source order of named spans: by start offset, then by name.
pub open spec fn span_before(a: (Seq<char>, (usize, usize)), b: (Seq<char>, (usize, usize))) -> bool {
    a.1.0 < b.1.0 || (a.1.0 == b.1.0 && crate::rules::lex_less(a.0, b.0))
}

/// Named spans in source order.
pub open spec fn in_source_order(v: Seq<(Seq<char>, (usize, usize))>) -> bool {
    forall|i: int, j: int| 0 <= i < j < v.len() ==> !span_before(#[trigger] v[j], #[trigger] v[i])
}

/// Every span of a span list, each with its name, list by list.
pub open spec fn flat_spans(v: Seq<SpanList>) -> Seq<(Seq<char>, (usize, usize))>
    decreases v.len(),
{
    if v.len() == 0 {
        seq![]
    } else {
        flat_spans(v.drop_last()) + spans_model(v.last().spans@).map_values(
            |s: (usize, usize)| (v.last().name@, s),
        )
    }
}

proof fn lemma_span_before_transitive(
    a: (Seq<char>, (usize, usize)),
    b: (Seq<char>, (usize, usize)),
    c: (Seq<char>, (usize, usize)),
)
    requires
        span_before(a, b),
        span_before(b, c),
    ensures
        span_before(a, c),
{
    if a.1.0 == b.1.0 && b.1.0 == c.1.0 {
        crate::rules::lemma_lex_transitive(a.0, b.0, c.0, 0);
    }
}

/// Insert a named span at its source-order position, after every span it
/// does not come before.
fn insert_sorted(out: &mut Vec<(String, Range<usize>)>, x: (String, Range<usize>))
    requires
        in_source_order(pair_models(old(out)@)),
    ensures
        in_source_order(pair_models(final(out)@)),
        pair_models(final(out)@).to_multiset() == pair_models(old(out)@).to_multiset().insert(
            pair_model(x),
        ),
{
    let ghost old_m = pair_models(out@);
    let ghost xm = pair_model(x);
    let mut p: usize = 0;
    while p < out.len()
        invariant
            0 <= p <= out@.len(),
            pair_models(out@) == old_m,
            xm == pair_model(x),
            forall|q: int| 0 <= q < p ==> !span_before(xm, #[trigger] old_m[q]),
        ensures
            p == out@.len() || span_before(xm, old_m[p as int]),
            0 <= p <= out@.len(),
            forall|q: int| 0 <= q < p ==> !span_before(xm, #[trigger] old_m[q]),
        decreases out@.len() - p,
    {
        assert(old_m[p as int] == pair_model(out@[p as int]));
        let b = start_name_before(x.1.start, x.0.as_str(), out[p].1.start, out[p].0.as_str());
        if b {
            break;
        }
        p += 1;
    }
    out.insert(p, x);
    proof {
        let new_m = pair_models(out@);
        assert(new_m =~= old_m.insert(p as int, xm));
        vstd::seq_lib::to_multiset_insert(old_m, p as int, xm);
        assert forall|i: int, j: int| 0 <= i < j < new_m.len() implies !span_before(
            #[trigger] new_m[j],
            #[trigger] new_m[i],
        ) by {
            if j < p {
                assert(new_m[i] == old_m[i] && new_m[j] == old_m[j]);
            } else if j == p {
                assert(new_m[i] == old_m[i]);
            } else if i == p {
                assert(new_m[j] == old_m[j - 1]);
                if span_before(old_m[j - 1], xm) {
                    assert(span_before(xm, old_m[p as int]));
                    lemma_span_before_transitive(old_m[j - 1], xm, old_m[p as int]);
                    if j - 1 > p {
                        assert(!span_before(old_m[j - 1], old_m[p as int]));
                    } else {
                        crate::rules::lemma_lex_irreflexive(old_m[p as int].0, 0);
                    }
                }
            } else if i < p {
                assert(new_m[i] == old_m[i] && new_m[j] == old_m[j - 1]);
            } else {
                assert(new_m[i] == old_m[i - 1] && new_m[j] == old_m[j - 1]);
            }
        }
    }
}

fn start_name_before(sa: usize, na: &str, sb: usize, nb: &str) -> (r: bool)
    ensures
        r == span_before((na@, (sa, 0)), (nb@, (sb, 0))),
{
    sa < sb || (sa == sb && crate::rules::str_less(na, nb))
}

/// Every named span of a span list, in source order (by start offset, then
/// name).
fn sorted_spans(v: &Vec<SpanList>) -> (r: Vec<(String, Range<usize>)>)
    ensures
        in_source_order(pair_models(r@)),
        pair_models(r@).to_multiset() == flat_spans(v@).to_multiset(),
{
    let mut out: Vec<(String, Range<usize>)> = Vec::new();
    let mut i: usize = 0;
    proof {
        assert(pair_models(out@) =~= Seq::<(Seq<char>, (usize, usize))>::empty());
        assert(v@.take(0) =~= Seq::<SpanList>::empty());
    }
    while i < v.len()
        invariant
            0 <= i <= v@.len(),
            in_source_order(pair_models(out@)),
            pair_models(out@).to_multiset() == flat_spans(v@.take(i as int)).to_multiset(),
        decreases v@.len() - i,
    {
        let ghost before = flat_spans(v@.take(i as int));
        let ghost tail = spans_model(v@[i as int].spans@).map_values(
            |s: (usize, usize)| (v@[i as int].name@, s),
        );
        let mut k: usize = 0;
        while k < v[i].spans.len()
            invariant
                0 <= k <= v@[i as int].spans@.len(),
                i < v@.len(),
                tail == spans_model(v@[i as int].spans@).map_values(
                    |s: (usize, usize)| (v@[i as int].name@, s),
                ),
                in_source_order(pair_models(out@)),
                pair_models(out@).to_multiset() == (before + tail.take(k as int)).to_multiset(),
            decreases v@[i as int].spans@.len() - k,
        {
            let s = &v[i].spans[k];
            let item = (copy_string(&v[i].name), Range { start: s.start, end: s.end });
            insert_sorted(&mut out, item);
            proof {
                assert(pair_model(item) == tail[k as int]);
                assert(before + tail.take(k + 1) =~= (before + tail.take(k as int)).push(tail[k as int]));
                vstd::seq_lib::to_multiset_build(before + tail.take(k as int), tail[k as int]);
            }
            k += 1;
        }
        proof {
            assert(tail.take(tail.len() as int) =~= tail);
            assert(v@.take(i + 1).drop_last() =~= v@.take(i as int));
            assert(v@.take(i + 1).last() == v@[i as int]);
        }
        i += 1;
    }
    assert(v@.take(v@.len() as int) =~= v@);
    out
}

/// Whether `name` is a member of a vector parameter: a member of a vector
/// formal, or a member of a square-only single formal.
pub open spec fn square_members_of(d: McParamDeclare) -> Seq<Seq<char>> {
    match d.kind {
        McParamDeclareKind::Multiple(ms) => texts_all(ids_list(ms@)),
        McParamDeclareKind::Single(ids) => if ids@.len() == 1 && ids@[0] is Square
            && crate::mc_ids::is_list_form(ids@) {
            crate::mc_ids::member_items(ids@[0]->Square_0)
        } else {
            Seq::<Seq<char>>::empty()
        },
        _ => Seq::<Seq<char>>::empty(),
    }
}

impl McParamDeclares {
    /// Whether `name` is a member of a vector parameter (`VDD_3V3` inside
    /// `[VDD_3V3, GND]`).
    pub fn is_square_member(&self, name: &str) -> (r: bool)
        ensures
            r == exists|i: int|
                0 <= i < self.declares@.len() && square_members_of(#[trigger] self.declares@[i]).contains(
                    name@,
                ),
    {
        let mut i: usize = 0;
        while i < self.declares.len()
            invariant
                0 <= i <= self.declares@.len(),
                forall|j: int| 0 <= j < i ==> !square_members_of(#[trigger] self.declares@[j]).contains(name@),
            decreases self.declares@.len() - i,
        {
            let members: Vec<String> = match &self.declares[i].kind {
                McParamDeclareKind::Multiple(ids) => ids_texts(ids),
                McParamDeclareKind::Single(ids) => {
                    if ids.is_square_only() {
                        match ids.list_members() {
                            Some(m) => m,
                            None => Vec::new(),
                        }
                    } else {
                        Vec::new()
                    }
                },
                _ => Vec::new(),
            };
            assert(texts(members@) == square_members_of(self.declares@[i as int])) by {
                if texts(members@).len() == 0 {
                    assert(texts(members@) =~= Seq::<Seq<char>>::empty());
                }
            }
            if strings_contain(&members, name) {
                return true;
            }
            i += 1;
        }
        false
    }

    /// Every port span with its name, in source order.
    pub fn iter_ports_with_span(&self) -> (r: Vec<(String, Range<usize>)>)
        ensures
            in_source_order(pair_models(r@)),
            pair_models(r@).to_multiset() == flat_spans(self.port_spans@).to_multiset(),
    {
        sorted_spans(&self.port_spans)
    }

    /// Every definition span with its name, in source order.
    pub fn iter_defs_with_span(&self) -> (r: Vec<(String, Range<usize>)>)
        ensures
            in_source_order(pair_models(r@)),
            pair_models(r@).to_multiset() == flat_spans(self.def_spans@).to_multiset(),
    {
        sorted_spans(&self.def_spans)
    }
}


/// The name and written default of a declaration: none without a default
/// or for a vector formal; a single formal is named by its primary name
/// read back as an identifier.
pub open spec fn name_default(d: McParamDeclare) -> Option<(Seq<IdsSegModel>, Seq<char>)> {
    match d.default_val {
        None => None,
        Some(dv) => match d.kind {
            McParamDeclareKind::Single(ids) => match primary_name(ids@) {
                Some(p) => Some((seq![IdsSegModel::Ida(crate::mc_ida::parse_ida(p))], dv@)),
                None => None,
            },
            McParamDeclareKind::Multiple(_) => None,
            _ => Some((decl_name(d)->0, dv@)),
        },
    }
}

/// The names and defaults of the declarations that have one, in order.
pub open spec fn defaults_of(s: Seq<McParamDeclare>) -> Seq<(Seq<IdsSegModel>, Seq<char>)>
    decreases s.len(),
{
    if s.len() == 0 {
        seq![]
    } else {
        defaults_of(s.drop_last()) + match name_default(s.last()) {
            Some(x) => seq![x],
            None => Seq::<(Seq<IdsSegModel>, Seq<char>)>::empty(),
        }
    }
}

/// The condition parameters of the declarations that have a default, in
/// order: name, default text and family, where `units[k]` is the value
/// engine's answer on whether declaration `k`'s default is a unit value.
pub open spec fn cond_defaults_of(s: Seq<McParamDeclare>, units: Seq<bool>) -> Seq<
    (Seq<IdsSegModel>, Seq<char>, CondFamily),
>
    decreases s.len(),
{
    if s.len() == 0 {
        seq![]
    } else {
        cond_defaults_of(s.drop_last(), units.take(s.len() - 1)) + match name_default(s.last()) {
            Some((n, t)) => seq![(n, t, default_family(s.last(), t, units[s.len() - 1]))],
            None => Seq::<(Seq<IdsSegModel>, Seq<char>, CondFamily)>::empty(),
        }
    }
}

/// The model of a condition parameter.
pub open spec fn cond_param_model(p: CondParam) -> (Seq<IdsSegModel>, Seq<char>, CondFamily) {
    (p.name@, p.text@, p.family)
}

/// `::CLASS` or `::CLASS(a, b)`: the interface annotation of a declaration.
pub open spec fn annotation_of(d: McParamDeclare) -> Seq<char> {
    match d.param_type.kind {
        McParamTypeKind::Interface { class_name, params } => if params@.len() == 0 {
            "::"@ + class_name@
        } else {
            "::"@ + class_name@ + "("@ + join_sep(texts(params@), ", "@) + ")"@
        },
        McParamTypeKind::InterfaceWithRole { class_name, role_val } => "::"@ + class_name@ + "("@
            + role_val@ + ")"@,
        _ => Seq::<char>::empty(),
    }
}

/// A declaration's display name followed by its interface annotation.
fn annotated_name(d: &McParamDeclare) -> (r: String)
    ensures
        r@ == display_of(*d) + annotation_of(*d),
{
    let mut name = d.display_name();
    let ghost base = name@;
    match d.interface_annotation() {
        Some((class, args)) => {
            push_str(&mut name, "::");
            push_str(&mut name, class.as_str());
            let ghost head = name@;
            assert(head =~= base + "::"@ + class@);
            if args.len() > 0 {
                push_str(&mut name, "(");
                let j = join_sep_exec(args.as_slice(), ", ");
                push_str(&mut name, j.as_str());
                push_str(&mut name, ")");
                assert(name@ =~= head + "("@ + join_sep(texts(args@), ", "@) + ")"@);
            }
            proof {
                assert(texts(args@).len() == args@.len());
                match &d.param_type.kind {
                    McParamTypeKind::Interface { class_name, params } => {
                        assert(texts(params@).len() == params@.len());
                        assert(class@ == class_name@);
                        if args@.len() > 0 {
                            assert(name@ =~= base + ("::"@ + class_name@ + "("@ + join_sep(
                                texts(params@),
                                ", "@,
                            ) + ")"@));
                        } else {
                            assert(name@ =~= base + ("::"@ + class_name@));
                        }
                    },
                    McParamTypeKind::InterfaceWithRole { class_name, role_val } => {
                        assert(texts(args@).drop_last() =~= Seq::<Seq<char>>::empty());
                        assert(join_sep(texts(args@), ", "@) == texts(args@)[0]);
                        assert(name@ =~= base + ("::"@ + class_name@ + "("@ + role_val@ + ")"@));
                    },
                    _ => {},
                }
            }
        },
        None => {
            assert(name@ =~= base + annotation_of(*d));
        },
    }
    name
}

impl McParamDeclares {
    /// Display names with interface annotations: `V3V3::DC(3.3V)`,
    /// `[VDD, GND]::DC(3.3V)`.
    pub fn names_full_annotated(&self) -> (r: Vec<String>)
        ensures
            r@.len() == self.declares@.len(),
            forall|i: int|
                0 <= i < r@.len() ==> r@[i]@ == display_of(self.declares@[i]) + annotation_of(
                    self.declares@[i],
                ),
    {
        let mut out: Vec<String> = Vec::new();
        let mut i: usize = 0;
        while i < self.declares.len()
            invariant
                0 <= i <= self.declares@.len(),
                out@.len() == i,
                forall|j: int|
                    0 <= j < i ==> out@[j]@ == display_of(self.declares@[j]) + annotation_of(
                        self.declares@[j],
                    ),
            decreases self.declares@.len() - i,
        {
            let name = annotated_name(&self.declares[i]);
            out.push(name);
            i += 1;
        }
        out
    }

    /// The parameters that have a default, as the condition evaluator reads
    /// them; `units[k]` is the value engine's answer on whether the default
    /// of declaration `k` is a unit value.
    pub fn get_cond_params_with_defaults(&self, units: &Vec<bool>) -> (r: Vec<CondParam>)
        requires
            units@.len() == self.declares@.len(),
        ensures
            r@.map_values(|p: CondParam| cond_param_model(p)) == cond_defaults_of(
                self.declares@,
                units@,
            ),
    {
        let mut out: Vec<CondParam> = Vec::new();
        let mut i: usize = 0;
        while i < self.declares.len()
            invariant
                0 <= i <= self.declares@.len(),
                units@.len() == self.declares@.len(),
                out@.map_values(|p: CondParam| cond_param_model(p)) == cond_defaults_of(
                    self.declares@.take(i as int),
                    units@.take(i as int),
                ),
            decreases self.declares@.len() - i,
        {
            assert(self.declares@.take(i + 1).drop_last() =~= self.declares@.take(i as int));
            assert(self.declares@.take(i + 1).last() == self.declares@[i as int]);
            assert(units@.take(i + 1).take(i as int) =~= units@.take(i as int));
            assert(units@.take(i + 1)[i as int] == units@[i as int]);
            let ghost before = out@;
            match self.declares[i].get_cond_default(units[i]) {
                Some(x) => {
                    let ghost m = cond_param_model(x);
                    out.push(x);
                    assert(out@.map_values(|p: CondParam| cond_param_model(p)) =~= before.map_values(
                        |p: CondParam| cond_param_model(p),
                    ).push(m));
                },
                None => {},
            }
            i += 1;
        }
        assert(self.declares@.take(self.declares@.len() as int) =~= self.declares@);
        assert(units@.take(units@.len() as int) =~= units@);
        out
    }

    /// The names and defaults of the parameters that have one.
    pub fn get_params_with_defaults(&self) -> (r: Vec<(McIds, String)>)
        ensures
            r@.map_values(|p: (McIds, String)| (p.0@, p.1@)) == defaults_of(self.declares@),
    {
        let mut out: Vec<(McIds, String)> = Vec::new();
        let mut i: usize = 0;
        while i < self.declares.len()
            invariant
                0 <= i <= self.declares@.len(),
                out@.map_values(|p: (McIds, String)| (p.0@, p.1@)) == defaults_of(
                    self.declares@.take(i as int),
                ),
            decreases self.declares@.len() - i,
        {
            assert(self.declares@.take(i + 1).drop_last() =~= self.declares@.take(i as int));
            assert(self.declares@.take(i + 1).last() == self.declares@[i as int]);
            let ghost before = out@;
            match self.declares[i].get_name_with_default() {
                Some(x) => {
                    out.push(x);
                    assert(out@.map_values(|p: (McIds, String)| (p.0@, p.1@)) =~= before.map_values(
                        |p: (McIds, String)| (p.0@, p.1@),
                    ).push((x.0@, x.1@)));
                },
                None => {},
            }
            i += 1;
        }
        assert(self.declares@.take(self.declares@.len() as int) =~= self.declares@);
        out
    }
}
} // verus!
