//! Semantic type classes of formal parameters. Category A classes are
//! ports (a label, an interface); category B classes are values (a unit
//! value, a bare number, an enum-class member).
use vstd::prelude::*;
use crate::attr_keys::McUnit;
use crate::mc_ida::texts;
use crate::strs::{copy_string, copy_strings};

verus! {

/// The semantic class of a formal parameter.
#[derive(Debug, Clone)]
pub enum McParamTypeKind {
    /// Not annotated and not inferred yet.
    Unknown,
    /// A plain label: a port.
    Label,
    /// A bare number: a value.
    BareNumeric,
    /// Bound to an interface class with its parameters (`DC(3.3V)`): a port.
    Interface { class_name: String, params: Vec<String> },
    /// Bound to an interface class with a role value: a port.
    InterfaceWithRole { class_name: String, role_val: String },
    /// A physical value of a unit.
    UnitValue { unit: McUnit },
    /// A physical value of a unit with a default.
    UnitValueDefault { unit: McUnit, default: String },
    /// A compound unit, read by its head unit.
    CompoundUnit { head: McUnit },
    /// A member of an enum class.
    EnumClass { class_name: String },
    /// A member of an enum class with a default.
    EnumClassDefault { class_name: String, default: String },
}

/// Signal direction a parameter declares.
#[derive(Debug, Clone, Copy, PartialEq, Eq, Structural)]
pub enum ParamDirection {
    In,
    Out,
    InOut,
}

/// A parameter's semantic type and declared direction.
#[derive(Debug, Clone)]
pub struct McParamType {
    pub kind: McParamTypeKind,
    pub direction: Option<ParamDirection>,
}

/// Category A: the class of a port.
pub open spec fn kind_is_port(k: McParamTypeKind) -> bool {
    k is Label || k is Interface || k is InterfaceWithRole
}

/// The default a type class carries, if any.
pub open spec fn kind_default(k: McParamTypeKind) -> Option<Seq<char>> {
    match k {
        McParamTypeKind::UnitValueDefault { unit: _, default } => Some(default@),
        McParamTypeKind::EnumClassDefault { class_name: _, default } => Some(default@),
        _ => None,
    }
}

/// Model of a type class: its strings as text.
pub enum TypeKindModel {
    Unknown,
    Label,
    BareNumeric,
    Interface(Seq<char>, Seq<Seq<char>>),
    InterfaceWithRole(Seq<char>, Seq<char>),
    UnitValue(McUnit),
    UnitValueDefault(McUnit, Seq<char>),
    CompoundUnit(McUnit),
    EnumClass(Seq<char>),
    EnumClassDefault(Seq<char>, Seq<char>),
}

impl View for McParamTypeKind {
    type V = TypeKindModel;

    open spec fn view(&self) -> TypeKindModel {
        match self {
            McParamTypeKind::Unknown => TypeKindModel::Unknown,
            McParamTypeKind::Label => TypeKindModel::Label,
            McParamTypeKind::BareNumeric => TypeKindModel::BareNumeric,
            McParamTypeKind::Interface { class_name, params } => TypeKindModel::Interface(
                class_name@,
                texts(params@),
            ),
            McParamTypeKind::InterfaceWithRole { class_name, role_val } => TypeKindModel::InterfaceWithRole(
                class_name@,
                role_val@,
            ),
            McParamTypeKind::UnitValue { unit } => TypeKindModel::UnitValue(*unit),
            McParamTypeKind::UnitValueDefault { unit, default } => TypeKindModel::UnitValueDefault(
                *unit,
                default@,
            ),
            McParamTypeKind::CompoundUnit { head } => TypeKindModel::CompoundUnit(*head),
            McParamTypeKind::EnumClass { class_name } => TypeKindModel::EnumClass(class_name@),
            McParamTypeKind::EnumClassDefault { class_name, default } => TypeKindModel::EnumClassDefault(
                class_name@,
                default@,
            ),
        }
    }
}

impl McParamTypeKind {
    /// A deep copy.
    pub fn copy(&self) -> (r: McParamTypeKind)
        ensures
            r@ == self@,
    {
        match self {
            McParamTypeKind::Unknown => McParamTypeKind::Unknown,
            McParamTypeKind::Label => McParamTypeKind::Label,
            McParamTypeKind::BareNumeric => McParamTypeKind::BareNumeric,
            McParamTypeKind::Interface { class_name, params } => McParamTypeKind::Interface {
                class_name: copy_string(class_name),
                params: copy_strings(params.as_slice()),
            },
            McParamTypeKind::InterfaceWithRole { class_name, role_val } => McParamTypeKind::InterfaceWithRole {
                class_name: copy_string(class_name),
                role_val: copy_string(role_val),
            },
            McParamTypeKind::UnitValue { unit } => McParamTypeKind::UnitValue { unit: *unit },
            McParamTypeKind::UnitValueDefault { unit, default } => McParamTypeKind::UnitValueDefault {
                unit: *unit,
                default: copy_string(default),
            },
            McParamTypeKind::CompoundUnit { head } => McParamTypeKind::CompoundUnit { head: *head },
            McParamTypeKind::EnumClass { class_name } => McParamTypeKind::EnumClass {
                class_name: copy_string(class_name),
            },
            McParamTypeKind::EnumClassDefault { class_name, default } => McParamTypeKind::EnumClassDefault {
                class_name: copy_string(class_name),
                default: copy_string(default),
            },
        }
    }
}

impl Default for McParamType {
    /// An unknown type with no direction.
    fn default() -> (r: McParamType)
        ensures
            r.kind is Unknown,
            r.direction is None,
    {
        McParamType { kind: McParamTypeKind::Unknown, direction: None }
    }
}

impl McParamType {
    /// A deep copy.
    pub fn copy(&self) -> (r: McParamType)
        ensures
            r.kind@ == self.kind@,
            r.direction == self.direction,
    {
        McParamType { kind: self.kind.copy(), direction: self.direction }
    }

    /// Whether the parameter is a port (category A).
    pub fn is_port(&self) -> (r: bool)
        ensures
            r == kind_is_port(self.kind),
    {
        match self.kind {
            McParamTypeKind::Label | McParamTypeKind::Interface { .. }
            | McParamTypeKind::InterfaceWithRole { .. } => true,
            _ => false,
        }
    }

    /// Whether the type is known: annotated or inferred.
    pub fn is_explicitly_typed(&self) -> (r: bool)
        ensures
            r == !(self.kind is Unknown),
    {
        match self.kind {
            McParamTypeKind::Unknown => false,
            _ => true,
        }
    }

    /// The default value the type carries.
    pub fn default_value(&self) -> (r: Option<&String>)
        ensures
            match r {
                Some(s) => kind_default(self.kind) == Some(s@),
                None => kind_default(self.kind) is None,
            },
    {
        match &self.kind {
            McParamTypeKind::UnitValueDefault { default, .. } => Some(default),
            McParamTypeKind::EnumClassDefault { default, .. } => Some(default),
            _ => None,
        }
    }
}

} // verus!
