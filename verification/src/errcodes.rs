//! Numeric diagnostic codes, one per registered rule.
use vstd::prelude::*;

verus! {

pub const NET_MULTI_DRIVE: u32 = 4101;
pub const NET_NO_DRIVER: u32 = 4102;
pub const NET_INPUT_UNCONNECTED: u32 = 4103;
pub const NET_NC_CONNECTED: u32 = 4104;
pub const NET_OUTPUT_UNDRIVEN: u32 = 4105;
pub const NET_BACKFEED_RISK: u32 = 4106;
pub const NET_INSTANCE_UNCONNECTED: u32 = 4107;
pub const NET_VOLTAGE_MISMATCH: u32 = 4108;
pub const NET_OUTPUTS_NO_INPUT: u32 = 4109;
pub const NET_POWER_NET_COUNT: u32 = 4110;
pub const NET_MODULE_PORT_UNCONNECTED: u32 = 4111;
pub const NET_DANGLING_ENDPOINT: u32 = 4112;
pub const NET_PARTIAL_CONNECTION: u32 = 4113;
pub const ABSTRACT_PART_UNSELECTED: u32 = 4114;
pub const NET_BIDIR_UNCONNECTED: u32 = 4115;
pub const PULLUP_DEGENERATE: u32 = 4116;
pub const PIN_UNCONNECTED: u32 = 5155;
pub const PIN_CONFLICTING_OPTIONS: u32 = 5156;
pub const GATE_LITERAL_POINT: u32 = 5201;
pub const GATE_SHORT_PASSIVE: u32 = 5202;
pub const GATE_SHORT_RAIL: u32 = 5203;
pub const GATE_RAIL_ALIAS: u32 = 5204;
pub const GATE_SHORT_LANE: u32 = 5205;
pub const GATE_UNRESOLVED_UNIT: u32 = 5206;
pub const GATE_MEGANET: u32 = 5207;
pub const GATE_GHOST_INSTANCE: u32 = 5208;
pub const GATE_PHANTOM_PATH: u32 = 5209;
pub const GATE_FLOATING_POWER_PIN: u32 = 5210;
pub const GATE_SYMBOL_CONSERVATION: u32 = 5211;
pub const GATE_SPLIT_RAIL: u32 = 5212;
pub const GATE_DANGLING_PORT: u32 = 5213;
pub const GATE_ORPHAN_INSTANCE: u32 = 5214;
pub const GATE_SYNTHETIC_PIN: u32 = 5215;
pub const DUP_CMIE_CROSS_FILE: u32 = 6001;
pub const DUP_WITHIN: u32 = 6002;
pub const DUP_ENUM_VALUE: u32 = 6003;
pub const ENUM_DUPLICATE_VALUE: u32 = 6004;
pub const ENUM_MEMBER_DOT: u32 = 6005;
pub const ENUM_MEMBER_LEADING_DIGIT: u32 = 6006;
pub const ENUM_MEMBER_RESERVED: u32 = 6007;
pub const ATTR_SELF_REFERENTIAL: u32 = 6008;
pub const RANGE_REVERSED: u32 = 6009;
pub const ATTR_RESERVED_KEYWORD: u32 = 6010;
pub const ROLE_EMPTY_BODY: u32 = 6011;
pub const ATTR_NESTING_TOO_DEEP: u32 = 6012;
pub const ATTR_PIN_GROUP_UNDEFINED: u32 = 6013;
pub const PINS_PLUS_AND_PINS_CONFLICT: u32 = 6014;
pub const COND_EMPTY_BODY: u32 = 6015;
pub const COND_IF_WITHOUT_ELSE: u32 = 6016;
pub const COND_DUPLICATE: u32 = 6017;
pub const PIN_NC_COMPONENT_LEVEL: u32 = 6018;
pub const PIN_IO_MIX_IN_OUT: u32 = 6019;
pub const PIN_IO_MIX_OUTPUT_POWER: u32 = 6020;
pub const PIN_IO_MIX_ANALOG_POWER: u32 = 6021;
pub const PARAM_PIN_NAME_SHADOW: u32 = 6022;
pub const MODULE_STUB: u32 = 6023;
pub const DEF_AMBIGUOUS_NAME: u32 = 6024;
pub const DEF_REF_NOT_LOADED: u32 = 6025;
pub const COMPONENT_INT_SUFFIX: u32 = 6026;
pub const ENUM_INT_SUFFIX: u32 = 6027;
pub const USE_SELF_IMPORT: u32 = 6028;
pub const USE_ALIAS_COLLISION: u32 = 6029;
pub const USE_VERSIONED_TARGET_NOT_FOUND: u32 = 6030;
pub const USE_IMPORT_SYMBOL_NOT_FOUND: u32 = 6031;
pub const USE_REEXPORT_SYMBOL_NOT_FOUND: u32 = 6032;
pub const IFACE_PINS_NOT_ALL_BOUND: u32 = 6033;
pub const IFACE_ROLE_NOT_FOUND: u32 = 6034;
pub const IFACE_NOT_LOADED: u32 = 6035;
pub const IFACE_DEPRECATED_CMIE: u32 = 6036;
pub const NAME_COMPONENT_LOWERCASE: u32 = 6037;
pub const NAME_PIN_MIXED_CONVENTION: u32 = 6038;
pub const NAME_INSTANCE_SINGLE_CHAR: u32 = 6039;
pub const NAME_PORT_INST_SHADOWS_CMIE: u32 = 6040;
pub const NAME_PARAM_SHADOWS_CMIE: u32 = 6041;
pub const PORT_DUPLICATE_NAME: u32 = 6042;
pub const NAME_PARAM_AND_INSTANCE: u32 = 6043;
pub const INST_DECLARED_MULTIPLE: u32 = 6044;
pub const FUNC_PARAMS_NO_BODY: u32 = 6045;
pub const REF_INTEGRITY: u32 = 6046;
pub const SPEC_KEY_UNDECLARED_PARAM: u32 = 6047;
pub const EXPR_THIS_TOP_LEVEL: u32 = 6048;
pub const EXPR_PLACEHOLDER_ONLY: u32 = 6049;
pub const ATTR_LARGE_INT: u32 = 6050;
pub const ATTR_INFINITE_FLOAT: u32 = 6051;
pub const RANGE_SINGLE_ELEMENT: u32 = 6052;
pub const IDX_MULTIPLE_SLICE_SPEC: u32 = 6053;
pub const NAME_PORT_SHADOWS_CMIE: u32 = 6054;
pub const ENUM_SINGLE_VALUE: u32 = 6055;
pub const FUNC_EMPTY_BODY: u32 = 6056;
pub const IFACE_PIN_COUNT_MISMATCH: u32 = 6057;
pub const COMPONENT_EMPTY: u32 = 6058;
pub const COMPONENT_NO_PINS: u32 = 6059;
pub const INTERFACE_EMPTY: u32 = 6060;
pub const PARAM_INT_DEFAULT_STRING: u32 = 6061;
pub const PARAM_STRING_DEFAULT_NUMERIC: u32 = 6062;
pub const PARAM_UV_DEFAULT_NO_UNIT: u32 = 6063;
pub const DEFINE_NO_ATTRS: u32 = 6064;
pub const DEFINE_NON_ATTR_CLAUSE: u32 = 6065;
pub const INST_CLASS_NOT_LOADED: u32 = 6066;
pub const BUS_DUPLICATE_MEMBER: u32 = 6067;
pub const COMPONENT_MIXED_CASE: u32 = 6068;
pub const PARAM_RESERVED_KEYWORD: u32 = 6069;
pub const FUNC_SHARES_NAME_WITH_PORT: u32 = 6070;
pub const PARAM_NEGATIVE_DEFAULT: u32 = 6071;
pub const PARAM_FLOAT_DEFAULT_INVALID: u32 = 6072;
pub const SPEC_KEY_DUPLICATE: u32 = 6073;
pub const FUNC_FLOATING_LABEL: u32 = 6074;
pub const SINGLE_USE_INLINE_NET: u32 = 6075;
pub const INST_ARG_COUNT_MISMATCH: u32 = 6076;
pub const ROLE_NAME_SHADOWS: u32 = 6077;
pub const USE_MIXED_PATH_SEPARATORS: u32 = 6078;
pub const INST_THIS_TYPE: u32 = 6079;
pub const COND_SINGLE_BINARY: u32 = 6080;
pub const MODULE_PORT_UNUSED: u32 = 6081;
pub const POWER_PIN_NO_VOLTAGE: u32 = 6082;
pub const HW_PIN_NUMBER_GAP: u32 = 6083;
pub const HW_PIN_COUNT_HIGH: u32 = 6084;
pub const HW_ZERO_PINS_WITH_PARAMS: u32 = 6085;
pub const HW_IFACE_ROLE_UNBOUND: u32 = 6086;
pub const HW_ALL_SAME_IO_TYPE: u32 = 6087;
pub const HW_FUNC_PARAM_SHADOWS_PIN: u32 = 6088;
pub const TYPE_INCOMPATIBLE: u32 = 6089;
pub const VARIANT_BASE_NON_ABSTRACT: u32 = 6090;
pub const ADOPTS_NON_CAPABILITY: u32 = 6091;
pub const ADOPTED_FUNC_AMBIGUOUS: u32 = 6092;
pub const CAPABILITY_SIGNAL_MISSING: u32 = 6093;

} // verus!
