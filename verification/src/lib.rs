pub mod text;
pub mod strs;
pub mod mc_literal;
pub mod mc_ida;
pub mod mc_ids;
pub mod ids_order;
pub mod equivalent;
pub mod form;
pub mod errcodes;
pub mod rules;
pub mod attr_keys;
pub mod mc_bus;
pub mod mc_opd;
pub mod mc_param;
pub mod mc_fcall;
pub mod mc_conds;
pub mod mc_param_type;
pub mod mc_paramd;
pub mod enum_classes;
pub mod bind_laws;
pub mod numerals;
pub mod syntax;
pub mod node_ids;
pub mod node_decl;
pub mod node_fcall;
pub mod node_conds;
pub mod node_params;
pub mod node_value;
