//! Deduplication passes for linked SPIR-V modules, and a structural model of
//! the types that a module declares.

pub mod capabilities;
pub mod declarations;
pub mod declarations_laws;
pub mod def;
pub mod duplicates;
pub mod imports;
pub mod imports_laws;
pub mod ir;
pub mod key_table;
pub mod markers;
pub mod outside;
pub mod render;
pub mod rewrite;
pub mod translate;
pub mod translate_laws;
pub mod ty;

pub use crate::def::DefAnalyzer;
pub use crate::duplicates::{
    remove_duplicate_capablities, remove_duplicate_ext_inst_imports, remove_duplicate_types,
    try_remove_duplicate_ext_inst_imports, try_remove_duplicate_types,
};
pub use crate::ir::{Argument, Instruction, Module};
pub use crate::translate::{
    trans_aggregate_type, trans_scalar_type, try_trans_aggregate_type, try_trans_scalar_type,
    TypeError,
};
pub use crate::ty::{AggregateType, ScalarType};
