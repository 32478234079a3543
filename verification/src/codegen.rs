//! Helpers that emit Cranelift instructions against a native row layout.
pub mod builder;
pub mod float_order;
pub mod ir;
pub mod layout;
pub mod null_laws;
pub mod semantics;
pub mod utils;
