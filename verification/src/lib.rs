//! Row-level building blocks of a streaming dataflow engine: helpers that
//! emit machine code against a packed, nullable row layout, a compact string
//! value, a cursor over sorted columnar leaves, and a top-k group transform.
pub mod algebra;
pub mod codegen;
pub mod decimal;
pub mod thin_str;
pub mod topk;
pub mod trace;
