//! One sorted partition of a table, and the cursor that walks it.
pub mod column_leaf;
pub mod cursor;
