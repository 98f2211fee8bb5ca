//! The hash join: its model, its hash tables and its variants.
pub mod assemble;
pub mod dispatch;
pub mod inner;
pub mod laws;
pub mod left;
pub mod model;
pub mod outer;
pub mod pattern;
pub mod semi_anti;
pub mod table;
pub mod validate;
pub mod variants;
