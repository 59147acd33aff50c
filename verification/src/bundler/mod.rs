//! The bundler's value types and the small decisions around them.

pub mod compile_result;
pub mod content_hasher;
pub mod entry_point;
pub mod hashbang;
pub mod js_meta;
pub mod paths;
pub mod stable_ref;
pub mod types;
