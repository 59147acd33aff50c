//! Verified building blocks of a JavaScript bundler and CSS printer: memory
//! helpers, type-name handling, CSS style rules with their printer and
//! minifier, and the bundler's value types.

pub mod bundler;
pub mod bytes;
pub mod css;
pub mod hashing;
pub mod memory;
pub mod meta;
pub mod postgres;
pub mod shell;
pub mod url;
