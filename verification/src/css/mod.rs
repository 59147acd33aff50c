//! CSS values, style rules, their printer and their minifier.

pub mod prefix;
pub mod printer;
pub mod selector;
pub mod declaration;
pub mod rules;
pub mod style;
pub mod outline;
pub mod number;
