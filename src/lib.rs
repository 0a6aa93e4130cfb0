//! Container literals as verified functions, and a splitting view over text.
//!
//! - [`avec`] builds a vector from a fixed-arity list of values, sized exactly.
//! - [`avec_repeat`] and [`avec_repeat_with`] build a vector of a value repeated,
//!   by copying it or by evaluating a producer once per slot.
//! - [`ahashmap`] builds a hash map from a fixed-arity list of key/value pairs.
//! - [`MaxValue`] gives a type's largest representable value.
//! - [`StrSplit`] cuts a text into the pieces between occurrences of a delimiter.

pub mod ahashmap;
pub mod avec;
pub mod max_value;
pub mod strsplit;

pub use ahashmap::ahashmap;
pub use avec::{avec, avec_repeat, avec_repeat_with, CompileFaileTest};
pub use max_value::MaxValue;
pub use strsplit::{until_char, StrSplit};
