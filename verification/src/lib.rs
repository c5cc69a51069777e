//! Generator for a fixed-size integer downcast macro library.
//!
//! For every bit width that is a multiple of 8 between 8 and 256 the
//! generator derives a type name, an all-ones hexadecimal mask, and the
//! decision whether a size-optimized "mini" variant applies; it then
//! substitutes those values into fixed text templates and joins the
//! resulting blocks into one document.

pub mod assemble;
pub mod document;
pub mod laws;
pub mod mask;
pub mod occurrence;
pub mod templates;
