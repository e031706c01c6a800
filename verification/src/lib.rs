//! Control-flow lowering for a structured, stack-machine style intermediate
//! representation with block-scoped, relative-depth branches.
//!
//! The crate turns one function's statement tree into procedural source text
//! for either of two target dialects: one with unrestricted labeled jumps
//! (`labeled`), and one offering only block-scoped `break`/`continue` on
//! loop-like constructs (`structured`).  A run-length condenser compresses
//! multi-way branch tables into maximal constant-target ranges, and a small
//! addressing module fixes the naming scheme for parameters, locals and
//! temporary registers.  Every emission function states the exact text it
//! appends to the output buffer.

pub mod addressing;
pub mod ast;
pub mod condense;
pub mod emit;
pub mod labeled;
pub mod structured;
