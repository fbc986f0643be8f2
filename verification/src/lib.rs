//! Semantic core of a packet description language: the declaration and field
//! model, the symbol scope built over a file, and bit-width resolution.

pub mod ast;
pub mod range;
pub mod scope;
pub mod width;
pub mod laws;
