//! Compile-time HTML template compiler.
//!
//! Template files are parsed by a recursive-descent grammar into a
//! [`Template`](grammar::Template) document (preamble statements, argument
//! declarations, and a body of comment / text / expression nodes), which a
//! code generator then renders into the source text of a render function.
//! A batch entry point compiles a list of named templates into one aggregate
//! source artifact holding every successfully compiled render function plus
//! exactly one copy of the runtime support block.

pub mod chars;
pub mod scan;
pub mod grammar;
pub mod emit;
pub mod render;
pub mod html;
pub mod batch;
