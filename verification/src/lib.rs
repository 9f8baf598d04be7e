//! Decoder for the WebAssembly binary module format.
//!
//! The decoder turns a raw byte buffer into a structured module: a validated
//! header, a table of typed sections, and fully decoded function bodies.
//! Every decoding function is specified against a mathematical model of the
//! binary grammar (the `sp_*` spec functions), so the value an executable
//! decoder returns is exactly the value the model assigns to its input bytes.

pub mod code_section;
pub mod error;
pub mod function_section;
pub mod instruction;
pub mod leb128;
pub mod module;
pub mod prim;
pub mod section;
pub mod type_section;
pub mod types;

pub use error::DecodeError;
