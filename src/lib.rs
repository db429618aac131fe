//! Compiler for a small image and material scripting language.
//!
//! Statements are compiled into a flat instruction sequence for one entry
//! function, with a linear memory holding fixed-size material records and a
//! table of imported host functions, then encoded as a WebAssembly module.
pub mod ast;
pub mod bindings;
pub mod codegen;
pub mod compiler;
pub mod deps;
pub mod depth;
pub mod image_library;
pub mod instr;
pub mod laws;
pub mod memory;
pub mod symbol;
pub mod wasm;
