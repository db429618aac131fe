use vstd::prelude::*;

use crate::ast::Opcode;

verus! {

/// Value types of the target instruction set.
#[derive(Clone, Copy, Debug, PartialEq, Eq, Structural)]
pub enum ValType {
    I32,
    I64,
    F32,
    F64,
}

/// One instruction of the entry function's body.
///
/// `LocalGet` and `LocalSet` name local slots by index, `Call` names an
/// imported function by index. `Load` pops an address and pushes the word
/// stored there; `Store` pops a value and an address and writes the word.
#[derive(Clone, Copy, Debug, PartialEq, Eq, Structural)]
pub enum Instr {
    Const(i32),
    LocalGet(u32),
    LocalSet(u32),
    Binary(Opcode),
    Call(u32),
    Load,
    Store,
}

/// Errors reported by semantic analysis and code generation.
#[derive(Clone, Copy, Debug, PartialEq, Eq, Structural)]
pub enum CompileError {
    /// A variable name that reads as an integer.
    LexicalNaming,
    /// A name that is not bound.
    UndefinedReference,
    /// A value of the wrong storage kind.
    TypeMismatch,
    /// A call with the wrong number of arguments.
    ArityMismatch,
    /// A channel that the material's schema does not have.
    UnknownChannel,
    /// An alias that would make a variable depend on itself.
    DependencyCycle,
    /// A statement or expression shape the language does not support.
    UnsupportedForm,
    /// A counter, a memory offset or the nesting depth ran past its bound.
    LimitExceeded,
}

} // verus!
