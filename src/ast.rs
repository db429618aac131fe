use vstd::prelude::*;

verus! {

/// Binary arithmetic operators on 32-bit signed integers.
#[derive(Clone, Copy, Debug, PartialEq, Eq, Structural)]
pub enum Opcode {
    Mul,
    Div,
    Add,
    Sub,
}

/// Expressions of the language.
pub enum Expr {
    Number(i32),
    Variable(String),
    Op(Box<Expr>, Opcode, Box<Expr>),
    Call(String, Vec<Box<Expr>>),
    Error,
}

/// Statements of the language.
pub enum Statement {
    /// `var ident:tag = init;`
    Declare(String, String, Option<Box<Expr>>),
    /// `path = expr;` where the path is a variable or `material.channel`.
    Assignment(Vec<String>, Box<Expr>),
    Block(Vec<Statement>),
    /// A call whose result is not stored: `show(...)` or `logger(...)`.
    Call(String, Vec<Box<Expr>>),
}

/// The head of a function: its name and parameter names.
pub struct Prototype {
    pub identifier: String,
    pub arguments: Vec<String>,
}

impl Prototype {
    pub fn new(identifier: String, arguments: Vec<String>) -> (r: Prototype)
        ensures
            r.identifier == identifier,
            r.arguments == arguments,
    {
        Prototype { identifier, arguments }
    }
}

/// A function: its head and its body.
pub struct Function {
    pub prototype: Prototype,
    pub statements: Vec<Statement>,
}

impl Function {
    pub fn new(prototype: Prototype, statements: Vec<Statement>) -> (r: Function)
        ensures
            r.prototype == prototype,
            r.statements == statements,
    {
        Function { prototype, statements }
    }
}

} // verus!
