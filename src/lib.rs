//! Front end and tree-walking evaluator of a small dynamically typed
//! scripting language: scanner, recursive-descent parser, scope chain and
//! evaluator, each with its behaviour stated as a contract.

pub mod token;
mod text;

pub use token::{Token, TokenType};
pub mod scanner;

pub use scanner::{scan, Scanner, ScannerError};
pub mod ast;

pub use ast::{Expr, Statement};
pub mod parser;

pub use parser::{parse, Parser, ParserError};
pub mod environment;
pub mod semantics;
pub mod value;

pub use environment::Environment;
pub use value::{EvaluatedExpr, InterpreterError, Number, Operand};
pub mod interpreter;

pub use interpreter::Interpreter;
pub mod error;
pub mod laws;

pub use error::FacingRoxError;
