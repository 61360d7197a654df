//! An expression-language front end: a lexical scanner, a recursive-descent
//! parser under an operator-precedence grammar, and a tree-walking evaluator
//! that reduces the parsed tree to a runtime value.

pub mod ast_printer;
pub mod expr;
pub mod interpreter;
pub mod laws;
pub mod numeric;
pub mod object;
pub mod parser;
pub mod reporter;
pub mod runtime_error;
pub mod scanner;
pub mod token;

pub use ast_printer::AstPrinter;
pub use expr::Expr;
pub use interpreter::Interpreter;
pub use object::Object;
pub use parser::Parser;
pub use reporter::{Diagnostic, Rox};
pub use scanner::Scanner;
pub use runtime_error::RuntimeError;
pub use token::{Token, TokenType};
