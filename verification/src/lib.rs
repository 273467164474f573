pub mod ast;
pub mod decimal;
pub mod error;
pub mod grammar;
pub mod lexer;
pub mod parser;
pub mod precedence;
pub mod soundness;
pub mod text;
pub mod token;
pub mod token_type;
