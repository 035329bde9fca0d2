//! The script language: values, tokens, the lexer, the parser and the
//! command executor.

pub mod value;
pub mod table;
pub mod context;
pub mod text;
pub mod lexer;
pub mod parser;
pub mod session;
pub mod command_executor;
