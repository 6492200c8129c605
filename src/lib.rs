pub mod error;
pub mod text;
pub mod lexer;
pub mod ast;
pub mod table;
pub mod digest;
pub mod environment;
pub mod deploy;
pub mod transform;
pub mod interpreter;
pub mod resolver;
pub mod sandbox;
pub mod parser;
pub mod laws;
