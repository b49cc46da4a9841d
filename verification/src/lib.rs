//! Front end of a small imperative scripting language: a lexer from source
//! text to tokens, and a recursive-descent parser from tokens to a forest of
//! syntax nodes. Every function carries a contract over the mathematical
//! models in `token` and `ast`, and Verus proves the code against it.

pub mod token;
pub mod text;
pub mod decimal;
pub mod lexer;
pub mod ast;
pub mod grammar;
pub mod parser;
pub mod outline;
pub mod compiler;
pub mod laws;
