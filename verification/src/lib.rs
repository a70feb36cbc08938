pub mod text;
pub mod lexer;
pub mod ast;
pub mod grammar;
pub mod parser;
pub mod value;
pub mod scope;
pub mod host;
pub mod show;
pub mod ops;
pub mod strings;
pub mod builtins;
pub mod semantics;
pub mod handles;
pub mod interp;
pub mod laws;
pub mod repl;
