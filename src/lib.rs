//! Core of an interactive command-line shell: the line lexer, the parser of
//! output-redirection directives, the command model and the rules that route
//! a command's output streams.

pub mod text;
pub mod redirection;
pub mod lexer;
pub mod command;
pub mod output;
pub mod builtins;
