//! A line-oriented command interpreter core: a quoting-aware lexer, a parser
//! for command lines with output redirections, a builtin registry, and the
//! decisions of an interactive line editor with tab completion.

pub mod text;
pub mod token;
pub mod lexer;
pub mod parser;
pub mod order;
pub mod completion;
pub mod editor;
pub mod commands;
pub mod redirection;
pub mod splitting;
