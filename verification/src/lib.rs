//! A small dynamically typed scripting language: lexer, parser, runtime
//! values, scope chain and a resumable tree-walking evaluator.
//!
//! The pipeline is [`lexer::Lexer`] (text to tokens), [`parser::Parser`]
//! (tokens to an [`ast::ASTNode`]) and [`interpreter::Interpreter`] (the
//! tree, walked against an [`environment::Environment`]).
//!
//! Everything in this crate is free of I/O and of floating-point arithmetic.
//! Whatever needs either (console output, reading a line, arithmetic on
//! reals) is handed to the embedding host as a [`machine::Action`]; the
//! host answers with a [`machine::Event`].
//!
//! Every function is verified against a mathematical model: [`grammar`]
//! for the parser, [`operations`], [`methods`] and [`display`] for what is
//! computed on values, [`machine`] for the evaluator. What follows from
//! those models for every program is proved in [`laws`] (operators,
//! methods, scopes), [`progress`] (every parse moves forward) and
//! [`balance`] (every scope that is opened is closed again).
pub mod error;
pub mod text;
pub mod number;
pub mod lexer;
pub mod ast;
pub mod grammar;
pub mod parser;
pub mod progress;
pub mod values;
pub mod fields;
pub mod reals;
pub mod equality;
pub mod operations;
pub mod methods;
pub mod display;
pub mod built_in_functions;
pub mod environment;
pub mod machine;
pub mod interpreter;
pub mod balance;
pub mod laws;
