//! A tree-walking interpreter for a small dynamically typed, lexically scoped
//! scripting language.
//!
//! A program passes through four stages:
//!
//! - the lexer ([`scanner`]) turns source text into tokens ([`tokens`]);
//! - the parser ([`parser`]) turns tokens into trees ([`ast`],
//!   [`statement`]) by the grammar of [`grammar`], and recovers from syntax
//!   errors to report more than one;
//! - the resolver ([`resolver`]) notes, for every use of a variable that a
//!   block declares, how many scopes lie between the use and the
//!   declaration ([`resolution`]);
//! - the interpreter ([`interpreter`]) evaluates the trees over scoped
//!   environments ([`environment`]), with first-class functions and
//!   closures ([`function`], [`object`], [`class`]).
//!
//! The interpreter is a machine that is stepped by its caller
//! ([`machine`]). Numbers are IEEE-754 doubles, kept as their bits
//! ([`numbers`]): the machine compares and negates them itself, and asks its
//! caller for sums, differences, products and quotients, for the double
//! that a numeral denotes, and for the time. It hands its caller what a
//! program prints. [`lox`] ties the stages together for one session.
//!
//! Each stage has a mathematical model, and its code is proved to compute
//! what the model says. [`laws`] and [`closures`] hold what is proved of
//! the models themselves.

pub mod ast;
pub mod class;
pub mod closures;
pub mod environment;
pub mod errors;
pub mod function;
pub mod grammar;
pub mod interpreter;
pub mod laws;
pub mod lox;
pub mod machine;
pub mod numbers;
pub mod object;
pub mod parser;
pub mod resolution;
pub mod resolver;
pub mod scanner;
pub mod statement;
pub mod text;
pub mod tokens;
pub mod wrap;
