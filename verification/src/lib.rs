//! Execution core of a small Lisp-family language: values, environments,
//! the builtin library and the evaluator.
//!
//! - [`types`]: the values of the language and their mathematical model.
//! - [`number`], [`text`]: numbers as bit patterns, and strings as sequences of characters.
//! - [`equality`], [`map`], [`atoms`], [`env`]: equality of values, maps, mutable cells and
//!   environments.
//! - [`reader`], [`printer`]: text to values and back; [`roundtrip`] proves that reading is
//!   the inverse of printing.
//! - [`builtins`]: the native functions.
//! - [`eval`]: the evaluator, a machine that takes steps and asks its host for input and
//!   output.
//! - [`semantics`]: what evaluation comes to, in terms of the parts of a form;
//!   [`simulation`] proves that the machine comes to that.
//! - [`laws`]: what holds of all programs.
pub mod atoms;
pub mod builtins;
pub mod env;
pub mod equality;
pub mod eval;
pub mod laws;
pub mod map;
pub mod number;
pub mod printer;
pub mod reader;
pub mod roundtrip;
pub mod semantics;
pub mod simulation;
pub mod text;
pub mod types;
