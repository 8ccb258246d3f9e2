//! A text-driven stack calculator.
//!
//! One line of input is parsed by a recursive-descent parser into a command
//! tree (primitive numeric operations, stack manipulation commands, and the
//! composite chain / conditional / repeat constructs), and an execution
//! engine interprets that tree against a numeric stack.
//!
//! Numbers on the stack are IEEE 754 double-precision values, carried
//! throughout the library as their 64-bit representations.  The floating
//! point computations themselves, together with the reading and writing the
//! `input`, `display` and `print` commands perform, happen behind the
//! [`exec::Port`] trait, which the surrounding program implements.

pub mod chars;
pub mod error;
pub mod ops;
pub mod command;
pub mod exec;
pub mod repl;
pub mod laws;
