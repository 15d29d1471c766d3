//! A small interpreter for a Scheme-like expression language.
//!
//! Numbers are IEEE-754 binary64 values, carried as their bit patterns.
//! Reading a numeral and applying an arithmetic or comparison operator to
//! two numbers is work for the host: when evaluation needs such a fact that
//! the host has not supplied yet, it stops and names the fact it needs
//! (see `numeric`).
use vstd::prelude::*;

pub mod env;
pub mod eval;
pub mod halt;
pub mod lexer;
pub mod numeric;
pub mod operators;
pub mod parser;

verus! {

} // verus!
