use vstd::prelude::*;

pub mod attributes;
pub mod cli;
pub mod context;
pub mod error;
pub mod file;
pub mod grammar;
pub mod lexer;
pub mod node;
pub mod token;

verus! {

} // verus!
