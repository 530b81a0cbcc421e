use vstd::prelude::*;

pub mod environment;
pub mod error;
pub mod expression;
pub mod interpreter;
pub mod numbers;
pub mod parser;
pub mod scanner;
pub mod stmt;
pub mod token;
pub mod values;

verus! {

} // verus!
