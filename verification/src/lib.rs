//! A Thrift-style IDL frontend: a character-level tokenizer, a
//! recursive-descent parser producing immutable definition nodes, a
//! type-mapping engine for the primitive IDL types, and an orchestrator
//! that turns parsed definitions into template-ready data records.
use vstd::prelude::*;

pub mod ast;
pub mod codegen;
pub mod laws;
pub mod parser;
pub mod scan;
pub mod token;
pub mod types;

verus! {

} // verus!
