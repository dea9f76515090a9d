//! A declarative node-selection language for a data-transformation build
//! tool: a canonical boolean-expression model over method-based criteria,
//! a parser that normalizes surface selector definitions into that model,
//! and an evaluator that turns an expression into the set of matching
//! node identifiers.

pub mod eval;
pub mod expr;
pub mod laws;
pub mod parser;
pub mod surface;
pub mod text;
