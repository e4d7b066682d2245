//! A proof assistant kernel for a cubical dependent type theory with an
//! interval, path types and Kan operations, together with a proof-graph
//! layer, an interactive proof state with tactics and search, and the
//! bridges between them.

pub mod check;
pub mod codec;
pub mod construction;
pub mod access;
pub mod description;
pub mod errors;
pub mod formal;
pub mod gpu;
pub mod typecache;
pub mod goals;
pub mod eval;
pub mod kan;
pub mod line;
pub mod normalize;
pub mod parser;
pub mod point;
pub mod proof_bridge;
pub mod repl;
pub mod search;
pub mod smooth;
pub mod tactics;
pub mod syntax;
pub mod text;
pub mod validate;
pub mod value;

use vstd::prelude::*;

verus! {

/// Default step budget handed to the evaluator and the type checker by the
/// convenience entry points.  Each recursive descent consumes one step, so
/// the budget bounds the depth of any single kernel call.
pub const DEFAULT_FUEL: u64 = 4096;

} // verus!
