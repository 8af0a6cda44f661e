//! Reading ISO 10303-21 (STEP) text and encoding its topology as
//! spatial records and hyperedges for InfiniteDB.
use vstd::prelude::*;

pub mod cli;
pub mod emitter;
pub mod encoder;
pub mod kinds;
pub mod parser;
pub mod resolver;
pub mod spaces;
pub mod store;
pub mod text;

verus! {
}
