use vstd::prelude::*;

pub mod text;
pub mod json;
pub mod paths;
pub mod utils;
pub mod ai;
pub mod db;
pub mod commands;
pub mod indexer;
pub mod extractors;

verus! {

} // verus!
