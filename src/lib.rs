use vstd::prelude::*;

pub mod contract;
pub mod laws;
pub mod state;
pub mod types;

verus! {

} // verus!
