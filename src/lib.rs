use vstd::prelude::*;

pub mod classify;
pub mod component;
pub mod emit;
pub mod error;
pub mod order;
pub mod props;
pub mod token;

verus! {

} // verus!
