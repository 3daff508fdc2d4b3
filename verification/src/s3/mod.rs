//! S3 domain parsing and validated value types.
use vstd::prelude::*;

pub mod target;
pub mod types;

verus! {

} // verus!
