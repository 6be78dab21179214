//! Checksum-verified directory archiving: digests, manifests, artifact naming
//! and the decision logic of the archiving pipeline.

use vstd::prelude::*;

pub mod error;
pub mod hex;
pub mod hashing;
pub mod manifest;
pub mod naming;
pub mod pipeline;
pub mod tree;

verus! {

} // verus!
