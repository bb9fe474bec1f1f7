//! Keeps classic Unix permission bits enforced on directory trees: the mode
//! policy, the octal notation of its settings, and a walker that applies the
//! policy to every entry of a tree, one filesystem operation at a time.

use vstd::prelude::*;

pub mod config;
pub mod octal;
pub mod policy;
pub mod walker;

verus! {

} // verus!
