//! Plain handles standing for live objects of the host engine.

use vstd::prelude::*;

verus! {

/// A handle the host engine issued for one live game object.  The engine
/// owns the handle space; this crate only stores, compares and hands the
/// values back.
pub type Entity = u64;

} // verus!
