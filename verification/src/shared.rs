//! Shared-ownership handles for immutable assets.
//!
//! Textures and tilesets are shared read-only by many sprites and tilemaps;
//! nothing mutates them after construction, so a cloned handle always
//! denotes the same value.

use std::rc::Rc;
use vstd::prelude::*;

verus! {

/// Relies on std's Rc::clone: the clone is a new handle to the same
/// allocation, so it denotes the same value as the original.
#[verifier::external_body]
pub fn rc_clone<T>(rc: &Rc<T>) -> (r: Rc<T>)
    ensures
        r == *rc,
{
    Rc::clone(rc)
}

} // verus!
