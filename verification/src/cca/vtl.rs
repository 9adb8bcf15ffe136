//! The virtual trust levels of a guest.

use vstd::prelude::*;

verus! {

/// A virtual trust level below the paravisor's own.
#[derive(Clone, Copy, Debug, PartialEq, Eq, Structural)]
pub enum GuestVtl {
    Vtl0,
    Vtl1,
}

} // verus!
