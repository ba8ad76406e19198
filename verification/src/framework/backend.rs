//! Requests the compositor sends to its backend.

use vstd::prelude::*;

verus! {

/// A request to the backend.
#[derive(Clone, Copy, Debug, PartialEq, Eq, Structural)]
pub enum BackendRequest {
    /// Switch to the virtual terminal with this number.
    ChangeVT(i32),
}

} // verus!
