//! The error taxonomy of the backend: lock acquisition failure,
//! a failed window operation, and the marker for stubbed commands.

use vstd::prelude::*;

verus! {

/// Every failure a backend operation can report.
///
/// `LockUnavailable` is raised by the layer that guards the shared
/// store with a lock; the store itself never produces it.
/// `WindowOperationFailed` wraps the reason reported by the host
/// windowing layer. `NotImplemented` marks commands that exist only
/// as placeholders.
#[derive(Debug, Clone, PartialEq, Eq)]
pub enum StoreError {
    LockUnavailable,
    WindowOperationFailed(String),
    NotImplemented,
}

impl StoreError {
    /// The textual message handed across the command boundary.
    pub fn message(&self) -> (r: String)
        ensures
            *self is LockUnavailable ==> r@ == "store lock unavailable"@,
            *self is NotImplemented ==> r@ == "Not implemented"@,
            self matches StoreError::WindowOperationFailed(m) ==> r@ == m@,
    {
        match self {
            StoreError::LockUnavailable => String::from_str("store lock unavailable"),
            StoreError::WindowOperationFailed(m) => m.clone(),
            StoreError::NotImplemented => String::from_str("Not implemented"),
        }
    }
}

} // verus!
