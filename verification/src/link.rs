//! Handles of the channels by which yards and models send messages back to
//! the application, and fresh identifiers for yards.

use vstd::prelude::*;

verus! {

/// A channel that carries a value (such as a yard id or an item index) to
/// the application. The library passes links along and says when to send
/// on them; the application owns the channel behind each number.
#[derive(Copy, Clone, Debug, PartialEq, Eq, Structural)]
pub struct SyncLink {
    pub channel: u64,
}

/// A channel that carries a bare signal to the application.
#[derive(Copy, Clone, Debug, PartialEq, Eq, Structural)]
pub struct Trigger {
    pub channel: u64,
}

/// A random identifier for a new yard or button.
///
/// Calls `rand::random::<i32>()`, which draws from the thread-local
/// generator. Nothing is promised of the value: it is any `i32`.
#[verifier::external_body]
pub(crate) fn random_id() -> (id: i32) {
    rand::random::<i32>()
}

} // verus!
