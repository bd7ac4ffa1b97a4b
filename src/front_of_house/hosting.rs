//! Greeting guests and seating them.
use vstd::prelude::*;

verus! {

/// Puts a party on the waiting list.
pub fn add_to_waitlist() {
}

#[allow(dead_code)]
fn seat_at_table() {
}

} // verus!
