//! Small exercises: an employee directory with a text interface, a number
//! guessing game, and a few routines on numbers and words.
use vstd::prelude::*;

mod back_of_house;
pub mod directory;
pub mod fibonacci;
mod front_of_house;
pub mod guessing;
pub mod lines;
pub mod order;
pub mod pig_latin;
pub mod session;
pub mod stats;
pub mod text;

pub use crate::front_of_house::hosting;

verus! {

/// Puts a party on the waiting list, naming the function three ways.
pub fn eat_at_restaurant() {
    crate::front_of_house::hosting::add_to_waitlist();
    front_of_house::hosting::add_to_waitlist();
    hosting::add_to_waitlist();
}

fn serve_order() {
}

/// The place for examples of panicking on a bug; it does nothing.
pub fn unrecoverable() {
}

} // verus!
