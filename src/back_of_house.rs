//! The kitchen.
use vstd::prelude::*;

verus! {

#[allow(dead_code)]
fn fix_incorrect_order() {
    cook_order();
    super::serve_order();
}

fn cook_order() {
}

} // verus!
