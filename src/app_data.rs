//! The plain records that the application keeps beside its timer.

use vstd::prelude::*;

verus! {

/// One entry of a day's to-do list.
#[derive(Clone, Debug)]
pub struct TodoItem {
    pub text: String,
    pub completed: bool,
}

/// A reward that the user promised themselves, and whether it was earned.
#[derive(Clone, Debug)]
pub struct Reward {
    pub name: String,
    pub completed: bool,
}

} // verus!
