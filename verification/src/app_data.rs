//! A one-bit marker that request handlers share between calls.

use vstd::prelude::*;

verus! {

/// A flag that flips each time it is advanced.
pub struct CustomData {
    task_id: bool,
}

impl View for CustomData {
    type V = bool;

    closed spec fn view(&self) -> bool {
        self.task_id
    }
}

impl CustomData {
    /// The current value of the flag.
    pub fn task_id(&self) -> (id: bool)
        ensures
            id == self@,
    {
        self.task_id
    }

    /// Flips the flag.
    pub fn advance(&mut self)
        ensures
            final(self)@ == !old(self)@,
    {
        self.task_id = !self.task_id;
    }

    /// A fresh marker; its flag is off.
    pub fn new() -> (data: Self)
        ensures
            data@ == false,
    {
        Self { task_id: false }
    }
}

} // verus!
