//! An item that holds one number.

use vstd::prelude::*;

verus! {

/// A model item with a single property, `number`, which can be read and
/// replaced.
#[derive(Clone, Copy, Debug, PartialEq, Eq)]
pub struct IntegerObject {
    number: i32,
}

impl View for IntegerObject {
    type V = int;

    /// The number that the object holds.
    closed spec fn view(&self) -> int {
        self.number as int
    }
}

impl IntegerObject {
    /// An object that holds `number`.
    pub fn new(number: i32) -> (object: IntegerObject)
        ensures
            object@ == number,
    {
        IntegerObject { number }
    }

    /// The number that the object holds.
    pub fn number(&self) -> (number: i32)
        ensures
            number == self@,
    {
        self.number
    }

    /// Replaces the number that the object holds.
    pub fn set_number(&mut self, number: i32)
        ensures
            final(self)@ == number,
    {
        self.number = number;
    }
}

impl Default for IntegerObject {
    /// The object that holds zero.
    fn default() -> (object: IntegerObject)
        ensures
            object@ == 0,
    {
        IntegerObject { number: 0 }
    }
}

} // verus!
