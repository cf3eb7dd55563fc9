//! The library's error value.

use vstd::prelude::*;

verus! {

/// An error carrying a human-readable message.
#[derive(Debug)]
pub struct MyError {
    message: String,
}

impl View for MyError {
    type V = Seq<char>;

    closed spec fn view(&self) -> Seq<char> {
        self.message@
    }
}

impl MyError {
    /// An error with the given message.
    pub fn new(message: String) -> (r: MyError)
        ensures
            r@ == message@,
    {
        MyError { message }
    }

    /// The message.
    pub fn message(&self) -> (r: &String)
        ensures
            r@ == self@,
    {
        &self.message
    }
}

} // verus!
