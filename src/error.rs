use vstd::prelude::*;

verus! {

/// A simple wrapper round a string, used for errors reported from native
/// calls and for configuration errors detected before any native call.
#[derive(Debug, Clone, PartialEq)]
pub struct Error {
    message: String,
}

impl View for Error {
    type V = Seq<char>;

    /// The text of the message.
    closed spec fn view(&self) -> Seq<char> {
        self.message@
    }
}

impl Error {
    pub fn new(message: String) -> (r: Error)
        ensures
            r@ == message@,
    {
        Error { message }
    }

    pub fn into_string(self) -> (r: String)
        ensures
            r@ == self@,
    {
        self.message
    }

    /// The message, borrowed.
    pub fn as_str(&self) -> (r: &str)
        ensures
            r@ == self@,
    {
        self.message.as_str()
    }

    /// The message, as an owned string.
    pub fn to_string(&self) -> (r: String)
        ensures
            r@ == self@,
    {
        self.message.clone()
    }
}

} // verus!
