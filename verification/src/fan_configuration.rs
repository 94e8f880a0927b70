//! Errors of the fan characterisation.

use vstd::prelude::*;

use crate::text::concat_str;

verus! {

/// An error met while characterising a fan.
#[derive(Debug)]
pub struct Error {
    message: String,
}

impl Error {
    pub fn new(message: String) -> (r: Error)
        ensures
            r.text() == message@,
    {
        Error { message }
    }

    /// The message of this error.
    pub closed spec fn text(&self) -> Seq<char> {
        self.message@
    }

    /// How the error is displayed: `Error(FanConfiguration: <message>)`.
    pub fn to_string(&self) -> (r: String)
        ensures
            r@ == seq!['E', 'r', 'r', 'o', 'r', '(', 'F', 'a', 'n', 'C', 'o', 'n', 'f', 'i', 'g', 'u', 'r', 'a', 't', 'i', 'o', 'n', ':', ' ']
                + self.text() + seq![')'],
    {
        proof {
            reveal_strlit("Error(FanConfiguration: ");
            reveal_strlit(")");
        }
        let mut s = concat_str("Error(FanConfiguration: ", self.message.as_str());
        s.append(")");
        s
    }
}

} // verus!
