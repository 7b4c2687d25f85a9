//! The error type surfaced by the loaders.

use vstd::prelude::*;
use vstd::string::StringExecFns;

verus! {

/// An engine error carrying a human-readable description: an unreadable
/// file, a malformed geometry line, or a refused reentrant operation.
#[derive(Debug)]
pub struct RendError {
    details: String,
}

impl View for RendError {
    type V = Seq<char>;

    closed spec fn view(&self) -> Seq<char> {
        self.details@
    }
}

/// Relies on `String::from_utf8_lossy`: on ASCII bytes the resulting
/// characters are exactly the bytes. Used to quote an offending source
/// line inside an error description.
#[verifier::external_body]
pub fn ascii_text_of(b: &Vec<u8>) -> (r: String)
    ensures
        (forall|i: int| 0 <= i < b@.len() ==> b@[i] < 128) ==> r@ == Seq::new(
            b@.len(),
            |i: int| b@[i] as char,
        ),
{
    String::from_utf8_lossy(b).into_owned()
}

impl RendError {
    /// Wrap a description.
    pub fn new(msg: &str) -> (r: RendError)
        ensures
            r@ == msg@,
    {
        RendError { details: String::from_str(msg) }
    }

    /// The stored description.
    pub fn message(&self) -> (r: &str)
        ensures
            r@ == self@,
    {
        self.details.as_str()
    }
}

} // verus!
