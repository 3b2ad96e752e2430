use vstd::prelude::*;

verus! {

/// A translation failure, carrying a human-readable description of the
/// structural problem that was found.
#[derive(Debug, PartialEq, Eq)]
pub struct TransmuteError {
    pub details: String,
}

impl View for TransmuteError {
    type V = Seq<char>;

    open spec fn view(&self) -> Seq<char> {
        self.details@
    }
}

impl TransmuteError {
    /// Wraps a message into an error value; the message is kept verbatim.
    pub fn new(details: &str) -> (e: TransmuteError)
        ensures
            e@ == details@,
    {
        TransmuteError { details: details.to_owned() }
    }
}

} // verus!
