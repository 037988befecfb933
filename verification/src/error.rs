//! Failures that stop a run before any request is sent.

use vstd::prelude::*;

verus! {

/// A fatal configuration or setup failure. Failures of single requests are
/// never reported this way: they are counted as outcomes.
#[derive(Debug)]
pub enum SetupError {
    /// The concurrency limit is zero, so no request could ever be admitted.
    ZeroConcurrency,
    /// The HTTP client could not be built; the text is the transport's own.
    Client(String),
}

impl SetupError {
    /// What the error says to the user.
    pub open spec fn spec_message(&self) -> Seq<char> {
        match self {
            SetupError::ZeroConcurrency => "concurrency must be at least 1"@,
            SetupError::Client(reason) => reason@,
        }
    }

    /// A line of text that describes the failure.
    pub fn message(&self) -> (text: String)
        ensures
            text@ == self.spec_message(),
    {
        match self {
            SetupError::ZeroConcurrency => String::from_str("concurrency must be at least 1"),
            SetupError::Client(reason) => reason.clone(),
        }
    }
}

} // verus!
