//! The failures that the signature scheme reports.

use vstd::prelude::*;

verus! {

/// What can go wrong when a key is derived or a signature is checked.
#[derive(Clone, Copy, Debug, PartialEq, Eq, Structural)]
pub enum Error {
    /// The signature does not satisfy the verification equation.
    Verify,
    /// The digest yields fewer bits than the order of the group has.
    BadDigestOutput,
}

impl Error {
    /// The text that describes the failure.
    pub open spec fn spec_message(self) -> Seq<char> {
        match self {
            Error::Verify => "Signature verification failed"@,
            Error::BadDigestOutput => "Bad digest output size"@,
        }
    }

    /// Renders the failure as text.
    pub fn to_string(&self) -> (text: String)
        ensures
            text@ == self.spec_message(),
    {
        match self {
            Error::Verify => "Signature verification failed".to_string(),
            Error::BadDigestOutput => "Bad digest output size".to_string(),
        }
    }
}

} // verus!
