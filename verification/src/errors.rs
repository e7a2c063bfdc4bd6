//! The error taxonomy of the engine: invalid input (an empty or
//! undecodable pass-through buffer), and encoding/serialization
//! failures.  Each error renders as a descriptive, human-readable
//! message naming the stage that failed.

use vstd::prelude::*;

verus! {

/// What went wrong during generation.
#[derive(Debug)]
pub enum RenderError {
    /// A pass-through buffer was empty.
    EmptyInput,
    /// A base64 pass-through payload could not be decoded; holds the
    /// decoder's message.
    DecodeFailed(String),
    /// A base64 pass-through payload decoded to zero bytes.
    EmptyDecoded,
    /// The PDF serializer reported a failure; holds its message.
    SaveFailed(String),
}

impl RenderError {
    /// The human-readable description of the failure.
    pub fn message(&self) -> (m: String)
        ensures
            *self is EmptyInput ==> m@ == "Received empty PDF data"@,
            *self matches RenderError::DecodeFailed(e) ==> m@ == "Failed to decode base64 PDF: "@
                + e@,
            *self is EmptyDecoded ==> m@ == "Decoded PDF bytes are empty"@,
            *self matches RenderError::SaveFailed(e) ==> m@ == "Failed to save PDF: "@ + e@,
    {
        match self {
            RenderError::EmptyInput => String::from_str("Received empty PDF data"),
            RenderError::DecodeFailed(e) => {
                let mut m = String::from_str("Failed to decode base64 PDF: ");
                m.append(e.as_str());
                m
            },
            RenderError::EmptyDecoded => String::from_str("Decoded PDF bytes are empty"),
            RenderError::SaveFailed(e) => {
                let mut m = String::from_str("Failed to save PDF: ");
                m.append(e.as_str());
                m
            },
        }
    }
}

} // verus!
