//! The ways in which computing a commitment can fail.

use vstd::prelude::*;

verus! {

/// Why no commitment was produced. Every failure is final for the call: no
/// partial result is ever returned.
#[derive(Debug, Clone, Copy, PartialEq, Eq)]
pub enum HashError {
    /// A value does not fit the width that its field declares.
    EncodingError,
    /// The extra-args blob does not begin with a known format selector.
    UnsupportedExtraArgsFormat,
    /// The format selector is known, but the bytes after it do not have the
    /// shape of that format.
    MalformedExtraArgs,
}

impl HashError {
    /// A short description for logs.
    pub fn message(&self) -> (s: &'static str)
        ensures
            s@ == match *self {
                HashError::EncodingError => "value exceeds the width of its field"@,
                HashError::UnsupportedExtraArgsFormat => "unsupported extra args format"@,
                HashError::MalformedExtraArgs => "malformed extra args"@,
            },
    {
        match self {
            HashError::EncodingError => "value exceeds the width of its field",
            HashError::UnsupportedExtraArgsFormat => "unsupported extra args format",
            HashError::MalformedExtraArgs => "malformed extra args",
        }
    }
}

} // verus!
