use vstd::prelude::*;

verus! {

/// The ways parsing a Creative Commons license URL can fail.
///
/// The four kinds are mutually exclusive: parsing stops at the first
/// stage that rejects its part of the input.
#[derive(PartialEq, Eq, Clone, Copy, Debug, Structural)]
pub enum ParseError {
    /// The input does not have the canonical license URL shape.
    InvalidUrl,
    /// The rights path segment is not one of the recognized tokens.
    InvalidRights,
    /// The version path segment is not one of the recognized decimal tokens.
    InvalidVersion,
    /// The rights decoded as CC0 but the version is not 1.0.
    InvalidPublicDomainVersion,
}

impl ParseError {
    /// The human-readable description of this error.
    pub open spec fn spec_message(self) -> Seq<char> {
        match self {
            ParseError::InvalidUrl => "Invalid URL"@,
            ParseError::InvalidRights => "Invalid rights string"@,
            ParseError::InvalidVersion => "Invalid version string"@,
            ParseError::InvalidPublicDomainVersion => "The version of CC0 licenses must be 1.0"@,
        }
    }

    /// Returns the human-readable description of this error.
    pub fn message(&self) -> (s: &'static str)
        ensures
            s@ == self.spec_message(),
    {
        match self {
            ParseError::InvalidUrl => "Invalid URL",
            ParseError::InvalidRights => "Invalid rights string",
            ParseError::InvalidVersion => "Invalid version string",
            ParseError::InvalidPublicDomainVersion => "The version of CC0 licenses must be 1.0",
        }
    }
}

} // verus!
