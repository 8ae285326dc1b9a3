use crate::error::ParseError;
use vstd::prelude::*;
use vstd::string::*;

verus! {

/// The closed set of Creative Commons license versions.
#[derive(PartialEq, Eq, Clone, Copy, Debug, Structural)]
pub enum Version {
    One,
    Two,
    TwoFive,
    Three,
    Four,
}

impl Version {
    /// The decimal display string of this version, which is also the URL
    /// path token that decodes to it.
    pub open spec fn spec_text(self) -> Seq<char> {
        match self {
            Version::One => "1.0"@,
            Version::Two => "2.0"@,
            Version::TwoFive => "2.5"@,
            Version::Three => "3.0"@,
            Version::Four => "4.0"@,
        }
    }

    /// The exact decoding table from URL tokens to versions: anything but
    /// the five recognized decimal tokens decodes to nothing.
    pub open spec fn spec_from_token(t: Seq<char>) -> Option<Version> {
        if t == "1.0"@ {
            Some(Version::One)
        } else if t == "2.0"@ {
            Some(Version::Two)
        } else if t == "2.5"@ {
            Some(Version::TwoFive)
        } else if t == "3.0"@ {
            Some(Version::Three)
        } else if t == "4.0"@ {
            Some(Version::Four)
        } else {
            None
        }
    }

    /// Decodes a version token by exact comparison against the five
    /// recognized decimal tokens.
    pub fn from_str(s: &str) -> (res: Result<Version, ParseError>)
        ensures
            match res {
                Ok(v) => Version::spec_from_token(s@) == Some(v),
                Err(e) => Version::spec_from_token(s@) is None && e == ParseError::InvalidVersion,
            },
    {
        if crate::strcmp::str_eq(s, "1.0") {
            Ok(Version::One)
        } else if crate::strcmp::str_eq(s, "2.0") {
            Ok(Version::Two)
        } else if crate::strcmp::str_eq(s, "2.5") {
            Ok(Version::TwoFive)
        } else if crate::strcmp::str_eq(s, "3.0") {
            Ok(Version::Three)
        } else if crate::strcmp::str_eq(s, "4.0") {
            Ok(Version::Four)
        } else {
            Err(ParseError::InvalidVersion)
        }
    }

    /// Returns the decimal display string, e.g. "4.0".
    pub fn to_string(&self) -> (s: String)
        ensures
            s@ == self.spec_text(),
    {
        match self {
            Version::One => String::from_str("1.0"),
            Version::Two => String::from_str("2.0"),
            Version::TwoFive => String::from_str("2.5"),
            Version::Three => String::from_str("3.0"),
            Version::Four => String::from_str("4.0"),
        }
    }
}

/// Version decoding is exact: a token decodes to some version exactly when
/// it is, byte for byte, one of the five recognized decimal tokens; in
/// particular numerically equivalent spellings such as "1" decode to
/// nothing.
pub proof fn lemma_version_decode_exact(t: Seq<char>)
    ensures
        Version::spec_from_token(t) is Some <==> (t == "1.0"@ || t == "2.0"@ || t == "2.5"@
            || t == "3.0"@ || t == "4.0"@),
{
}

/// Every version text is a well-formed URL path token: nonempty and
/// slash-free.
pub proof fn lemma_version_token_is_token(v: Version)
    ensures
        crate::url::is_token(v.spec_text()),
{
    reveal_strlit("1.0");
    reveal_strlit("2.0");
    reveal_strlit("2.5");
    reveal_strlit("3.0");
    reveal_strlit("4.0");
}

/// Decoding inverts encoding: the decimal text of every version decodes
/// back to that same version.
pub proof fn lemma_version_token_round_trip(v: Version)
    ensures
        Version::spec_from_token(v.spec_text()) == Some(v),
{
    reveal_strlit("1.0");
    reveal_strlit("2.0");
    reveal_strlit("2.5");
    reveal_strlit("3.0");
    reveal_strlit("4.0");
    assert("1.0"@[0] == '1' && "2.0"@[0] == '2' && "2.5"@[0] == '2' && "3.0"@[0] == '3'
        && "4.0"@[0] == '4');
    assert("2.0"@[2] == '0' && "2.5"@[2] == '5');
}

} // verus!
