use crate::error::ParseError;
use vstd::prelude::*;
use vstd::string::*;

verus! {

/// The closed set of Creative Commons rights codes.
#[derive(PartialEq, Eq, Clone, Copy, Debug, Structural)]
pub enum Rights {
    By,
    BySa,
    ByNd,
    ByNc,
    ByNcSa,
    ByNcNd,
    Zero,
}

impl Rights {
    /// The URL path token that decodes to this rights code.
    pub open spec fn spec_token(self) -> Seq<char> {
        match self {
            Rights::By => "by"@,
            Rights::BySa => "by-sa"@,
            Rights::ByNd => "by-nd"@,
            Rights::ByNc => "by-nc"@,
            Rights::ByNcSa => "by-nc-sa"@,
            Rights::ByNcNd => "by-nc-nd"@,
            Rights::Zero => "zero"@,
        }
    }

    /// The abbreviated display string of this rights code.
    pub open spec fn spec_abbrev(self) -> Seq<char> {
        match self {
            Rights::By => "CC BY"@,
            Rights::BySa => "CC BY-SA"@,
            Rights::ByNd => "CC BY-ND"@,
            Rights::ByNc => "CC BY-NC"@,
            Rights::ByNcSa => "CC BY-NC-SA"@,
            Rights::ByNcNd => "CC BY-NC-ND"@,
            Rights::Zero => "CC0"@,
        }
    }

    /// The long descriptive phrase of this rights code.
    pub open spec fn spec_full_text(self) -> Seq<char> {
        match self {
            Rights::By => "Attribution"@,
            Rights::BySa => "Attribution-ShareAlike"@,
            Rights::ByNd => "Attribution-NoDerivatives"@,
            Rights::ByNc => "Attribution-NonCommercial"@,
            Rights::ByNcSa => "Attribution-NonCommercial-ShareAlike"@,
            Rights::ByNcNd => "Attribution-NonCommercial-NoDerivatives"@,
            Rights::Zero => "CC0"@,
        }
    }

    /// The exact, case-sensitive decoding table from URL tokens to rights
    /// codes: anything but the seven recognized tokens decodes to nothing.
    pub open spec fn spec_from_token(t: Seq<char>) -> Option<Rights> {
        if t == "by"@ {
            Some(Rights::By)
        } else if t == "by-sa"@ {
            Some(Rights::BySa)
        } else if t == "by-nd"@ {
            Some(Rights::ByNd)
        } else if t == "by-nc"@ {
            Some(Rights::ByNc)
        } else if t == "by-nc-sa"@ {
            Some(Rights::ByNcSa)
        } else if t == "by-nc-nd"@ {
            Some(Rights::ByNcNd)
        } else if t == "zero"@ {
            Some(Rights::Zero)
        } else {
            None
        }
    }

    /// Decodes a rights token by exact, case-sensitive comparison against
    /// the seven recognized tokens.
    pub fn from_str(s: &str) -> (res: Result<Rights, ParseError>)
        ensures
            match res {
                Ok(r) => Rights::spec_from_token(s@) == Some(r),
                Err(e) => Rights::spec_from_token(s@) is None && e == ParseError::InvalidRights,
            },
    {
        if crate::strcmp::str_eq(s, "by") {
            Ok(Rights::By)
        } else if crate::strcmp::str_eq(s, "by-sa") {
            Ok(Rights::BySa)
        } else if crate::strcmp::str_eq(s, "by-nd") {
            Ok(Rights::ByNd)
        } else if crate::strcmp::str_eq(s, "by-nc") {
            Ok(Rights::ByNc)
        } else if crate::strcmp::str_eq(s, "by-nc-sa") {
            Ok(Rights::ByNcSa)
        } else if crate::strcmp::str_eq(s, "by-nc-nd") {
            Ok(Rights::ByNcNd)
        } else if crate::strcmp::str_eq(s, "zero") {
            Ok(Rights::Zero)
        } else {
            Err(ParseError::InvalidRights)
        }
    }

    /// Returns the abbreviated display string, e.g. "CC BY-NC-SA".
    pub fn to_string(&self) -> (s: String)
        ensures
            s@ == self.spec_abbrev(),
    {
        match self {
            Rights::By => String::from_str("CC BY"),
            Rights::BySa => String::from_str("CC BY-SA"),
            Rights::ByNd => String::from_str("CC BY-ND"),
            Rights::ByNc => String::from_str("CC BY-NC"),
            Rights::ByNcSa => String::from_str("CC BY-NC-SA"),
            Rights::ByNcNd => String::from_str("CC BY-NC-ND"),
            Rights::Zero => String::from_str("CC0"),
        }
    }

    /// Returns the long descriptive phrase, e.g. "Attribution-ShareAlike".
    pub fn full_text(&self) -> (s: &'static str)
        ensures
            s@ == self.spec_full_text(),
    {
        match self {
            Rights::By => "Attribution",
            Rights::BySa => "Attribution-ShareAlike",
            Rights::ByNd => "Attribution-NoDerivatives",
            Rights::ByNc => "Attribution-NonCommercial",
            Rights::ByNcSa => "Attribution-NonCommercial-ShareAlike",
            Rights::ByNcNd => "Attribution-NonCommercial-NoDerivatives",
            Rights::Zero => "CC0",
        }
    }
}

/// Rights decoding is exact: a token decodes to some rights code exactly
/// when it is, byte for byte, one of the seven recognized tokens. In
/// particular no case folding or trimming is performed.
pub proof fn lemma_rights_decode_exact(t: Seq<char>)
    ensures
        Rights::spec_from_token(t) is Some <==> (t == "by"@ || t == "by-sa"@ || t == "by-nd"@
            || t == "by-nc"@ || t == "by-nc-sa"@ || t == "by-nc-nd"@ || t == "zero"@),
{
}

/// Every rights token is a well-formed URL path token: nonempty and
/// slash-free.
pub proof fn lemma_rights_token_is_token(r: Rights)
    ensures
        crate::url::is_token(r.spec_token()),
{
    reveal_strlit("by");
    reveal_strlit("by-sa");
    reveal_strlit("by-nd");
    reveal_strlit("by-nc");
    reveal_strlit("by-nc-sa");
    reveal_strlit("by-nc-nd");
    reveal_strlit("zero");
}

/// Decoding inverts encoding: the URL token of every rights code decodes
/// back to that same rights code.
pub proof fn lemma_rights_token_round_trip(r: Rights)
    ensures
        Rights::spec_from_token(r.spec_token()) == Some(r),
{
    reveal_strlit("by");
    reveal_strlit("by-sa");
    reveal_strlit("by-nd");
    reveal_strlit("by-nc");
    reveal_strlit("by-nc-sa");
    reveal_strlit("by-nc-nd");
    reveal_strlit("zero");
    assert("by"@.len() == 2);
    assert("by-sa"@.len() == 5);
    assert("by-nd"@.len() == 5);
    assert("by-nc"@.len() == 5);
    assert("by-nc-sa"@.len() == 8);
    assert("by-nc-nd"@.len() == 8);
    assert("zero"@.len() == 4);
    match r {
        Rights::By => {},
        Rights::BySa => {
            assert("by-sa"@[3] == 's' && "by-nd"@[3] == 'n' && "by-nc"@[3] == 'n');
        },
        Rights::ByNd => {
            assert("by-nd"@[3] == 'n' && "by-nd"@[4] == 'd' && "by-sa"@[3] == 's');
            assert("by-nc"@[4] == 'c');
        },
        Rights::ByNc => {
            assert("by-nc"@[3] == 'n' && "by-nc"@[4] == 'c');
            assert("by-sa"@[3] == 's' && "by-nd"@[4] == 'd');
        },
        Rights::ByNcSa => {},
        Rights::ByNcNd => {
            assert("by-nc-nd"@[6] == 'n' && "by-nc-sa"@[6] == 's');
        },
        Rights::Zero => {},
    }
}

} // verus!
