//! Parsing and rendering of Creative Commons license URLs.
//!
//! A URL such as `https://creativecommons.org/licenses/by-nc-sa/4.0/` is
//! parsed into a [`License`], a validated pair of a rights code and a
//! version code, which can then be rendered back into its abbreviated and
//! canonical human-readable forms.

pub mod error;
pub mod nomenclature;
pub mod rights;
mod strcmp;
pub mod url;
pub mod version;

pub use crate::error::ParseError;
pub use crate::nomenclature::Nomenclature;
pub use crate::rights::Rights;
pub use crate::version::Version;

use vstd::prelude::*;
use vstd::string::*;

verus! {

/// A validated Creative Commons license: a rights code and a version
/// code.
///
/// Licenses obtained from [`License::from_url`] always satisfy
/// [`License::wf`]: CC0 exists only at version 1.0.
#[derive(PartialEq, Eq, Clone, Copy, Debug, Structural)]
pub struct License {
    pub rights: Rights,
    pub version: Version,
}

/// What parsing a Creative Commons license URL returns, for every input:
/// the matcher extracts the raw rights and version tokens, each token is
/// decoded exactly, the cross-field invariant is validated, and the first
/// stage to reject the input names the error.
pub open spec fn spec_parse(s: Seq<char>) -> Result<License, ParseError> {
    match crate::url::spec_extract(s) {
        None => Err(ParseError::InvalidUrl),
        Some(p) => match Rights::spec_from_token(p.0) {
            None => Err(ParseError::InvalidRights),
            Some(r) => match Version::spec_from_token(p.1) {
                None => Err(ParseError::InvalidVersion),
                Some(v) => if r == Rights::Zero && v != Version::One {
                    Err(ParseError::InvalidPublicDomainVersion)
                } else {
                    Ok(License { rights: r, version: v })
                },
            },
        },
    }
}

impl License {
    /// Parses a Creative Commons license from a URL such as
    /// `https://creativecommons.org/licenses/by-nc-sa/4.0/`.
    pub fn from_url(url: &str) -> (res: Result<License, ParseError>)
        ensures
            res == spec_parse(url@),
    {
        let parts = match crate::url::extract(url) {
            Some(p) => p,
            None => {
                return Err(ParseError::InvalidUrl);
            },
        };
        let rights = match Rights::from_str(parts.0) {
            Ok(r) => r,
            Err(e) => {
                return Err(e);
            },
        };
        let version = match Version::from_str(parts.1) {
            Ok(v) => v,
            Err(e) => {
                return Err(e);
            },
        };
        let license = License { rights, version };
        match license.check() {
            Ok(_) => Ok(license),
            Err(e) => Err(e),
        }
    }

    /// The cross-field invariant of a constructed license: the public
    /// domain dedication exists only at version 1.0.
    pub open spec fn wf(self) -> bool {
        self.rights == Rights::Zero ==> self.version == Version::One
    }

    /// The abbreviated form, e.g. "CC BY-NC 4.0".
    pub open spec fn spec_short(self) -> Seq<char> {
        self.rights.spec_abbrev() + " "@ + self.version.spec_text()
    }

    /// The canonical sentence, e.g. "Creative Commons Attribution 4.0
    /// International license (CC BY 4.0)."
    pub open spec fn spec_canonical(self) -> Seq<char> {
        "Creative Commons "@ + self.rights.spec_full_text() + " "@ + self.version.spec_text()
            + " "@ + Nomenclature::spec_derive(self.rights, self.version).spec_text()
            + " license ("@ + self.spec_short() + ")."@
    }

    /// Validates the cross-field invariant, failing exactly when the
    /// rights are CC0 but the version is not 1.0.
    pub fn check(&self) -> (res: Result<(), ParseError>)
        ensures
            res is Ok <==> self.wf(),
            !self.wf() ==> res == Err::<(), ParseError>(ParseError::InvalidPublicDomainVersion),
    {
        if self.rights == Rights::Zero && self.version != Version::One {
            Err(ParseError::InvalidPublicDomainVersion)
        } else {
            Ok(())
        }
    }

    /// Returns the abbreviated rights string, e.g. "CC BY".
    pub fn rights(&self) -> (s: String)
        ensures
            s@ == self.rights.spec_abbrev(),
    {
        self.rights.to_string()
    }

    /// Returns the long rights phrase, e.g. "Attribution".
    pub fn rights_full(&self) -> (s: String)
        ensures
            s@ == self.rights.spec_full_text(),
    {
        let t = self.rights.full_text();
        String::from_str(t)
    }

    /// Returns the version string, e.g. "4.0".
    pub fn version(&self) -> (s: String)
        ensures
            s@ == self.version.spec_text(),
    {
        self.version.to_string()
    }

    /// Returns the abbreviated form, e.g. "CC BY-NC 4.0".
    pub fn short(&self) -> (s: String)
        ensures
            s@ == self.spec_short(),
    {
        let mut s = self.rights.to_string();
        s.append(" ");
        let v = self.version.to_string();
        s.append(v.as_str());
        s
    }

    /// Returns the canonical sentence describing the license.
    pub fn to_string(&self) -> (s: String)
        ensures
            s@ == self.spec_canonical(),
    {
        let mut s = String::from_str("Creative Commons ");
        s.append(self.rights.full_text());
        s.append(" ");
        let v = self.version.to_string();
        s.append(v.as_str());
        s.append(" ");
        let n = Nomenclature::from(self).to_string();
        s.append(n.as_str());
        s.append(" license (");
        let sh = self.short();
        s.append(sh.as_str());
        s.append(").");
        s
    }
}

/// An invariant of construction: every license a successful parse yields
/// is well formed — CC0 only ever comes out at version 1.0.
pub proof fn lemma_parse_ok_wf(s: Seq<char>)
    ensures
        spec_parse(s) matches Ok(lic) ==> lic.wf(),
{
}

/// Every string of the canonical URL shape whose two tokens encode a
/// well-formed license parses to exactly that license.
pub proof fn lemma_shape_parses(s: Seq<char>, lic: License)
    requires
        crate::url::cc_url_shape(s, lic.rights.spec_token(), lic.version.spec_text()),
        lic.wf(),
    ensures
        spec_parse(s) == Ok::<License, ParseError>(lic),
{
    crate::url::lemma_extract_exact(s, lic.rights.spec_token(), lic.version.spec_text());
    crate::rights::lemma_rights_token_round_trip(lic.rights);
    crate::version::lemma_version_token_round_trip(lic.version);
}

/// The canonical URL rebuilt from a license's own tokens:
/// `https://creativecommons.org/licenses/<rights>/<version>/`, with
/// `publicdomain` in place of `licenses` for CC0.
pub open spec fn spec_rebuild(lic: License) -> Seq<char> {
    crate::url::assemble(
        "https://"@,
        Seq::empty(),
        if lic.rights == Rights::Zero {
            "publicdomain/"@
        } else {
            "licenses/"@
        },
        lic.rights.spec_token(),
        lic.version.spec_text(),
        "/"@,
    )
}

/// Round trip: parsing the URL rebuilt from any well-formed license's own
/// tokens succeeds and yields that same license back.
pub proof fn lemma_round_trip(lic: License)
    requires
        lic.wf(),
    ensures
        spec_parse(spec_rebuild(lic)) == Ok::<License, ParseError>(lic),
{
    let rt = lic.rights.spec_token();
    let vt = lic.version.spec_text();
    let cat: Seq<char> = if lic.rights == Rights::Zero {
        "publicdomain/"@
    } else {
        "licenses/"@
    };
    crate::rights::lemma_rights_token_is_token(lic.rights);
    crate::version::lemma_version_token_is_token(lic.version);
    assert(crate::url::shape_parts_ok("https://"@, Seq::empty(), cat, "/"@));
    assert(spec_rebuild(lic) == crate::url::assemble("https://"@, Seq::empty(), cat, rt, vt, "/"@));
    assert(crate::url::cc_url_shape(spec_rebuild(lic), rt, vt));
    lemma_shape_parses(spec_rebuild(lic), lic);
}

} // verus!
