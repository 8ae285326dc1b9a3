use crate::License;
use crate::rights::Rights;
use crate::version::Version;
use vstd::prelude::*;
use vstd::string::*;

verus! {

/// The display-era label that qualifies a license version in its canonical
/// name.
#[derive(PartialEq, Eq, Clone, Copy, Debug, Structural)]
pub enum Nomenclature {
    Generic,
    Unported,
    International,
    Universal,
}

impl Nomenclature {
    /// The display string of this label.
    pub open spec fn spec_text(self) -> Seq<char> {
        match self {
            Nomenclature::Generic => "Generic"@,
            Nomenclature::Unported => "Unported"@,
            Nomenclature::International => "International"@,
            Nomenclature::Universal => "Universal"@,
        }
    }

    /// Derives the display-era label from a rights and version pair: CC0
    /// is Universal whatever the version, versions up to 2.5 are Generic,
    /// 3.0 is Unported and 4.0 is International.
    pub open spec fn spec_derive(r: Rights, v: Version) -> Nomenclature {
        match r {
            Rights::Zero => Nomenclature::Universal,
            _ => match v {
                Version::One => Nomenclature::Generic,
                Version::Two => Nomenclature::Generic,
                Version::TwoFive => Nomenclature::Generic,
                Version::Three => Nomenclature::Unported,
                Version::Four => Nomenclature::International,
            },
        }
    }

    /// Derives the display-era label of a license.
    pub fn from(license: &License) -> (n: Nomenclature)
        ensures
            n == Nomenclature::spec_derive(license.rights, license.version),
    {
        match license.rights {
            Rights::Zero => Nomenclature::Universal,
            _ => match license.version {
                Version::One => Nomenclature::Generic,
                Version::Two => Nomenclature::Generic,
                Version::TwoFive => Nomenclature::Generic,
                Version::Three => Nomenclature::Unported,
                Version::Four => Nomenclature::International,
            },
        }
    }

    /// Returns the display string, e.g. "International".
    pub fn to_string(&self) -> (s: String)
        ensures
            s@ == self.spec_text(),
    {
        match self {
            Nomenclature::Generic => String::from_str("Generic"),
            Nomenclature::Unported => String::from_str("Unported"),
            Nomenclature::International => String::from_str("International"),
            Nomenclature::Universal => String::from_str("Universal"),
        }
    }
}

/// The derivation is total over every rights and version pair, and the
/// four labels partition those pairs: Universal exactly for CC0, and for
/// the other rights codes Generic, Unported and International exactly for
/// the versions up to 2.5, version 3.0 and version 4.0 respectively.
pub proof fn lemma_derive_total(r: Rights, v: Version)
    ensures
        Nomenclature::spec_derive(r, v) == Nomenclature::Universal <==> r == Rights::Zero,
        Nomenclature::spec_derive(r, v) == Nomenclature::Generic <==> (r != Rights::Zero && (v
            == Version::One || v == Version::Two || v == Version::TwoFive)),
        Nomenclature::spec_derive(r, v) == Nomenclature::Unported <==> (r != Rights::Zero && v
            == Version::Three),
        Nomenclature::spec_derive(r, v) == Nomenclature::International <==> (r != Rights::Zero
            && v == Version::Four),
{
}

} // verus!
