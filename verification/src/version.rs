//! PEP 440 version numbers, as far as this crate reads them: whether a text
//! is a version, how the version is written in normal form, and which of two
//! versions comes first.  Parsing and comparing are the `pep440` crate's.

use vstd::prelude::*;

verus! {

/// The normal form of the version that `pep440::Version::parse` reads from
/// `input`, or `None` where it does not accept `input`.
pub uninterp spec fn normal_form(input: Seq<char>) -> Option<Seq<char>>;

/// Whether the version read from `a` is at most the version read from `b`,
/// in the order of `pep440::Version`.
pub uninterp spec fn version_at_most(a: Seq<char>, b: Seq<char>) -> bool;

/// Parses `input` and renders the version in normal form.
///
/// Trusted: `pep440::Version::parse` returns `None` or a version that
/// depends on `input` alone, and `Version::normalize` renders that version
/// from its fields alone.  Neither panics.
#[verifier::external_body]
fn parse_normal_form(input: &str) -> (r: Option<String>)
    ensures
        match r {
            Some(s) => normal_form(input@) == Some(s@),
            None => normal_form(input@) is None,
        },
{
    pep440::Version::parse(input).map(|v| v.normalize())
}

/// Compares the versions that two accepted texts stand for.
///
/// Trusted: `pep440::Version`'s `<=` comes from its `Ord`, which compares
/// keys computed from the two versions alone, and the order is total: of
/// two versions one is at most the other.
#[verifier::external_body]
fn parsed_at_most(a: &str, b: &str) -> (r: bool)
    requires
        normal_form(a@) is Some,
        normal_form(b@) is Some,
    ensures
        r == version_at_most(a@, b@),
        !r ==> version_at_most(b@, a@),
{
    pep440::Version::parse(a).unwrap() <= pep440::Version::parse(b).unwrap()
}

/// A version number that the parser accepted.
pub struct Version {
    source: String,
    normalized: String,
}

impl Version {
    /// The text this version was read from.
    pub closed spec fn source(&self) -> Seq<char> {
        self.source@
    }

    /// The version in normal form.
    pub closed spec fn normalized(&self) -> Seq<char> {
        self.normalized@
    }

    #[verifier::type_invariant]
    closed spec fn well_formed(&self) -> bool {
        normal_form(self.source@) == Some(self.normalized@)
    }

    /// Reads a version from `input`; `None` where `input` is no version.
    pub fn parse(input: &str) -> (r: Option<Version>)
        ensures
            match r {
                Some(v) => v.source() == input@ && normal_form(input@) == Some(v.normalized()),
                None => normal_form(input@) is None,
            },
    {
        match parse_normal_form(input) {
            Some(normalized) => Some(Version { source: input.to_owned(), normalized }),
            None => None,
        }
    }

    /// The version in normal form.
    pub fn normalize(&self) -> (r: String)
        ensures
            r@ == self.normalized(),
    {
        self.normalized.clone()
    }

    /// Whether this version is at most `other`.  Where it is not, `other`
    /// is at most this version.
    pub fn at_most(&self, other: &Version) -> (r: bool)
        ensures
            r == version_at_most(self.source(), other.source()),
            !r ==> version_at_most(other.source(), self.source()),
    {
        proof {
            use_type_invariant(self);
            use_type_invariant(other);
        }
        parsed_at_most(self.source.as_str(), other.source.as_str())
    }
}

} // verus!
