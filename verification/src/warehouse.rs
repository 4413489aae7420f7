//! What a package index says of a package: the records of its JSON API, and
//! the rules for asking it.

use std::collections::HashMap;
use vstd::prelude::*;
use crate::distribution;
use crate::number::{number_from_text, parse_number};
use crate::distribution::name::{is_package_name, normalized_name};
use crate::distribution::wheel::wheel_name_from_text;
use crate::distribution::{normalize_package_name, WheelName};
use crate::text::{chars_of, split, split_range, str_eq, trim, trimmed};
use crate::version::{normal_form, version_at_most, Version};

verus! {

/// The major version of the index API that this crate speaks.
pub const MAJOR_API_VERSION: u8 = 1;

/// The minor version of the index API that this crate speaks.
pub const MINOR_API_VERSION: u8 = 0;

/// The Python Package Index.
pub const PYPI_URI: &'static str = "https://pypi.org";

/// Why the index could not be asked, or gave no answer.
#[derive(Debug, Clone, Copy, PartialEq, Eq, Structural)]
pub enum Error {
    NotFound,
    InvalidName,
    InvalidVersion,
}

impl From<distribution::Error> for Error {
    fn from(_err: distribution::Error) -> (r: Error) {
        Error::InvalidName
    }
}

impl vstd::std_specs::convert::FromSpecImpl<distribution::Error> for Error {
    open spec fn obeys_from_spec() -> bool {
        true
    }

    open spec fn from_spec(_err: distribution::Error) -> Error {
        Error::InvalidName
    }
}

/// How far this crate understands an index.
#[derive(Debug, Clone, Copy, PartialEq, Eq, Structural)]
pub enum SupportLevel {
    /// The index is fully supported.
    Supported,
    /// The index may provide metadata that this crate drops.
    SomewhatSupported,
    /// The index is not compatible with this crate.
    Unsupported,
}

/// How far an index with the API version `api_version` is supported, where
/// `api_version` is `<major>.<minor>`, and `None` where it is not.
pub open spec fn support_level(api_version: Seq<char>) -> Option<SupportLevel> {
    let parts = split(api_version, '.');
    if parts.len() != 2 {
        None
    } else {
        match (number_from_text(parts[0], 255), number_from_text(parts[1], 255)) {
            (Some(major), Some(minor)) => Some(
                if major > MAJOR_API_VERSION {
                    SupportLevel::Unsupported
                } else if minor > MINOR_API_VERSION {
                    SupportLevel::SomewhatSupported
                } else {
                    SupportLevel::Supported
                },
            ),
            _ => None,
        }
    }
}

/// How far an index is supported, given the API version that it reports:
/// `<major>.<minor>`, both below 256.  A greater major version than this
/// crate's is not supported, a greater minor version is supported in part.
/// `Err(InvalidVersion)` where `api_version` is not of that form.
pub fn index_is_supported(api_version: &str) -> (r: Result<SupportLevel, Error>)
    ensures
        match r {
            Ok(level) => support_level(api_version@) == Some(level),
            Err(e) => support_level(api_version@) is None && e == Error::InvalidVersion,
        },
{
    let v = chars_of(api_version);
    let parts = split_range(&v, 0, v.len(), '.');
    assert(v@.subrange(0, v.len() as int) =~= v@);
    if parts.len() != 2 {
        return Err(Error::InvalidVersion);
    }
    let major = match parse_number(parts[0].as_str(), 255) {
        Some(n) => n,
        None => { return Err(Error::InvalidVersion); },
    };
    let minor = match parse_number(parts[1].as_str(), 255) {
        Some(n) => n,
        None => { return Err(Error::InvalidVersion); },
    };
    if major > MAJOR_API_VERSION as usize {
        Ok(SupportLevel::Unsupported)
    } else if minor > MINOR_API_VERSION as usize {
        Ok(SupportLevel::SomewhatSupported)
    } else {
        Ok(SupportLevel::Supported)
    }
}

/// Whether `url::Url::parse` accepts `index` as an absolute URL.
pub uninterp spec fn url_parses(index: Seq<char>) -> bool;

/// Whether the URL that `index` is read as is one that cannot be a base,
/// as `url::Url::cannot_be_a_base` tells.
pub uninterp spec fn url_cannot_be_a_base(index: Seq<char>) -> bool;

/// The URL that `index` is read as, with its path replaced by `path` as
/// `url::Url::set_path` does it, written out.
pub uninterp spec fn url_with_path(index: Seq<char>, path: Seq<char>) -> Seq<char>;

/// The greatest number of characters of an index's address, and of a path,
/// that a request is built from.
pub const MAX_REQUEST_PART: usize = 0x03ff_ffff;

/// Whether `index` is an absolute URL.
///
/// Trusted: `url::Url::parse` answers from `index` alone and does not
/// panic.
#[verifier::external_body]
fn index_parses(index: &str) -> (r: bool)
    ensures
        r == url_parses(index@),
{
    url::Url::parse(index).is_ok()
}

/// Whether the URL `index` cannot be a base.
///
/// Trusted: `url::Url::cannot_be_a_base` reads the parsed URL alone.
#[verifier::external_body]
fn index_cannot_be_a_base(index: &str) -> (r: bool)
    requires
        url_parses(index@),
    ensures
        r == url_cannot_be_a_base(index@),
{
    url::Url::parse(index).unwrap().cannot_be_a_base()
}

/// The URL `index` with its path replaced by `path`.
///
/// Trusted: `url::Url::set_path` computes the new URL from the parsed URL
/// and `path` alone.  It panics only where the result is longer than
/// `u32::MAX` bytes, which the bounds on the two texts exclude: a
/// character takes at most four bytes, and percent-encoding makes a text at
/// most three times as long.
#[verifier::external_body]
fn index_with_path(index: &str, path: &str) -> (r: String)
    requires
        url_parses(index@),
        index@.len() <= MAX_REQUEST_PART,
        path@.len() <= MAX_REQUEST_PART,
    ensures
        r@ == url_with_path(index@, path@),
{
    let mut url = url::Url::parse(index).unwrap();
    url.set_path(path);
    url.into()
}

/// Whether `index` can be the address of an index: an absolute URL that
/// can be a base.
pub open spec fn is_index(index: Seq<char>) -> bool {
    url_parses(index) && !url_cannot_be_a_base(index)
}

/// The address at which the index `index` serves `path`, or
/// `Err(NotFound)` where `index` cannot be the address of an index or one
/// of the two is longer than `MAX_REQUEST_PART`.
pub open spec fn request_address(index: Seq<char>, path: Seq<char>) -> Result<Seq<char>, Error> {
    if is_index(index) && index.len() <= MAX_REQUEST_PART && path.len() <= MAX_REQUEST_PART {
        Ok(url_with_path(index, path))
    } else {
        Err(Error::NotFound)
    }
}

/// The address at which an index describes the package `package`:
/// `Err(NotFound)` where `index` cannot be the address of an index, else
/// `Err(InvalidName)` where `package` is no package name.
pub open spec fn package_address(index: Seq<char>, package: Seq<char>) -> Result<
    Seq<char>,
    Error,
> {
    if !is_index(index) {
        Err(Error::NotFound)
    } else if !is_package_name(package) {
        Err(Error::InvalidName)
    } else {
        request_address(index, package_path(normalized_name(package)))
    }
}

/// The address at which an index describes the version `version` of the
/// package `package`: `Err(NotFound)` where `index` cannot be the address
/// of an index, else `Err(InvalidName)` where `package` is no package name,
/// else `Err(InvalidVersion)` where `version` is no version.
pub open spec fn version_address(
    index: Seq<char>,
    package: Seq<char>,
    version: Seq<char>,
) -> Result<Seq<char>, Error> {
    if !is_index(index) {
        Err(Error::NotFound)
    } else if !is_package_name(package) {
        Err(Error::InvalidName)
    } else {
        match normal_form(version) {
            None => Err(Error::InvalidVersion),
            Some(normalized) => request_address(
                index,
                version_path(normalized_name(package), normalized),
            ),
        }
    }
}

/// Whether a computed address is the one that a contract names.
pub open spec fn is_address(r: Result<String, Error>, address: Result<Seq<char>, Error>) -> bool {
    match r {
        Ok(url) => address == Ok::<Seq<char>, Error>(url@),
        Err(e) => address == Err::<Seq<char>, Error>(e),
    }
}

/// Whether `index` can be the address of an index.
pub fn is_valid_index(index: &str) -> (r: bool)
    ensures
        r == is_index(index@),
{
    index_parses(index) && !index_cannot_be_a_base(index)
}

/// The address at which the index `index` serves `path`.  An address or a
/// path of more than `MAX_REQUEST_PART` characters is refused, since the
/// URL could not hold what comes of it.
pub fn request_url(index: &str, path: &str) -> (r: Result<String, Error>)
    ensures
        is_address(r, request_address(index@, path@)),
{
    if !is_valid_index(index) || index.unicode_len() > MAX_REQUEST_PART || path.unicode_len()
        > MAX_REQUEST_PART {
        Err(Error::NotFound)
    } else {
        Ok(index_with_path(index, path))
    }
}

/// The path at which an index describes the package `name`.
pub open spec fn package_path(name: Seq<char>) -> Seq<char> {
    "pypi/"@ + name + "/json"@
}

/// The path at which an index describes the version `version` of the
/// package `name`.
pub open spec fn version_path(name: Seq<char>, version: Seq<char>) -> Seq<char> {
    "pypi/"@ + name + "/"@ + version + "/json"@
}

/// Whether `trove_classifiers::Classifier` knows `text` as a classifier.
pub uninterp spec fn is_classifier(text: Seq<char>) -> bool;

/// Whether a text is a known classifier.
pub open spec fn is_classifier_text() -> spec_fn(Seq<char>) -> bool {
    |t: Seq<char>| is_classifier(t)
}

/// Whether `text` is a known classifier.
///
/// Trusted: `Classifier::from_str` succeeds exactly on the texts that the
/// crate lists for its variants, whatever else the program does.
#[verifier::external_body]
fn is_known_classifier(text: &str) -> (r: bool)
    ensures
        r == is_classifier(text@),
{
    <trove_classifiers::Classifier as std::str::FromStr>::from_str(text).is_ok()
}

/// The known classifiers among `all`, in their order.
pub fn known_classifiers(all: &Vec<String>) -> (r: Vec<&str>)
    ensures
        r.deep_view() == all.deep_view().filter(is_classifier_text()),
{
    let ghost texts = all.deep_view();
    let mut r: Vec<&str> = Vec::new();
    let mut i: usize = 0;
    proof {
        reveal(Seq::filter);
        assert(texts.take(0).filter(is_classifier_text()) =~= Seq::<Seq<char>>::empty());
        assert(r.deep_view() =~= Seq::<Seq<char>>::empty());
    }
    while i < all.len()
        invariant
            0 <= i <= all.len(),
            texts == all.deep_view(),
            r.deep_view() == texts.take(i as int).filter(is_classifier_text()),
        decreases all.len() - i,
    {
        proof {
            assert(texts.take(i + 1) =~= texts.take(i as int).push(all[i as int]@));
            texts.take(i as int).lemma_filter_push(all[i as int]@, is_classifier_text());
        }
        if is_known_classifier(all[i].as_str()) {
            let ghost before = r.deep_view();
            r.push(all[i].as_str());
            assert(r.deep_view() =~= before.push(all[i as int]@));
        }
        i += 1;
    }
    assert(texts.take(all.len() as int) =~= texts);
    r
}

/// The digests of a distribution's file.
#[derive(Debug, Clone)]
pub struct DistributionDigest {
    pub blake2b_256: String,
    pub md5: String,
    pub sha256: String,
}

/// A known vulnerability of a package version.
#[derive(Debug, Clone)]
pub struct PackageVulnerability {
    pub id: String,
    pub source: String,
    pub link: String,
    pub aliases: Vec<String>,
    pub details: String,
    pub summary: Option<String>,
    pub fixed_in: Vec<String>,
    pub withdrawn: Option<String>,
}

/// One downloadable file of a package version.
#[derive(Debug, Clone)]
pub struct DistributionUrl {
    pub digests: DistributionDigest,
    pub filename: String,
    pub md5_digest: String,
    pub packagetype: String,
    pub python_version: String,
    pub requires_python: Option<String>,
    pub size: usize,
    pub upload_time: String,
    pub upload_time_iso_8601: String,
    pub url: String,
    pub yanked: bool,
    pub yanked_reason: Option<String>,
}

/// The kinds of files that a version offers.
#[derive(Debug, Clone, Copy, PartialEq, Eq, Structural)]
pub enum PackageType {
    /// A source distribution, which the index calls `sdist`.
    SourceArchive,
    /// A wheel, which the index calls `bdist_wheel`.
    BuiltArtifact,
    /// Any other file.
    Other,
}

/// The kind of file that the index gives the name `packagetype`.
pub open spec fn package_type_of(packagetype: Seq<char>) -> PackageType {
    if packagetype == "sdist"@ {
        PackageType::SourceArchive
    } else if packagetype == "bdist_wheel"@ {
        PackageType::BuiltArtifact
    } else {
        PackageType::Other
    }
}

impl DistributionUrl {
    /// The kind of the file.
    pub fn kind(&self) -> (r: PackageType)
        ensures
            r == package_type_of(self.packagetype@),
    {
        if str_eq(self.packagetype.as_str(), "sdist") {
            PackageType::SourceArchive
        } else if str_eq(self.packagetype.as_str(), "bdist_wheel") {
            PackageType::BuiltArtifact
        } else {
            PackageType::Other
        }
    }

    /// The file's name read as the name of a wheel; `Err(InvalidName)`
    /// where it is none.
    pub fn filename(&self) -> (r: Result<WheelName, Error>)
        ensures
            match r {
                Ok(w) => wheel_name_from_text(self.filename@) == Some(w@),
                Err(e) => wheel_name_from_text(self.filename@) is None && e == Error::InvalidName,
            },
    {
        match WheelName::from_filename(self.filename.as_str()) {
            Ok(w) => Ok(w),
            Err(e) => Err(Error::from(e)),
        }
    }
}

/// A package, as `/pypi/{project}/json` describes it.
#[derive(Debug, Clone)]
pub struct Package {
    pub author: Option<String>,
    pub author_email: Option<String>,
    pub classifiers: Vec<String>,
    pub description: Option<String>,
    pub description_content_type: Option<String>,
    pub docs_url: Option<String>,
    pub download_url: Option<String>,
    pub home_page: Option<String>,
    pub keywords: Option<String>,
    pub license: Option<String>,
    pub maintainer: Option<String>,
    pub maintainer_email: Option<String>,
    pub name: String,
    pub package_url: String,
    pub platform: Option<String>,
    pub project_url: String,
    pub project_urls: HashMap<String, String>,
    pub requires_dist: Vec<String>,
    pub requires_python: Option<String>,
    pub summary: Option<String>,
    pub versions: Vec<String>,
    pub yanked: bool,
    pub yanked_reason: Option<String>,
}

/// A version of a package, as `/pypi/{project}/{version}/json` describes it.
#[derive(Debug, Clone)]
pub struct PackageVersion {
    pub author: Option<String>,
    pub author_email: Option<String>,
    pub classifiers: Vec<String>,
    pub description: Option<String>,
    pub description_content_type: Option<String>,
    pub docs_url: Option<String>,
    pub download_url: Option<String>,
    pub home_page: Option<String>,
    pub keywords: Option<String>,
    pub license: Option<String>,
    pub maintainer: Option<String>,
    pub maintainer_email: Option<String>,
    pub name: String,
    pub package_url: String,
    pub platform: Option<String>,
    pub project_url: String,
    pub project_urls: HashMap<String, String>,
    pub release_url: Option<String>,
    pub requires_dist: Vec<String>,
    pub requires_python: Option<String>,
    pub summary: Option<String>,
    pub urls: Vec<DistributionUrl>,
    pub version: String,
    pub vulnerabilities: Vec<PackageVulnerability>,
    pub yanked: bool,
    pub yanked_reason: Option<String>,
}

/// The texts that a sequence of versions was read from.
pub open spec fn sources(versions: Seq<Version>) -> Seq<Seq<char>> {
    versions.map_values(|v: Version| v.source())
}

/// Whether a text is a version.
pub open spec fn is_version_text() -> spec_fn(Seq<char>) -> bool {
    |t: Seq<char>| normal_form(t) is Some
}

/// The texts among `texts` that are versions.
pub open spec fn version_texts(texts: Seq<Seq<char>>) -> Seq<Seq<char>> {
    texts.filter(is_version_text())
}

/// Whether each version is at most the one that follows it.
pub open spec fn is_ascending(versions: Seq<Version>) -> bool {
    forall|i: int|
        0 <= i < versions.len() - 1 ==> version_at_most(
            (#[trigger] versions[i]).source(),
            versions[i + 1].source(),
        )
}

/// The versions among `texts`, from least to greatest: each text that is a
/// version occurs as often as it does in `texts`, and each version is at
/// most the one that follows it.
pub fn order_versions(texts: &Vec<String>) -> (r: Vec<Version>)
    ensures
        sources(r@).to_multiset() == version_texts(texts.deep_view()).to_multiset(),
        is_ascending(r@),
{
    broadcast use vstd::seq_lib::to_multiset_insert;

    let ghost all = texts.deep_view();
    let mut out: Vec<Version> = Vec::new();
    let mut i: usize = 0;
    proof {
        reveal(Seq::filter);
        assert(version_texts(all.take(0)) =~= Seq::<Seq<char>>::empty());
    }
    assert(sources(out@) =~= Seq::<Seq<char>>::empty());
    while i < texts.len()
        invariant
            0 <= i <= texts.len(),
            all == texts.deep_view(),
            sources(out@).to_multiset() == version_texts(all.take(i as int)).to_multiset(),
            is_ascending(out@),
        decreases texts.len() - i,
    {
        proof {
            assert(all.take(i + 1) =~= all.take(i as int).push(texts[i as int]@));
            all.take(i as int).lemma_filter_push(texts[i as int]@, is_version_text());
        }
        match Version::parse(texts[i].as_str()) {
            Some(v) => {
                let mut p: usize = out.len();
                while p > 0 && !out[p - 1].at_most(&v)
                    invariant
                        0 <= p <= out.len(),
                        p < out.len() ==> version_at_most(v.source(), out[p as int].source()),
                    decreases p,
                {
                    p -= 1;
                }
                let ghost before = out@;
                out.insert(p, v);
                proof {
                    assert(sources(out@) =~= sources(before).insert(p as int, v.source()));
                    assert(version_texts(all.take(i + 1)) == version_texts(
                        all.take(i as int),
                    ).push(v.source()));
                    let had = version_texts(all.take(i as int));
                    assert(had.push(v.source()) =~= had.insert(had.len() as int, v.source()));
                    vstd::seq_lib::to_multiset_insert(had, had.len() as int, v.source());
                    vstd::seq_lib::to_multiset_insert(sources(before), p as int, v.source());
                    assert(sources(out@).to_multiset() == version_texts(
                        all.take(i + 1),
                    ).to_multiset());
                    assert forall|k: int| 0 <= k < out@.len() - 1 implies version_at_most(
                        (#[trigger] out@[k]).source(),
                        out@[k + 1].source(),
                    ) by {
                        if k + 1 < p {
                            assert(out@[k] == before[k] && out@[k + 1] == before[k + 1]);
                        } else if k + 1 == p {
                            assert(out@[k] == before[k]);
                        } else if k == p {
                            assert(out@[k + 1] == before[k]);
                        } else {
                            assert(out@[k] == before[k - 1] && out@[k + 1] == before[k]);
                            assert(version_at_most(
                                (#[trigger] before[k - 1]).source(),
                                before[k - 1 + 1].source(),
                            ));
                        }
                    }
                }
            },
            None => {
                assert(version_texts(all.take(i + 1)) == version_texts(all.take(i as int)));
            },
        }
        i += 1;
    }
    assert(all.take(texts.len() as int) =~= all);
    out
}

impl Package {
    /// The address at which the index `index` describes the package
    /// `package`.
    pub fn url(index: &str, package: &str) -> (r: Result<String, Error>)
        ensures
            is_address(r, package_address(index@, package@)),
    {
        if !is_valid_index(index) {
            return Err(Error::NotFound);
        }
        let name = match normalize_package_name(package) {
            Ok(name) => name,
            Err(e) => { return Err(Error::from(e)); },
        };
        let mut path = "pypi/".to_owned();
        path.append(name.as_str());
        path.append("/json");
        request_url(index, path.as_str())
    }

    /// The known classifiers among the package's, in their order.
    pub fn classifiers(&self) -> (r: Vec<&str>)
        ensures
            r.deep_view() == self.classifiers.deep_view().filter(is_classifier_text()),
    {
        known_classifiers(&self.classifiers)
    }

    /// The package's versions from least to greatest, without the entries
    /// that are no versions.
    pub fn ordered_versions(&self) -> (r: Vec<Version>)
        ensures
            sources(r@).to_multiset() == version_texts(self.versions.deep_view()).to_multiset(),
            is_ascending(r@),
    {
        order_versions(&self.versions)
    }
}

/// The keyword that a piece of a list of keywords holds: the piece without
/// the white space at its ends, where anything is left of it.
pub open spec fn keyword_of() -> spec_fn(Seq<char>) -> Option<Seq<char>> {
    |piece: Seq<char>|
        if trimmed(piece).len() > 0 {
            Some(trimmed(piece))
        } else {
            None
        }
}

/// The keywords that `text` lists between commas.
pub open spec fn keywords_of(text: Seq<char>) -> Seq<Seq<char>> {
    split(text, ',').filter_map(keyword_of())
}

impl PackageVersion {
    /// The keywords of the version: what its list of keywords holds
    /// between commas, without white space around it and without what is
    /// empty.
    pub fn keywords(&self) -> (r: Vec<String>)
        ensures
            r.deep_view() == match self.keywords {
                Some(text) => keywords_of(text@),
                None => Seq::empty(),
            },
    {
        let mut r: Vec<String> = Vec::new();
        assert(r.deep_view() =~= Seq::<Seq<char>>::empty());
        let text = match &self.keywords {
            Some(text) => text,
            None => { return r; },
        };
        let v = chars_of(text.as_str());
        let pieces = split_range(&v, 0, v.len(), ',');
        assert(v@.subrange(0, v.len() as int) =~= v@);
        let ghost all = pieces.deep_view();
        let mut i: usize = 0;
        assert(all.take(0).filter_map(keyword_of()) =~= Seq::<Seq<char>>::empty());
        while i < pieces.len()
            invariant
                0 <= i <= pieces.len(),
                all == pieces.deep_view(),
                r.deep_view() == all.take(i as int).filter_map(keyword_of()),
            decreases pieces.len() - i,
        {
            proof {
                all.lemma_filter_map_take_succ(keyword_of(), i as int);
            }
            let word = trim(pieces[i].as_str());
            if word.as_str().unicode_len() > 0 {
                let ghost before = r.deep_view();
                r.push(word);
                assert(r.deep_view() =~= before + seq![word@]);
            }
            i += 1;
        }
        assert(all.take(pieces.len() as int) =~= all);
        r
    }

    /// The address at which the index `index` describes the version
    /// `version` of the package `package`.
    pub fn url(index: &str, package: &str, version: &str) -> (r: Result<String, Error>)
        ensures
            is_address(r, version_address(index@, package@, version@)),
    {
        if !is_valid_index(index) {
            return Err(Error::NotFound);
        }
        let name = match normalize_package_name(package) {
            Ok(name) => name,
            Err(e) => { return Err(Error::from(e)); },
        };
        let number = match Version::parse(version) {
            Some(v) => v.normalize(),
            None => { return Err(Error::InvalidVersion); },
        };
        let mut path = "pypi/".to_owned();
        path.append(name.as_str());
        path.append("/");
        path.append(number.as_str());
        path.append("/json");
        request_url(index, path.as_str())
    }

    /// The known classifiers among the version's, in their order.
    pub fn classifiers(&self) -> (r: Vec<&str>)
        ensures
            r.deep_view() == self.classifiers.deep_view().filter(is_classifier_text()),
    {
        known_classifiers(&self.classifiers)
    }

    /// This version's number; `Err(InvalidVersion)` where the index
    /// reported a text that is no version.
    pub fn version(&self) -> (r: Result<Version, Error>)
        ensures
            match r {
                Ok(v) => v.source() == self.version@ && normal_form(self.version@) == Some(
                    v.normalized(),
                ),
                Err(e) => normal_form(self.version@) is None && e == Error::InvalidVersion,
            },
    {
        match Version::parse(self.version.as_str()) {
            Some(v) => Ok(v),
            None => Err(Error::InvalidVersion),
        }
    }
}

} // verus!
