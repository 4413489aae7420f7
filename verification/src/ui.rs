//! What is shown of a project: which fields, under which icon, and how the
//! files of a version are summed up.

use vstd::prelude::*;
use crate::distribution::tag::{is_pure, is_universal};
use crate::picker::wheel_of;
use crate::text::{ascii_lowercase, ascii_lowercase_of, join, join_with, str_eq};
use crate::warehouse::{package_type_of, DistributionUrl, PackageType};

pub mod fields;
pub mod interactive;
pub mod text;

pub use fields::{DisplayFields, Field, Flags};

verus! {

/// The icon for a kind of link, given in lower case.
pub open spec fn icon_of(kind: Seq<char>) -> Seq<char> {
    if kind == "package index"@ {
        "📦"@
    } else if kind == "download"@ {
        "⇩"@
    } else if kind == "home"@ || kind == "homepage"@ || kind == "home page"@ {
        "🏠"@
    } else if kind == "changelog"@ || kind == "change log"@ || kind == "changes"@ || kind
        == "release notes"@ || kind == "news"@ || kind == "what's new"@ || kind == "history"@ {
        "📜"@
    } else if kind == "docs"@ || kind == "documentation"@ {
        "📄"@
    } else if kind == "bug"@ || kind == "issue"@ || kind == "tracker"@ || kind == "report"@ {
        "🐞"@
    } else if kind == "funding"@ || kind == "donate"@ || kind == "donation"@ || kind
        == "sponsor"@ {
        "💸"@
    } else if kind == "mastodon"@ {
        "🐘"@
    } else {
        "🔗"@
    }
}

/// The icon for a link of the kind `url`, whatever the case of its ASCII
/// letters; the icons are those that pypi.org shows.
pub fn iconify_url(url: &str) -> (r: String)
    ensures
        r@ == icon_of(ascii_lowercase(url@)),
{
    let lower = ascii_lowercase_of(url);
    let kind = lower.as_str();
    let icon = if str_eq(kind, "package index") {
        "📦"
    } else if str_eq(kind, "download") {
        "⇩"
    } else if str_eq(kind, "home") || str_eq(kind, "homepage") || str_eq(kind, "home page") {
        "🏠"
    } else if str_eq(kind, "changelog") || str_eq(kind, "change log") || str_eq(kind, "changes")
        || str_eq(kind, "release notes") || str_eq(kind, "news") || str_eq(kind, "what's new")
        || str_eq(kind, "history") {
        "📜"
    } else if str_eq(kind, "docs") || str_eq(kind, "documentation") {
        "📄"
    } else if str_eq(kind, "bug") || str_eq(kind, "issue") || str_eq(kind, "tracker") || str_eq(
        kind,
        "report",
    ) {
        "🐞"
    } else if str_eq(kind, "funding") || str_eq(kind, "donate") || str_eq(kind, "donation")
        || str_eq(kind, "sponsor") {
        "💸"
    } else if str_eq(kind, "mastodon") {
        "🐘"
    } else {
        "🔗"
    };
    icon.to_owned()
}

/// The kinds of files that a summary tells apart.
#[derive(Debug, Clone, Copy, PartialEq, Eq, Structural)]
pub enum ArtifactKind {
    /// A source distribution.
    Sdist,
    /// A universal wheel.
    Universal,
    /// A pure wheel that is not universal.
    Pure,
    /// A wheel that is not pure.
    Platform,
    /// A file that is neither a source distribution nor a wheel.
    Other,
    /// A file that is given as a wheel and whose name is not that of one.
    Broken,
}

/// The kind of `file`.
pub open spec fn artifact_kind(file: DistributionUrl) -> ArtifactKind {
    match package_type_of(file.packagetype@) {
        PackageType::SourceArchive => ArtifactKind::Sdist,
        PackageType::BuiltArtifact => match wheel_of(file) {
            Some(name) => if is_universal(name.compatibility_tag) {
                ArtifactKind::Universal
            } else if is_pure(name.compatibility_tag) {
                ArtifactKind::Pure
            } else {
                ArtifactKind::Platform
            },
            None => ArtifactKind::Broken,
        },
        PackageType::Other => ArtifactKind::Other,
    }
}

/// The number of files of the kind `kind` among `files`.
pub open spec fn count_kind(files: Seq<DistributionUrl>, kind: ArtifactKind) -> nat
    decreases files.len(),
{
    if files.len() == 0 {
        0
    } else {
        count_kind(files.drop_last(), kind) + if artifact_kind(files.last()) == kind {
            1nat
        } else {
            0nat
        }
    }
}

/// `word` alone where `shown`, and nothing where not.
pub open spec fn part(shown: bool, word: Seq<char>) -> Seq<Seq<char>> {
    if shown {
        seq![word]
    } else {
        Seq::empty()
    }
}

/// What a summary names: source distributions, universal wheels, pure
/// wheels and other wheels, each where there is one, the last two in the
/// plural where there are several.
pub open spec fn summary_parts(sdist: nat, universal: nat, pure: nat, platform: nat) -> Seq<
    Seq<char>,
> {
    part(sdist > 0, "sdist"@) + part(universal > 0, "universal wheel"@) + part(
        pure > 0,
        if pure > 1 {
            "pure wheels"@
        } else {
            "pure wheel"@
        },
    ) + part(
        platform > 0,
        if platform > 1 {
            "platform-specific wheels"@
        } else {
            "platform-specific wheel"@
        },
    )
}

/// The summary of `files`, or `None` where a file that is given as a wheel
/// has a name that is not that of one.
pub open spec fn summary_of(files: Seq<DistributionUrl>) -> Option<Seq<char>> {
    if count_kind(files, ArtifactKind::Broken) > 0 {
        None
    } else {
        Some(
            join(
                summary_parts(
                    count_kind(files, ArtifactKind::Sdist),
                    count_kind(files, ArtifactKind::Universal),
                    count_kind(files, ArtifactKind::Pure),
                    count_kind(files, ArtifactKind::Platform),
                ),
                " and "@,
            ),
        )
    }
}

/// The kind of `file`.
pub fn kind_of(file: &DistributionUrl) -> (r: ArtifactKind)
    ensures
        r == artifact_kind(*file),
{
    match file.kind() {
        PackageType::SourceArchive => ArtifactKind::Sdist,
        PackageType::BuiltArtifact => match file.filename() {
            Ok(name) => {
                let tag = name.compatibility_tag();
                if tag.is_universal() {
                    ArtifactKind::Universal
                } else if tag.is_pure() {
                    ArtifactKind::Pure
                } else {
                    ArtifactKind::Platform
                }
            },
            Err(_) => ArtifactKind::Broken,
        },
        PackageType::Other => ArtifactKind::Other,
    }
}

/// Sums up the kinds of `artifacts` in a few words, such as `sdist and
/// pure wheels`.  `None` where a file that is given as a wheel has a name
/// that is not that of one.
pub fn summarize_artifacts(artifacts: &Vec<DistributionUrl>) -> (r: Option<String>)
    ensures
        r.deep_view() == summary_of(artifacts@),
{
    let mut sdist: usize = 0;
    let mut universal: usize = 0;
    let mut pure: usize = 0;
    let mut platform: usize = 0;
    let mut broken = false;
    let mut i: usize = 0;
    while i < artifacts.len()
        invariant
            0 <= i <= artifacts.len(),
            sdist <= i && universal <= i && pure <= i && platform <= i,
            sdist == count_kind(artifacts@.take(i as int), ArtifactKind::Sdist),
            universal == count_kind(artifacts@.take(i as int), ArtifactKind::Universal),
            pure == count_kind(artifacts@.take(i as int), ArtifactKind::Pure),
            platform == count_kind(artifacts@.take(i as int), ArtifactKind::Platform),
            broken == (count_kind(artifacts@.take(i as int), ArtifactKind::Broken) > 0),
        decreases artifacts.len() - i,
    {
        proof {
            assert(artifacts@.take(i + 1).drop_last() =~= artifacts@.take(i as int));
            assert(artifacts@.take(i + 1).last() == artifacts@[i as int]);
        }
        match kind_of(&artifacts[i]) {
            ArtifactKind::Sdist => { sdist += 1; },
            ArtifactKind::Universal => { universal += 1; },
            ArtifactKind::Pure => { pure += 1; },
            ArtifactKind::Platform => { platform += 1; },
            ArtifactKind::Broken => { broken = true; },
            ArtifactKind::Other => {},
        }
        i += 1;
    }
    assert(artifacts@.take(artifacts.len() as int) =~= artifacts@);
    if broken {
        return None;
    }
    let mut parts: Vec<String> = Vec::new();
    assert(parts.deep_view() =~= Seq::<Seq<char>>::empty());
    if sdist > 0 {
        let ghost before = parts.deep_view();
        parts.push("sdist".to_owned());
        assert(parts.deep_view() =~= before + seq!["sdist"@]);
    }
    if universal > 0 {
        let ghost before = parts.deep_view();
        parts.push("universal wheel".to_owned());
        assert(parts.deep_view() =~= before + seq!["universal wheel"@]);
    }
    if pure > 0 {
        let ghost before = parts.deep_view();
        let word = if pure > 1 {
            "pure wheels"
        } else {
            "pure wheel"
        };
        parts.push(word.to_owned());
        assert(parts.deep_view() =~= before + seq![word@]);
    }
    if platform > 0 {
        let ghost before = parts.deep_view();
        let word = if platform > 1 {
            "platform-specific wheels"
        } else {
            "platform-specific wheel"
        };
        parts.push(word.to_owned());
        assert(parts.deep_view() =~= before + seq![word@]);
    }
    assert(parts.deep_view() =~= summary_parts(
        sdist as nat,
        universal as nat,
        pure as nat,
        platform as nat,
    ));
    Some(join_with(&parts, " and "))
}

} // verus!
