//! File names of wheels (PEP 427):
//! `<name>-<version>[-<build>]-<python>-<abi>-<platform>.whl`.

use vstd::prelude::*;
use crate::distribution::build_tag::{
    build_tag_from_text, build_tag_less, build_tag_text, BuildTag,
};
use crate::distribution::tag::{
    lemma_tag_text_of_parts, tag_from_parts, tag_text, CompatibilityTag, TagView,
};
use crate::distribution::Error;
use crate::text::{
    chars_of, ends_with, join, last_index, lemma_join_split, lemma_last_index, rfind_before,
    rsplit_once, split, split_range, string_of,
};
use crate::version::{normal_form, Version};

verus! {

/// The parts of a wheel's file name.
pub struct WheelName {
    distribution: String,
    version: Version,
    pub build_tag: Option<BuildTag>,
    pub compatibility_tag: CompatibilityTag,
}

/// What a wheel's file name holds: the distribution's name as written, the
/// version as written and in normal form, the build tag as number and
/// text, and the compatibility tag.
pub struct WheelNameView {
    pub distribution: Seq<char>,
    pub version_source: Seq<char>,
    pub version: Seq<char>,
    pub build_tag: Option<(nat, Seq<char>)>,
    pub compatibility_tag: TagView,
}

/// The four segments of a file name's stem, cut at its last three `-`:
/// what stands before them, and the Python, ABI and platform parts.
pub open spec fn stem_segments(stem: Seq<char>) -> Option<
    (Seq<char>, Seq<char>, Seq<char>, Seq<char>),
> {
    match rsplit_once(stem, '-') {
        None => None,
        Some((rest, platform)) => match rsplit_once(rest, '-') {
            None => None,
            Some((rest, abi)) => match rsplit_once(rest, '-') {
                None => None,
                Some((head, python)) => Some((head, python, abi, platform)),
            },
        },
    }
}

/// The name, the version in normal form and the build tag that the head of
/// a stem stands for: two or three pieces between `-`, of which the second
/// is a version and the third, where there is one, a build tag.
pub open spec fn head_fields(head: Seq<char>) -> Option<
    (Seq<char>, Seq<char>, Option<(nat, Seq<char>)>),
> {
    let tokens = split(head, '-');
    if tokens.len() < 2 || tokens.len() > 3 {
        None
    } else {
        match normal_form(tokens[1]) {
            None => None,
            Some(version) => if tokens.len() == 2 {
                Some((tokens[0], version, None))
            } else {
                match build_tag_from_text(tokens[2]) {
                    None => None,
                    Some(build) => Some((tokens[0], version, Some(build))),
                }
            },
        }
    }
}

/// The wheel name that `filename` stands for, or `None` where it is not
/// the file name of a wheel.
pub open spec fn wheel_name_from_text(filename: Seq<char>) -> Option<WheelNameView> {
    if !ends_with(filename, ".whl"@) {
        None
    } else {
        match stem_segments(filename.take(filename.len() - ".whl"@.len())) {
            None => None,
            Some((head, python, abi, platform)) => match (
                tag_from_parts(python, abi, platform),
                head_fields(head),
            ) {
                (Some(compatibility_tag), Some((distribution, version, build_tag))) => Some(
                    WheelNameView {
                        distribution,
                        version_source: split(head, '-')[1],
                        version,
                        build_tag,
                        compatibility_tag,
                    },
                ),
                _ => None,
            },
        }
    }
}

/// A wheel name written out as a file name.
pub open spec fn wheel_name_text(name: WheelNameView) -> Seq<char> {
    name.distribution + "-"@ + name.version + match name.build_tag {
        Some((number, string)) => "-"@ + build_tag_text(number, string),
        None => Seq::empty(),
    } + "-"@ + tag_text(name.compatibility_tag) + ".whl"@
}

/// The build tag of a wheel name, where a name without one counts as
/// having the least build tag: number zero, empty text.
pub open spec fn build_of(name: WheelNameView) -> (nat, Seq<char>) {
    match name.build_tag {
        Some(b) => b,
        None => (0, Seq::empty()),
    }
}

/// What a build tag that may be missing counts as: itself, or the least
/// build tag, number zero and empty text.
pub open spec fn build_or_least(build_tag: Option<BuildTag>) -> (nat, Seq<char>) {
    match build_tag {
        Some(b) => (b.number as nat, b.string@),
        None => (0, Seq::empty()),
    }
}

/// Whether the build tag `mine` comes before the build tag `theirs`, where
/// a missing build tag counts as the least.
pub fn build_tag_before(mine: &Option<BuildTag>, theirs: &Option<BuildTag>) -> (r: bool)
    ensures
        r == build_before(build_or_least(*mine), build_or_least(*theirs)),
{
    let least = BuildTag { number: 0, string: String::new() };
    let mine = match mine {
        Some(b) => b,
        None => &least,
    };
    let theirs = match theirs {
        Some(b) => b,
        None => &least,
    };
    mine.compare(theirs).0
}

/// Whether the build tag `a` comes before the build tag `b`.
pub open spec fn build_before(a: (nat, Seq<char>), b: (nat, Seq<char>)) -> bool {
    build_tag_less(a.0, a.1, b.0, b.1)
}

/// Whether `filename` writes its version in normal form and the number of
/// its build tag, where it has one, without leading zeros: whether writing
/// out what was read gives these two pieces back as they stand.
pub open spec fn is_written_in_normal_form(filename: Seq<char>) -> bool {
    match stem_segments(filename.take(filename.len() - ".whl"@.len())) {
        None => false,
        Some((head, _, _, _)) => {
            let tokens = split(head, '-');
            &&& normal_form(tokens[1]) == Some(tokens[1])
            &&& tokens.len() == 3 ==> match build_tag_from_text(tokens[2]) {
                Some((number, string)) => build_tag_text(number, string) == tokens[2],
                None => false,
            }
        },
    }
}

/// What is cut at its last `-` is the two pieces with a `-` between them.
proof fn lemma_rsplit_once_joins(s: Seq<char>)
    requires
        rsplit_once(s, '-') is Some,
    ensures
        rsplit_once(s, '-').unwrap().0 + "-"@ + rsplit_once(s, '-').unwrap().1 == s,
{
    lemma_last_index(s, '-');
    reveal_strlit("-");
    assert("-"@ =~= seq!['-']);
    let i = last_index(s, '-');
    assert(s.take(i) + seq!['-'] + s.skip(i + 1) =~= s);
}

/// Putting a text before five that are chained gives the chain of the six.
proof fn lemma_chain(p: Seq<char>, a: Seq<char>, b: Seq<char>, c: Seq<char>, d: Seq<char>, e: Seq<char>)
    ensures
        p + (a + b + c + d + e) == p + a + b + c + d + e,
{
    assert(p + (a + b + c + d + e) =~= p + a + b + c + d + e);
}

/// A stem is its four segments with `-` between them.
proof fn lemma_stem_joins(stem: Seq<char>)
    requires
        stem_segments(stem) is Some,
    ensures
        ({
            let (head, python, abi, platform) = stem_segments(stem).unwrap();
            stem == head + "-"@ + python + "-"@ + abi + "-"@ + platform
        }),
{
    let (rest1, platform) = rsplit_once(stem, '-').unwrap();
    let (rest2, abi) = rsplit_once(rest1, '-').unwrap();
    lemma_rsplit_once_joins(stem);
    lemma_rsplit_once_joins(rest1);
    lemma_rsplit_once_joins(rest2);
}

/// The head of a stem is its two or three pieces with `-` between them.
proof fn lemma_head_joins(head: Seq<char>)
    requires
        2 <= split(head, '-').len() <= 3,
    ensures
        ({
            let tokens = split(head, '-');
            head == if tokens.len() == 2 {
                tokens[0] + "-"@ + tokens[1]
            } else {
                tokens[0] + "-"@ + tokens[1] + "-"@ + tokens[2]
            }
        }),
{
    let tokens = split(head, '-');
    lemma_join_split(head, '-');
    reveal_strlit("-");
    assert("-"@ =~= seq!['-']);
    if tokens.len() == 2 {
        assert(tokens.drop_last() =~= seq![tokens[0]]);
        assert(join(tokens.drop_last(), "-"@) == tokens[0]);
    } else {
        let two = tokens.drop_last();
        assert(two.drop_last() =~= seq![tokens[0]]);
        assert(join(two.drop_last(), "-"@) == tokens[0]);
        assert(join(two, "-"@) == tokens[0] + "-"@ + tokens[1]);
    }
}

/// A file name that is put together from the pieces of a wheel name is
/// the pieces written out one after the other.
proof fn lemma_pieces_written(
    filename: Seq<char>,
    stem: Seq<char>,
    head: Seq<char>,
    tokens: Seq<Seq<char>>,
    build: Option<(nat, Seq<char>)>,
    python: Seq<char>,
    abi: Seq<char>,
    platform: Seq<char>,
)
    requires
        filename == stem + ".whl"@,
        stem == head + "-"@ + python + "-"@ + abi + "-"@ + platform,
        head == if tokens.len() == 2 {
            tokens[0] + "-"@ + tokens[1]
        } else {
            tokens[0] + "-"@ + tokens[1] + "-"@ + tokens[2]
        },
        match build {
            Some((number, string)) => tokens.len() == 3 && build_tag_text(number, string)
                == tokens[2],
            None => tokens.len() == 2,
        },
    ensures
        tokens[0] + "-"@ + tokens[1] + (match build {
            Some((number, string)) => "-"@ + build_tag_text(number, string),
            None => Seq::empty(),
        }) + "-"@ + (python + "-"@ + abi + "-"@ + platform) + ".whl"@ == filename,
{
    let written = tokens[0] + "-"@ + tokens[1] + (match build {
        Some((number, string)) => "-"@ + build_tag_text(number, string),
        None => Seq::empty(),
    });
    assert(written == head) by {
        if tokens.len() == 2 {
            assert(tokens[0] + "-"@ + tokens[1] + Seq::<char>::empty() =~= tokens[0] + "-"@
                + tokens[1]);
        } else {
            assert(tokens[0] + "-"@ + tokens[1] + ("-"@ + tokens[2]) =~= tokens[0] + "-"@
                + tokens[1] + "-"@ + tokens[2]);
        }
    }
    assert(head + "-"@ + (python + "-"@ + abi + "-"@ + platform) == stem) by {
        lemma_chain(head + "-"@, python, "-"@, abi, "-"@, platform);
    }
}

/// The file name of a wheel that is written in normal form is what the
/// wheel name read from it is written out as.
pub proof fn lemma_wheel_name_round_trip(filename: Seq<char>)
    requires
        wheel_name_from_text(filename) is Some,
        is_written_in_normal_form(filename),
    ensures
        wheel_name_text(wheel_name_from_text(filename).unwrap()) == filename,
{
    let stem = filename.take(filename.len() - ".whl"@.len());
    let (head, python, abi, platform) = stem_segments(stem).unwrap();
    let w = wheel_name_from_text(filename).unwrap();
    let tokens = split(head, '-');
    assert(tag_text(w.compatibility_tag) == python + "-"@ + abi + "-"@ + platform) by {
        lemma_tag_text_of_parts(python, abi, platform);
    }
    assert(stem + ".whl"@ == filename) by {
        assert(stem + ".whl"@ =~= filename);
    }
    lemma_stem_joins(stem);
    lemma_head_joins(head);
    assert(w.distribution == tokens[0]);
    assert(w.version == tokens[1]);
    lemma_pieces_written(filename, stem, head, tokens, w.build_tag, python, abi, platform);
}

impl View for WheelName {
    type V = WheelNameView;

    closed spec fn view(&self) -> WheelNameView {
        WheelNameView {
            distribution: self.distribution@,
            version_source: self.version.source(),
            version: self.version.normalized(),
            build_tag: match self.build_tag {
                Some(b) => Some((b.number as nat, b.string@)),
                None => None,
            },
            compatibility_tag: self.compatibility_tag@,
        }
    }
}

impl WheelName {
    /// Reads the file name of a wheel; `Err(InvalidWheelName)` where
    /// `filename` is none.
    pub fn from_filename(filename: &str) -> (r: Result<Self, Error>)
        ensures
            match r {
                Ok(w) => wheel_name_from_text(filename@) == Some(w@),
                Err(e) => wheel_name_from_text(filename@) is None && e == Error::InvalidWheelName,
            },
    {
        let v = chars_of(filename);
        let n = v.len();
        proof {
            reveal_strlit(".whl");
            if n >= 4 {
                let tail = v@.skip(n - 4);
                assert(tail.len() == 4);
                if tail == ".whl"@ {
                    assert(tail[0] == '.' && tail[1] == 'w' && tail[2] == 'h' && tail[3] == 'l');
                }
                if v@[n - 4] == '.' && v@[n - 3] == 'w' && v@[n - 2] == 'h' && v@[n - 1] == 'l' {
                    assert(tail =~= ".whl"@);
                }
            }
        }
        if n < 4 || v[n - 4] != '.' || v[n - 3] != 'w' || v[n - 2] != 'h' || v[n - 1] != 'l' {
            return Err(Error::InvalidWheelName);
        }
        let end = n - 4;
        let ghost stem = v@.take(end as int);
        let third = match rfind_before(&v, end, '-') {
            Some(i) => i,
            None => { return Err(Error::InvalidWheelName); },
        };
        assert(stem.take(third as int) =~= v@.take(third as int));
        let second = match rfind_before(&v, third, '-') {
            Some(i) => i,
            None => { return Err(Error::InvalidWheelName); },
        };
        assert(v@.take(third as int).take(second as int) =~= v@.take(second as int));
        let first = match rfind_before(&v, second, '-') {
            Some(i) => i,
            None => { return Err(Error::InvalidWheelName); },
        };
        let python = string_of(&v, first + 1, second);
        let abi = string_of(&v, second + 1, third);
        let platform = string_of(&v, third + 1, end);
        proof {
            assert(stem.skip(third + 1) =~= v@.subrange(third + 1, end as int));
            assert(v@.take(third as int).skip(second + 1) =~= v@.subrange(
                second + 1,
                third as int,
            ));
            assert(v@.take(second as int).skip(first + 1) =~= v@.subrange(
                first + 1,
                second as int,
            ));
            assert(v@.take(second as int).take(first as int) =~= v@.subrange(0, first as int));
            assert(stem_segments(stem) == Some(
                (v@.subrange(0, first as int), python@, abi@, platform@),
            ));
        }
        let compatibility_tag = match CompatibilityTag::from_parts(
            python.as_str(),
            abi.as_str(),
            platform.as_str(),
        ) {
            Some(t) => t,
            None => { return Err(Error::InvalidWheelName); },
        };
        let tokens = split_range(&v, 0, first, '-');
        if tokens.len() < 2 || tokens.len() > 3 {
            return Err(Error::InvalidWheelName);
        }
        let version = match Version::parse(tokens[1].as_str()) {
            Some(version) => version,
            None => { return Err(Error::InvalidWheelName); },
        };
        let build_tag = if tokens.len() == 3 {
            match BuildTag::parse(tokens[2].as_str()) {
                Some(b) => Some(b),
                None => { return Err(Error::InvalidWheelName); },
            }
        } else {
            None
        };
        let distribution = tokens[0].clone();
        Ok(WheelName { distribution, version, build_tag, compatibility_tag })
    }

    /// The build tag, where the name has one.
    pub fn build_tag(&self) -> (r: Option<&BuildTag>)
        ensures
            match r {
                Some(b) => self@.build_tag == Some((b.number as nat, b.string@)),
                None => self@.build_tag is None,
            },
    {
        self.build_tag.as_ref()
    }

    /// The compatibility tag.
    pub fn compatibility_tag(&self) -> (r: &CompatibilityTag)
        ensures
            r@ == self@.compatibility_tag,
    {
        &self.compatibility_tag
    }

    /// Whether this name's build tag comes before that of `other`, where
    /// a name without a build tag counts as having the least.
    pub fn build_tag_before(&self, other: &WheelName) -> (r: bool)
        ensures
            r == build_before(build_of(self@), build_of(other@)),
    {
        build_tag_before(&self.build_tag, &other.build_tag)
    }

    /// The compatibility tag and the build tag, taken out of the name.
    pub fn into_tags(self) -> (r: (CompatibilityTag, Option<BuildTag>))
        ensures
            r.0@ == self@.compatibility_tag,
            build_or_least(r.1) == build_of(self@),
    {
        (self.compatibility_tag, self.build_tag)
    }

    /// The distribution's name, as the file name writes it.
    pub fn distribution(&self) -> (r: &str)
        ensures
            r@ == self@.distribution,
    {
        self.distribution.as_str()
    }

    /// The version: the one that the second piece of the file name was
    /// read as.
    pub fn version(&self) -> (r: &Version)
        ensures
            r.source() == self@.version_source,
            r.normalized() == self@.version,
    {
        &self.version
    }

    /// The wheel name written out as a file name, with the version in
    /// normal form.
    pub fn to_string(&self) -> (r: String)
        ensures
            r@ == wheel_name_text(self@),
    {
        let mut s = self.distribution.clone();
        s.append("-");
        s.append(self.version.normalize().as_str());
        match &self.build_tag {
            Some(b) => {
                s.append("-");
                s.append(b.to_string().as_str());
                assert(s@ =~= self@.distribution + "-"@ + self@.version + ("-"@ + build_tag_text(
                    b.number as nat,
                    b.string@,
                )));
            },
            None => {
                assert(s@ =~= self@.distribution + "-"@ + self@.version + Seq::<char>::empty());
            },
        }
        s.append("-");
        s.append(self.compatibility_tag.to_string().as_str());
        s.append(".whl");
        s
    }
}

} // verus!
