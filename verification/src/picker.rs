//! Choosing among the files of a package version: the source distribution,
//! the wheel for a given compatibility tag, or the wheel that fits most
//! environments.

use vstd::prelude::*;
use crate::distribution::build_tag::{
    lemma_lex_less_irreflexive, lemma_lex_less_total, lemma_lex_less_transitive,
};
use crate::distribution::tag::{is_pure, is_universal, tag_from_text, TagView};
use crate::distribution::wheel::{
    build_before, build_of, build_or_least, build_tag_before, wheel_name_from_text,
    WheelNameView,
};
use crate::distribution;
use crate::distribution::{BuildTag, CompatibilityTag, WheelName};
use crate::text::str_eq;
use crate::package_inspect;
use crate::version::Version;
use crate::warehouse;
use crate::warehouse::{
    package_type_of, sources, version_texts, DistributionUrl, PackageType,
};

verus! {

/// Whether `file` is a source distribution.
pub open spec fn is_sdist(file: DistributionUrl) -> bool {
    package_type_of(file.packagetype@) == PackageType::SourceArchive
}

/// The wheel name of `file`, where `file` is a wheel and its name is that
/// of one.
pub open spec fn wheel_of(file: DistributionUrl) -> Option<WheelNameView> {
    if package_type_of(file.packagetype@) == PackageType::BuiltArtifact {
        wheel_name_from_text(file.filename@)
    } else {
        None
    }
}

/// How widely a tag applies, the more the greater: universal, pure, for
/// any platform, for any ABI, or none of these.
pub open spec fn breadth(tag: TagView) -> nat {
    if is_universal(tag) {
        4
    } else if is_pure(tag) {
        3
    } else if tag.platform is None {
        2
    } else if tag.abi is None {
        1
    } else {
        0
    }
}

/// How widely the wheel `file` applies.
pub open spec fn breadth_of(file: DistributionUrl) -> nat {
    breadth(wheel_of(file).unwrap().compatibility_tag)
}

/// Whether `files[i]` is the first source distribution among `files`.
pub open spec fn is_first_sdist(files: Seq<DistributionUrl>, i: int) -> bool {
    &&& 0 <= i < files.len()
    &&& is_sdist(files[i])
    &&& forall|j: int| 0 <= j < i ==> !is_sdist(#[trigger] files[j])
}

/// A wheel as the choice for a tag sees it: its tag and its build tag.
pub type Candidate = (TagView, (nat, Seq<char>));

/// Whether `wheels[i]` is a wheel with the tag `tag`.
pub open spec fn has_tag(wheels: Seq<Option<Candidate>>, tag: TagView, i: int) -> bool {
    0 <= i < wheels.len() && match wheels[i] {
        Some(wheel) => wheel.0 == tag,
        None => false,
    }
}

/// Whether `wheels[i]` is the wheel to take for the tag `tag`: among the
/// wheels with that tag it has the greatest build tag, and is the last of
/// those that have it.
pub open spec fn is_newest(wheels: Seq<Option<Candidate>>, tag: TagView, i: int) -> bool {
    &&& has_tag(wheels, tag, i)
    &&& forall|j: int| #[trigger]
        has_tag(wheels, tag, j) ==> {
            let mine = wheels[i].unwrap().1;
            let other = wheels[j].unwrap().1;
            !build_before(mine, other) && (j > i ==> build_before(other, mine))
        }
}

/// Whether `tags[i]` is the tag of the wheel to take where no tag is asked
/// for: no tag among `tags` applies more widely, and it is the first of
/// those that apply as widely.
pub open spec fn is_widest(tags: Seq<Option<TagView>>, i: int) -> bool {
    &&& 0 <= i < tags.len()
    &&& tags[i] is Some
    &&& forall|j: int|
        0 <= j < tags.len() && (#[trigger] tags[j]) is Some ==> breadth(tags[j].unwrap())
            <= breadth(tags[i].unwrap()) && (j < i ==> breadth(tags[j].unwrap()) < breadth(
            tags[i].unwrap(),
        ))
}

/// The tag of `file`, where `file` is a wheel and its name is that of one.
pub open spec fn tag_of(file: DistributionUrl) -> Option<TagView> {
    match wheel_of(file) {
        Some(name) => Some(name.compatibility_tag),
        None => None,
    }
}

/// The tag and build tag of `file`, where `file` is a wheel and its name is
/// that of one; a name without a build tag counts as having the least.
pub open spec fn candidate_of(file: DistributionUrl) -> Option<Candidate> {
    match wheel_of(file) {
        Some(name) => Some((name.compatibility_tag, build_of(name))),
        None => None,
    }
}

/// The tags of the wheels among `files`, each at the place of its file.
pub open spec fn tags_of(files: Seq<DistributionUrl>) -> Seq<Option<TagView>> {
    files.map_values(|file: DistributionUrl| tag_of(file))
}

/// The wheels among `files`, each at the place of its file.
pub open spec fn candidates_of(files: Seq<DistributionUrl>) -> Seq<Option<Candidate>> {
    files.map_values(|file: DistributionUrl| candidate_of(file))
}

/// Whether `files[i]` is a wheel with the tag `tag`.
pub open spec fn is_match(files: Seq<DistributionUrl>, tag: TagView, i: int) -> bool {
    has_tag(candidates_of(files), tag, i)
}

/// Whether `files[i]` is the wheel to take for the tag `tag`: among the
/// wheels with that tag it has the greatest build tag, and is the last of
/// those that have it.
pub open spec fn is_exact_bdist(files: Seq<DistributionUrl>, tag: TagView, i: int) -> bool {
    is_newest(candidates_of(files), tag, i)
}

/// Whether `files[i]` is the wheel to take where no tag is asked for: no
/// wheel among `files` applies more widely, and it is the first of those
/// that apply as widely.
pub open spec fn is_best_bdist(files: Seq<DistributionUrl>, i: int) -> bool {
    is_widest(tags_of(files), i)
}

/// Only one tag is the widest.
pub proof fn lemma_widest_is_unique(tags: Seq<Option<TagView>>, i: int, j: int)
    requires
        is_widest(tags, i),
        is_widest(tags, j),
    ensures
        i == j,
{
    if i < j {
        assert(breadth(tags[i].unwrap()) < breadth(tags[j].unwrap()));
    } else if j < i {
        assert(breadth(tags[j].unwrap()) < breadth(tags[i].unwrap()));
    }
}

/// Only one wheel is the newest with a tag.
pub proof fn lemma_newest_is_unique(wheels: Seq<Option<Candidate>>, tag: TagView, i: int, j: int)
    requires
        is_newest(wheels, tag, i),
        is_newest(wheels, tag, j),
    ensures
        i == j,
{
    assert(has_tag(wheels, tag, i) && has_tag(wheels, tag, j));
}

/// Where one of the wheels is pure, the widest is pure.
pub proof fn lemma_widest_of_pure_is_pure(tags: Seq<Option<TagView>>, i: int, j: int)
    requires
        is_widest(tags, i),
        0 <= j < tags.len(),
        tags[j] is Some,
        is_pure(tags[j].unwrap()),
    ensures
        is_pure(tags[i].unwrap()),
{
    assert(breadth(tags[j].unwrap()) <= breadth(tags[i].unwrap()));
}

/// The only wheel is the widest.
pub proof fn lemma_only_wheel_is_widest(tags: Seq<Option<TagView>>)
    requires
        tags.len() == 1,
        tags[0] is Some,
    ensures
        is_widest(tags, 0),
{
}

/// Only one file is the wheel to take where no tag is asked for.
pub proof fn lemma_best_bdist_is_unique(files: Seq<DistributionUrl>, i: int, j: int)
    requires
        is_best_bdist(files, i),
        is_best_bdist(files, j),
    ensures
        i == j,
{
    lemma_widest_is_unique(tags_of(files), i, j);
}

/// Only one file is the wheel to take for a tag.
pub proof fn lemma_exact_bdist_is_unique(files: Seq<DistributionUrl>, tag: TagView, i: int, j: int)
    requires
        is_exact_bdist(files, tag, i),
        is_exact_bdist(files, tag, j),
    ensures
        i == j,
{
    lemma_newest_is_unique(candidates_of(files), tag, i, j);
}

/// Where one of the files is a pure wheel, the wheel to take where no tag
/// is asked for is pure.
pub proof fn lemma_best_of_pure_is_pure(files: Seq<DistributionUrl>, i: int, j: int)
    requires
        is_best_bdist(files, i),
        0 <= j < files.len(),
        tag_of(files[j]) is Some,
        is_pure(tag_of(files[j]).unwrap()),
    ensures
        tag_of(files[i]) is Some,
        is_pure(tag_of(files[i]).unwrap()),
{
    lemma_widest_of_pure_is_pure(tags_of(files), i, j);
}

/// A single file that is a wheel is the wheel to take where no tag is
/// asked for.
pub proof fn lemma_single_wheel_is_best(files: Seq<DistributionUrl>)
    requires
        files.len() == 1,
        wheel_of(files[0]) is Some,
    ensures
        is_best_bdist(files, 0),
{
    lemma_only_wheel_is_widest(tags_of(files));
}

/// The file that a reference to a file stands for.
pub open spec fn file_of(r: Option<&DistributionUrl>) -> Option<DistributionUrl> {
    match r {
        Some(file) => Some(*file),
        None => None,
    }
}

/// Whether `r` is the first source distribution among `files`, or `None`
/// where there is none.
pub open spec fn is_sdist_choice(files: Seq<DistributionUrl>, r: Option<DistributionUrl>) -> bool {
    match r {
        Some(file) => exists|i: int| is_first_sdist(files, i) && file == files[i],
        None => forall|i: int| 0 <= i < files.len() ==> !is_sdist(#[trigger] files[i]),
    }
}

/// Whether `r` is the wheel to take among `files` for the tag `tag`, or
/// `None` where no wheel has that tag.
pub open spec fn is_exact_choice(
    files: Seq<DistributionUrl>,
    tag: TagView,
    r: Option<DistributionUrl>,
) -> bool {
    match r {
        Some(file) => exists|i: int| is_exact_bdist(files, tag, i) && file == files[i],
        None => forall|i: int| !is_match(files, tag, i),
    }
}

/// Whether `r` is the wheel to take among `files` where no tag is asked
/// for, or `None` where there is no wheel.
pub open spec fn is_best_choice(files: Seq<DistributionUrl>, r: Option<DistributionUrl>) -> bool {
    match r {
        Some(file) => exists|i: int| is_best_bdist(files, i) && file == files[i],
        None => forall|i: int| 0 <= i < files.len() ==> wheel_of(#[trigger] files[i]) is None,
    }
}

/// Whether `r` is the file to take among `files` for what the user asked
/// for: the source distribution for `sdist`, the wheel with the tag for a
/// tag, no file for any other text, and the wheel that applies most widely
/// where nothing was asked for.
pub open spec fn is_choice(
    selector: Option<Seq<char>>,
    files: Seq<DistributionUrl>,
    r: Option<DistributionUrl>,
) -> bool {
    match selector {
        Some(asked) => if asked == "sdist"@ {
            is_sdist_choice(files, r)
        } else {
            match tag_from_text(asked) {
                Some(tag) => is_exact_choice(files, tag, r),
                None => r is None,
            }
        },
        None => is_best_choice(files, r),
    }
}

/// The wheel name of `file`, where `file` is a wheel and its name is that
/// of one.
fn wheel_name(file: &DistributionUrl) -> (r: Option<WheelName>)
    ensures
        match r {
            Some(w) => wheel_of(*file) == Some(w@),
            None => wheel_of(*file) is None,
        },
{
    if file.kind() != PackageType::BuiltArtifact {
        return None;
    }
    match WheelName::from_filename(file.filename.as_str()) {
        Ok(w) => Some(w),
        Err(_) => None,
    }
}

/// How widely `tag` applies.
fn tag_breadth(tag: &CompatibilityTag) -> (r: u8)
    ensures
        r == breadth(tag@),
{
    if tag.is_universal() {
        4
    } else if tag.is_pure() {
        3
    } else if tag.for_any_platform() {
        2
    } else if tag.for_any_abi() {
        1
    } else {
        0
    }
}

/// The first source distribution among `files`.
pub fn select_sdist(files: &Vec<DistributionUrl>) -> (r: Option<&DistributionUrl>)
    ensures
        is_sdist_choice(files@, file_of(r)),
{
    let mut i: usize = 0;
    while i < files.len()
        invariant
            0 <= i <= files.len(),
            forall|j: int| 0 <= j < i ==> !is_sdist(#[trigger] files@[j]),
        decreases files.len() - i,
    {
        if files[i].kind() == PackageType::SourceArchive {
            assert(is_first_sdist(files@, i as int));
            return Some(&files[i]);
        }
        i += 1;
    }
    None
}

/// What a tag that was read, or none, holds.
pub open spec fn tag_view(tag: Option<CompatibilityTag>) -> Option<TagView> {
    match tag {
        Some(t) => Some(t@),
        None => None,
    }
}

/// What a wheel that was read, or none, holds for the choice: its tag, and
/// its build tag or the least.
pub open spec fn candidate_view(wheel: Option<(CompatibilityTag, Option<BuildTag>)>) -> Option<
    Candidate,
> {
    match wheel {
        Some(w) => Some((w.0@, build_or_least(w.1))),
        None => None,
    }
}

/// What tags that were read hold, each at its place.
pub open spec fn tag_views(tags: Seq<Option<CompatibilityTag>>) -> Seq<Option<TagView>> {
    tags.map_values(|tag: Option<CompatibilityTag>| tag_view(tag))
}

/// What wheels that were read hold for the choice, each at its place.
pub open spec fn candidate_views(wheels: Seq<Option<(CompatibilityTag, Option<BuildTag>)>>) -> Seq<
    Option<Candidate>,
> {
    wheels.map_values(|wheel: Option<(CompatibilityTag, Option<BuildTag>)>| candidate_view(wheel))
}

/// The place of the tag that applies most widely: a universal tag before a
/// pure one, a pure one before one for any platform, that before one for
/// any ABI, and that before the rest; of several that apply as widely, the
/// first.  Places without a tag are passed over.  `None` where there is no
/// tag.
pub fn widest(tags: &Vec<Option<CompatibilityTag>>) -> (r: Option<usize>)
    ensures
        match r {
            Some(i) => is_widest(tag_views(tags@), i as int),
            None => forall|j: int| 0 <= j < tags.len() ==> (#[trigger] tags@[j]) is None,
        },
{
    let ghost views = tag_views(tags@);
    let mut best: Option<(usize, u8)> = None;
    let mut i: usize = 0;
    while i < tags.len()
        invariant
            0 <= i <= tags.len(),
            views == tag_views(tags@),
            match best {
                Some((b, held)) => {
                    &&& b < i
                    &&& views[b as int] is Some
                    &&& held == breadth(views[b as int].unwrap())
                    &&& forall|j: int|
                        0 <= j < i && (#[trigger] views[j]) is Some ==> breadth(views[j].unwrap())
                            <= held && (j < b ==> breadth(views[j].unwrap()) < held)
                },
                None => forall|j: int| 0 <= j < i ==> (#[trigger] tags@[j]) is None,
            },
        decreases tags.len() - i,
    {
        assert(views[i as int] == tag_view(tags@[i as int]));
        match &tags[i] {
            Some(tag) => {
                let breadth = tag_breadth(tag);
                let take = match best {
                    Some((_, held)) => breadth > held,
                    None => true,
                };
                proof {
                    if best is None {
                        assert forall|j: int| 0 <= j < i implies (#[trigger] views[j]) is None by {
                            assert(views[j] == tag_view(tags@[j]));
                        }
                    }
                }
                if take {
                    best = Some((i, breadth));
                }
            },
            None => {},
        }
        i += 1;
    }
    match best {
        Some((b, _)) => Some(b),
        None => None,
    }
}

/// The place of the wheel to take for the tag `requested`: of the wheels
/// with exactly that tag the one with the greatest build tag, where a
/// wheel without a build tag counts as having the least, and the last of
/// those that have it.  Places without a wheel are passed over.  `None`
/// where no wheel has the tag.
pub fn newest(
    requested: &CompatibilityTag,
    wheels: &Vec<Option<(CompatibilityTag, Option<BuildTag>)>>,
) -> (r: Option<usize>)
    ensures
        match r {
            Some(i) => is_newest(candidate_views(wheels@), requested@, i as int),
            None => forall|j: int| !has_tag(candidate_views(wheels@), requested@, j),
        },
{
    let ghost views = candidate_views(wheels@);
    let mut best: Option<usize> = None;
    let mut i: usize = 0;
    while i < wheels.len()
        invariant
            0 <= i <= wheels.len(),
            views == candidate_views(wheels@),
            views.len() == wheels.len(),
            match best {
                Some(b) => {
                    &&& b < i
                    &&& has_tag(views, requested@, b as int)
                    &&& forall|j: int|
                        0 <= j < i && #[trigger] has_tag(views, requested@, j) ==> {
                            let mine = views[b as int].unwrap().1;
                            let other = views[j].unwrap().1;
                            !build_before(mine, other) && (j > b ==> build_before(other, mine))
                        }
                },
                None => forall|j: int| 0 <= j < i ==> !has_tag(views, requested@, j),
            },
        decreases wheels.len() - i,
    {
        assert(views[i as int] == candidate_view(wheels@[i as int]));
        match &wheels[i] {
            Some((tag, build)) => {
                if *tag == *requested {
                    let take = match best {
                        Some(b) => {
                            assert(views[b as int] == candidate_view(wheels@[b as int]));
                            match &wheels[b] {
                                Some((_, held)) => !build_tag_before(build, held),
                                None => true,
                            }
                        },
                        None => true,
                    };
                    proof {
                        lemma_take_or_keep(
                            views,
                            requested@,
                            match best {
                                Some(b) => Some(b as int),
                                None => None,
                            },
                            i as int,
                            take,
                        );
                    }
                    if take {
                        best = Some(i);
                    }
                }
            },
            None => {},
        }
        i += 1;
    }
    best
}

/// One step of choosing the wheel for a tag: where the build tag of the
/// wheel at `i` does not come before the one held so far, that wheel
/// replaces it, and else the one held stays.
proof fn lemma_take_or_keep(
    wheels: Seq<Option<Candidate>>,
    tag: TagView,
    best: Option<int>,
    i: int,
    take: bool,
)
    requires
        has_tag(wheels, tag, i),
        match best {
            Some(b) => {
                &&& 0 <= b < i
                &&& has_tag(wheels, tag, b)
                &&& take == !build_before(wheels[i].unwrap().1, wheels[b].unwrap().1)
                &&& forall|j: int|
                    0 <= j < i && #[trigger] has_tag(wheels, tag, j) ==> {
                        let mine = wheels[b].unwrap().1;
                        let other = wheels[j].unwrap().1;
                        !build_before(mine, other) && (j > b ==> build_before(other, mine))
                    }
            },
            None => take && forall|j: int| 0 <= j < i ==> !has_tag(wheels, tag, j),
        },
    ensures
        ({
            let now = if take {
                i
            } else {
                best.unwrap()
            };
            forall|j: int|
                0 <= j < i + 1 && #[trigger] has_tag(wheels, tag, j) ==> {
                    let mine = wheels[now].unwrap().1;
                    let other = wheels[j].unwrap().1;
                    !build_before(mine, other) && (j > now ==> build_before(other, mine))
                }
        }),
{
    let now = if take {
        i
    } else {
        best.unwrap()
    };
    let mine = wheels[now].unwrap().1;
    let fresh = wheels[i].unwrap().1;
    assert forall|j: int| 0 <= j < i + 1 && #[trigger] has_tag(wheels, tag, j) implies {
        let other = wheels[j].unwrap().1;
        !build_before(mine, other) && (j > now ==> build_before(other, mine))
    } by {
        let other = wheels[j].unwrap().1;
        lemma_lex_less_irreflexive(mine.1);
        if best is Some {
            let held = wheels[best.unwrap()].unwrap().1;
            lemma_lex_less_total(fresh.1, held.1);
            lemma_lex_less_total(other.1, held.1);
            lemma_lex_less_total(fresh.1, other.1);
            if take && j < i && build_before(fresh, other) && fresh.0 == other.0 && other.0
                == held.0 && other.1 != held.1 {
                lemma_lex_less_transitive(fresh.1, other.1, held.1);
            }
        }
    }
}

/// The tags and build tags of the wheels among `files`, each at the place
/// of its file: nothing for a file that is no wheel, or whose name is not
/// that of one.
pub fn read_wheels(files: &Vec<DistributionUrl>) -> (r: Vec<
    Option<(CompatibilityTag, Option<BuildTag>)>,
>)
    ensures
        candidate_views(r@) == candidates_of(files@),
{
    let mut wheels: Vec<Option<(CompatibilityTag, Option<BuildTag>)>> = Vec::new();
    let mut i: usize = 0;
    while i < files.len()
        invariant
            0 <= i <= files.len(),
            wheels.len() == i,
            forall|k: int|
                0 <= k < i ==> candidate_view(#[trigger] wheels@[k]) == candidate_of(files@[k]),
        decreases files.len() - i,
    {
        let wheel = match wheel_name(&files[i]) {
            Some(name) => Some(name.into_tags()),
            None => None,
        };
        wheels.push(wheel);
        i += 1;
    }
    assert(candidate_views(wheels@) =~= candidates_of(files@));
    wheels
}

/// The wheel among `files` for the tag `requested`: of the wheels with
/// exactly that tag the one with the greatest build tag, where a wheel
/// without a build tag counts as having the least, and the last of those
/// that have it.  `None` where no wheel has the tag.
pub fn select_bdist<'a>(requested: &CompatibilityTag, files: &'a Vec<DistributionUrl>) -> (r:
    Option<&'a DistributionUrl>)
    ensures
        is_exact_choice(files@, requested@, file_of(r)),
{
    let wheels = read_wheels(files);
    match newest(requested, &wheels) {
        Some(i) => {
            assert(is_exact_bdist(files@, requested@, i as int));
            Some(&files[i])
        },
        None => None,
    }
}

/// The wheel among `files` that applies most widely: a universal wheel
/// before a pure one, a pure one before one for any platform, that before
/// one for any ABI, and that before the rest; of several that apply as
/// widely, the first.  Files that are no wheels, or whose names are not
/// those of wheels, are passed over.  `None` where no wheel is left.
pub fn pick_best_bdist(files: &Vec<DistributionUrl>) -> (r: Option<&DistributionUrl>)
    ensures
        is_best_choice(files@, file_of(r)),
{
    let tags = read_tags(files);
    match widest(&tags) {
        Some(i) => {
            assert(is_best_bdist(files@, i as int));
            Some(&files[i])
        },
        None => {
            assert(tag_views(tags@).len() == tags@.len());
            assert(tags_of(files@).len() == files@.len());
            assert forall|j: int| 0 <= j < files.len() implies wheel_of(
                #[trigger] files@[j],
            ) is None by {
                assert(tag_views(tags@)[j] == tag_view(tags@[j]));
                assert(tags_of(files@)[j] == tag_of(files@[j]));
            }
            None
        },
    }
}

/// The tags of the wheels among `files`, each at the place of its file:
/// nothing for a file that is no wheel, or whose name is not that of one.
pub fn read_tags(files: &Vec<DistributionUrl>) -> (r: Vec<Option<CompatibilityTag>>)
    ensures
        tag_views(r@) == tags_of(files@),
{
    let mut tags: Vec<Option<CompatibilityTag>> = Vec::new();
    let mut i: usize = 0;
    while i < files.len()
        invariant
            0 <= i <= files.len(),
            tags.len() == i,
            forall|k: int| 0 <= k < i ==> tag_view(#[trigger] tags@[k]) == tag_of(files@[k]),
        decreases files.len() - i,
    {
        let tag = match wheel_name(&files[i]) {
            Some(name) => Some(name.into_tags().0),
            None => None,
        };
        tags.push(tag);
        i += 1;
    }
    assert(tag_views(tags@) =~= tags_of(files@));
    tags
}

/// Why a project has nothing to show.
#[derive(Debug, Clone, Copy, PartialEq, Eq, Structural)]
pub enum Error {
    /// The index could not be asked or gave no answer.
    Warehouse(warehouse::Error),
    /// No file of the version is the one asked for.
    Distribution(distribution::Error),
}

/// What the user asked for, and what has been loaded of it so far.  The
/// project decides what is to be fetched and what is taken of it; the
/// fetching is its user's.
#[derive(Debug)]
pub struct Project {
    package_selector: String,
    version_selector: Option<String>,
    distribution_selector: Option<String>,
    package: Option<warehouse::Package>,
    version: Option<warehouse::PackageVersion>,
    import_package: Option<package_inspect::Package>,
}

/// What a project holds.
pub struct ProjectView {
    pub package_selector: Seq<char>,
    pub version_selector: Option<Seq<char>>,
    pub distribution_selector: Option<Seq<char>>,
    pub package: Option<warehouse::Package>,
    pub version: Option<warehouse::PackageVersion>,
    pub import_package: Option<package_inspect::Package>,
}

impl View for Project {
    type V = ProjectView;

    closed spec fn view(&self) -> ProjectView {
        ProjectView {
            package_selector: self.package_selector@,
            version_selector: self.version_selector.deep_view(),
            distribution_selector: self.distribution_selector.deep_view(),
            package: self.package,
            version: self.version,
            import_package: self.import_package,
        }
    }
}

/// The files of the version that a project has loaded; none where it has
/// loaded no version.
pub open spec fn files_of(project: ProjectView) -> Seq<DistributionUrl> {
    match project.version {
        Some(v) => v.urls@,
        None => Seq::empty(),
    }
}

/// Whether each version is at least the one that follows it.
pub open spec fn is_descending(versions: Seq<Version>) -> bool {
    forall|i: int|
        0 <= i < versions.len() - 1 ==> crate::version::version_at_most(
            (#[trigger] versions[i + 1]).source(),
            versions[i].source(),
        )
}

/// The address of the wheel to inspect, or why there is none: a source
/// distribution cannot be inspected, so `Err(InvalidName)` where one was
/// asked for or chosen, and `Err(InvalidWheelName)` where no file is the
/// one asked for.
pub open spec fn wheel_to_inspect(project: ProjectView, chosen: Option<DistributionUrl>) -> Result<
    Seq<char>,
    Error,
> {
    if project.distribution_selector == Some("sdist"@) {
        Err(Error::Warehouse(warehouse::Error::InvalidName))
    } else {
        match chosen {
            None => Err(Error::Distribution(distribution::Error::InvalidWheelName)),
            Some(file) => if is_sdist(file) {
                Err(Error::Warehouse(warehouse::Error::InvalidName))
            } else {
                Ok(file.url@)
            },
        }
    }
}

/// Why nothing is known of the wheel of a project that has inspected none,
/// where `chosen` is the file of it that is taken: the reason why no wheel
/// can be inspected, or `NotFound` where one can and has not been fetched.
pub open spec fn not_inspected(project: ProjectView, chosen: Option<DistributionUrl>) -> Error {
    match wheel_to_inspect(project, chosen) {
        Err(e) => e,
        Ok(_) => Error::Warehouse(warehouse::Error::NotFound),
    }
}

impl Project {
    /// A project of which nothing is loaded.
    pub fn new(
        user_package: String,
        user_version: Option<String>,
        user_distribution: Option<String>,
    ) -> (r: Self)
        ensures
            r@.package_selector == user_package@,
            r@.version_selector == user_version.deep_view(),
            r@.distribution_selector == user_distribution.deep_view(),
            r@.package is None,
            r@.version is None,
            r@.import_package is None,
    {
        Project {
            package_selector: user_package,
            version_selector: user_version,
            distribution_selector: user_distribution,
            package: None,
            version: None,
            import_package: None,
        }
    }

    /// Whether the user asked for a version.
    pub fn version_was_selected(&self) -> (r: bool)
        ensures
            r == (self@.version_selector is Some),
    {
        self.version_selector.is_some()
    }

    /// Whether the user asked for a distribution.
    pub fn distribution_was_selected(&self) -> (r: bool)
        ensures
            r == (self@.distribution_selector is Some),
    {
        self.distribution_selector.is_some()
    }

    /// The package that the user asked for.
    pub fn package_selector(&self) -> (r: String)
        ensures
            r@ == self@.package_selector,
    {
        self.package_selector.clone()
    }

    /// The version that the user asked for.
    pub fn version_selector(&self) -> (r: Option<String>)
        ensures
            r.deep_view() == self@.version_selector,
    {
        match &self.version_selector {
            Some(v) => Some(v.clone()),
            None => None,
        }
    }

    /// The distribution that the user asked for.
    pub fn distribution_selector(&self) -> (r: Option<String>)
        ensures
            r.deep_view() == self@.distribution_selector,
    {
        match &self.distribution_selector {
            Some(d) => Some(d.clone()),
            None => None,
        }
    }

    /// The package, once it is loaded; `Err(NotFound)` before.
    pub fn package(&self) -> (r: Result<&warehouse::Package, warehouse::Error>)
        ensures
            match r {
                Ok(p) => self@.package == Some(*p),
                Err(e) => self@.package is None && e == warehouse::Error::NotFound,
            },
    {
        match &self.package {
            Some(p) => Ok(p),
            None => Err(warehouse::Error::NotFound),
        }
    }

    /// Takes the package that was fetched, unless one is loaded already.
    pub fn package_fetched(&mut self, fetched: warehouse::Package)
        ensures
            final(self)@ == (ProjectView {
                package: match old(self)@.package {
                    Some(held) => Some(held),
                    None => Some(fetched),
                },
                ..old(self)@
            }),
    {
        if self.package.is_none() {
            self.package = Some(fetched);
        }
    }

    /// The versions to ask the index for, from greatest to least, where
    /// the user asked for none and none is loaded yet: the versions of the
    /// loaded package.  None where a version is loaded or asked for, or no
    /// package is loaded.
    pub fn version_candidates(&self) -> (r: Vec<Version>)
        ensures
            is_descending(r@),
            sources(r@).to_multiset() == match self@.package {
                Some(p) if self@.version is None && self@.version_selector is None => version_texts(
                    p.versions.deep_view(),
                ).to_multiset(),
                _ => Seq::<Seq<char>>::empty().to_multiset(),
            },
    {
        let mut r: Vec<Version> = Vec::new();
        assert(sources(r@) =~= Seq::<Seq<char>>::empty());
        if self.version.is_some() || self.version_selector.is_some() {
            return r;
        }
        let mut ascending = match &self.package {
            Some(p) => p.ordered_versions(),
            None => { return r; },
        };
        let ghost all = ascending@;
        let n = ascending.len();
        while ascending.len() > 0
            invariant
                ascending.len() + r.len() == n == all.len(),
                ascending@ == all.take(ascending.len() as int),
                forall|j: int| 0 <= j < r.len() ==> r@[j] == all[n - 1 - j],
            decreases ascending.len(),
        {
            let v = ascending.pop().unwrap();
            r.push(v);
        }
        proof {
            assert(r@ =~= all.reverse());
            assert(sources(r@) =~= sources(all).reverse());
            sources(all).lemma_reverse_to_multiset();
            assert forall|i: int| 0 <= i < r@.len() - 1 implies crate::version::version_at_most(
                (#[trigger] r@[i + 1]).source(),
                r@[i].source(),
            ) by {
                assert(crate::version::version_at_most(
                    (#[trigger] all[n - 2 - i]).source(),
                    all[n - 2 - i + 1].source(),
                ));
            }
        }
        r
    }

    /// Takes the version that was fetched, unless one is loaded already,
    /// or the version is yanked and the user did not ask for it.  Tells
    /// whether a version is loaded now.
    pub fn version_fetched(&mut self, fetched: warehouse::PackageVersion) -> (r: bool)
        ensures
            final(self)@ == (ProjectView {
                version: match old(self)@.version {
                    Some(held) => Some(held),
                    None => if fetched.yanked && old(self)@.version_selector is None {
                        None
                    } else {
                        Some(fetched)
                    },
                },
                ..old(self)@
            }),
            r == (final(self)@.version is Some),
    {
        if self.version.is_none() && (!fetched.yanked || self.version_selector.is_some()) {
            self.version = Some(fetched);
        }
        self.version.is_some()
    }

    /// The version, once it is loaded; `Err(NotFound)` before, and so
    /// where every candidate has been passed over.
    pub fn version(&self) -> (r: Result<&warehouse::PackageVersion, warehouse::Error>)
        ensures
            match r {
                Ok(v) => self@.version == Some(*v),
                Err(e) => self@.version is None && e == warehouse::Error::NotFound,
            },
    {
        match &self.version {
            Some(v) => Ok(v),
            None => Err(warehouse::Error::NotFound),
        }
    }

    /// The first source distribution of the loaded version.
    pub fn select_sdist(&self) -> (r: Option<&DistributionUrl>)
        ensures
            is_sdist_choice(files_of(self@), file_of(r)),
    {
        match &self.version {
            Some(v) => select_sdist(&v.urls),
            None => None,
        }
    }

    /// The wheel of the loaded version for the tag that the user asked
    /// for; `None` where the user asked for none, or for what is no tag.
    pub fn select_bdist(&self) -> (r: Option<&DistributionUrl>)
        ensures
            match self@.distribution_selector {
                Some(asked) => match tag_from_text(asked) {
                    Some(tag) => is_exact_choice(files_of(self@), tag, file_of(r)),
                    None => r is None,
                },
                None => r is None,
            },
    {
        let requested = match &self.distribution_selector {
            Some(asked) => match CompatibilityTag::from_tag(asked.as_str()) {
                Some(tag) => tag,
                None => { return None; },
            },
            None => { return None; },
        };
        match &self.version {
            Some(v) => select_bdist(&requested, &v.urls),
            None => {
                assert(forall|i: int| !is_match(files_of(self@), requested@, i));
                None
            },
        }
    }

    /// The wheel of the loaded version that applies most widely.
    pub fn pick_best_bdist(&self) -> (r: Option<&DistributionUrl>)
        ensures
            is_best_choice(files_of(self@), file_of(r)),
    {
        match &self.version {
            Some(v) => pick_best_bdist(&v.urls),
            None => None,
        }
    }

    /// The file of the loaded version that the user asked for, or the
    /// wheel that applies most widely where the user asked for none;
    /// `Err(InvalidWheelName)` where there is no such file.
    pub fn distribution(&self) -> (r: Result<&DistributionUrl, distribution::Error>)
        ensures
            match r {
                Ok(file) => is_choice(self@.distribution_selector, files_of(self@), Some(*file)),
                Err(e) => is_choice(self@.distribution_selector, files_of(self@), None) && e
                    == distribution::Error::InvalidWheelName,
            },
    {
        let chosen = match &self.distribution_selector {
            Some(asked) => if str_eq(asked.as_str(), "sdist") {
                self.select_sdist()
            } else {
                self.select_bdist()
            },
            None => self.pick_best_bdist(),
        };
        match chosen {
            Some(file) => Ok(file),
            None => Err(distribution::Error::InvalidWheelName),
        }
    }

    /// The address of the wheel to fetch and inspect, where nothing has
    /// been inspected yet: `Ok(None)` where it has.  A source distribution
    /// cannot be inspected.
    pub fn import_package_request(&self) -> (r: Result<Option<&str>, Error>)
        ensures
            match r {
                Ok(None) => self@.import_package is Some,
                Ok(Some(url)) => self@.import_package is None && exists|chosen: Option<DistributionUrl>|
                    #![auto]
                    is_choice(self@.distribution_selector, files_of(self@), chosen)
                        && wheel_to_inspect(self@, chosen) == Ok::<Seq<char>, Error>(url@),
                Err(e) => self@.import_package is None && exists|chosen: Option<DistributionUrl>|
                    #![auto]
                    is_choice(self@.distribution_selector, files_of(self@), chosen)
                        && wheel_to_inspect(self@, chosen) == Err::<Seq<char>, Error>(e),
            },
    {
        if self.import_package.is_some() {
            return Ok(None);
        }
        let sdist_asked = match &self.distribution_selector {
            Some(asked) => str_eq(asked.as_str(), "sdist"),
            None => false,
        };
        match self.distribution() {
            Ok(file) => {
                let ghost chosen = Some(*file);
                assert(is_choice(self@.distribution_selector, files_of(self@), chosen));
                assert(sdist_asked == (self@.distribution_selector == Some("sdist"@)));
                assert(wheel_to_inspect(self@, chosen) == if sdist_asked || is_sdist(*file) {
                    Err::<Seq<char>, Error>(Error::Warehouse(warehouse::Error::InvalidName))
                } else {
                    Ok::<Seq<char>, Error>(file.url@)
                });
                if sdist_asked || file.kind() == PackageType::SourceArchive {
                    Err(Error::Warehouse(warehouse::Error::InvalidName))
                } else {
                    Ok(Some(file.url.as_str()))
                }
            },
            Err(_) => {
                let ghost chosen = None::<DistributionUrl>;
                assert(is_choice(self@.distribution_selector, files_of(self@), chosen));
                assert(sdist_asked == (self@.distribution_selector == Some("sdist"@)));
                assert(wheel_to_inspect(self@, chosen) == if sdist_asked {
                    Err::<Seq<char>, Error>(Error::Warehouse(warehouse::Error::InvalidName))
                } else {
                    Err::<Seq<char>, Error>(
                        Error::Distribution(distribution::Error::InvalidWheelName),
                    )
                });
                if sdist_asked {
                    Err(Error::Warehouse(warehouse::Error::InvalidName))
                } else {
                    Err(Error::Distribution(distribution::Error::InvalidWheelName))
                }
            },
        }
    }

    /// Takes what was found in the wheel, unless that is known already.
    pub fn import_package_fetched(&mut self, fetched: package_inspect::Package)
        ensures
            final(self)@ == (ProjectView {
                import_package: match old(self)@.import_package {
                    Some(held) => Some(held),
                    None => Some(fetched),
                },
                ..old(self)@
            }),
    {
        if self.import_package.is_none() {
            self.import_package = Some(fetched);
        }
    }

    /// Whether the version has to be loaded before the wheel to inspect
    /// can be chosen: whether nothing has been inspected yet, no source
    /// distribution is asked for, and no version is loaded.
    pub fn inspection_wants_version(&self) -> (r: bool)
        ensures
            r == (self@.import_package is None && self@.distribution_selector != Some("sdist"@)
                && self@.version is None),
    {
        let sdist_asked = match &self.distribution_selector {
            Some(asked) => str_eq(asked.as_str(), "sdist"),
            None => false,
        };
        self.import_package.is_none() && !sdist_asked && self.version.is_none()
    }

    /// What was found in the wheel, once it has been inspected.  Before, it
    /// is an error, and nothing changes: `InvalidName` where a source
    /// distribution is asked for or chosen, which cannot be inspected;
    /// `InvalidWheelName` where no file is the one asked for; and
    /// `NotFound` where the wheel to inspect has not been fetched.
    pub fn import_package(&self) -> (r: Result<&package_inspect::Package, Error>)
        ensures
            match r {
                Ok(p) => self@.import_package == Some(*p),
                Err(e) => self@.import_package is None && exists|chosen: Option<DistributionUrl>|
                    #![auto]
                    is_choice(self@.distribution_selector, files_of(self@), chosen) && e
                        == not_inspected(self@, chosen),
            },
            self@.import_package is None && self@.distribution_selector == Some("sdist"@) ==> r
                == Err::<&package_inspect::Package, Error>(
                Error::Warehouse(warehouse::Error::InvalidName),
            ),
    {
        match &self.import_package {
            Some(p) => Ok(p),
            None => match self.import_package_request() {
                Err(e) => {
                    let ghost chosen = choose|chosen: Option<DistributionUrl>|
                        #![auto]
                        is_choice(self@.distribution_selector, files_of(self@), chosen)
                            && wheel_to_inspect(self@, chosen) == Err::<Seq<char>, Error>(e);
                    assert(e == not_inspected(self@, chosen));
                    Err(e)
                },
                Ok(url) => {
                    let ghost chosen = choose|chosen: Option<DistributionUrl>|
                        #![auto]
                        is_choice(self@.distribution_selector, files_of(self@), chosen)
                            && wheel_to_inspect(self@, chosen) == Ok::<Seq<char>, Error>(
                            url.unwrap()@,
                        );
                    assert(not_inspected(self@, chosen) == Error::Warehouse(
                        warehouse::Error::NotFound,
                    ));
                    Err(Error::Warehouse(warehouse::Error::NotFound))
                },
            },
        }
    }
}

} // verus!
