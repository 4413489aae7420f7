//! Compatibility tags: which Python runtimes, ABIs and platforms a built
//! distribution supports (PEP 425).

use vstd::prelude::*;
use crate::text::{
    borrow_all, char_is_alphanumeric, char_is_ascii_alphanumeric, char_is_digit, chars_of,
    find_from, is_alphanumeric, is_ascii_alphanumeric, is_digit, join, join_with,
    lemma_prefix_len_is, prefix_len, split, split_once, split_range, str_eq, string_of,
    strings_eq,
};

verus! {

/// One axis of a compatibility tag: no constraint, or the values it is
/// limited to.
#[derive(Debug, Hash)]
enum Axis {
    Wildcard,
    Concrete(Vec<String>),
}

/// A PEP 425 compatibility tag.
#[derive(Debug, Hash)]
pub struct CompatibilityTag {
    python_tag: Vec<String>,
    api_tag: Axis,
    platform_tag: Axis,
}

/// What a compatibility tag holds: the Python tags, and the ABI and platform
/// tags, where `None` stands for "any".
pub struct TagView {
    pub python: Seq<Seq<char>>,
    pub abi: Option<Seq<Seq<char>>>,
    pub platform: Option<Seq<Seq<char>>>,
}

/// Whether `c` may stand in the ABI or platform part of a tag: `_`, `.`, an
/// ASCII letter or digit, or a character beyond ASCII that Unicode counts
/// as alphanumeric.
pub open spec fn is_tag_char(c: char) -> bool {
    c == '_' || c == '.' || if c <= '\x7f' {
        is_ascii_alphanumeric(c)
    } else {
        is_alphanumeric(c)
    }
}

/// Whether `part` can be the ABI or platform part of a tag: not empty, and
/// made of tag characters.
pub open spec fn is_tag_part(part: Seq<char>) -> bool {
    part.len() > 0 && forall|i: int| 0 <= i < part.len() ==> is_tag_char(#[trigger] part[i])
}

/// The tag that three parts stand for, or `None` where they stand for none:
/// where a part is empty, where the ABI or platform part holds a character
/// that is no tag character, or where the ABI is limited and the platform
/// is not.
pub open spec fn tag_from_parts(python: Seq<char>, abi: Seq<char>, platform: Seq<char>) -> Option<
    TagView,
> {
    if python.len() == 0 || !is_tag_part(abi) || !is_tag_part(platform) {
        None
    } else if abi != "none"@ && platform == "any"@ {
        None
    } else {
        Some(
            TagView {
                python: split(python, '.'),
                abi: if abi == "none"@ {
                    None
                } else {
                    Some(split(abi, '.'))
                },
                platform: if platform == "any"@ {
                    None
                } else {
                    Some(split(platform, '.'))
                },
            },
        )
    }
}

/// What holds of every tag: it names at least one Python tag, and where
/// its ABI is limited its platform is limited too.
pub open spec fn is_well_formed(tag: TagView) -> bool {
    tag.python.len() > 0 && (tag.abi is Some ==> tag.platform is Some)
}

/// The tag that `text` stands for: its parts are what stands before the
/// first `-`, between the first and the second, and after the second.
pub open spec fn tag_from_text(text: Seq<char>) -> Option<TagView> {
    match split_once(text, '-') {
        None => None,
        Some((python, rest)) => match split_once(rest, '-') {
            None => None,
            Some((abi, platform)) => tag_from_parts(python, abi, platform),
        },
    }
}

/// The values of one axis, written out: joined by `.`, or `any` where the
/// axis is not limited.
pub open spec fn axis_text(values: Option<Seq<Seq<char>>>, any: Seq<char>) -> Seq<char> {
    match values {
        Some(v) => join(v, "."@),
        None => any,
    }
}

/// A tag written out: its three parts joined by `-`.
pub open spec fn tag_text(tag: TagView) -> Seq<char> {
    join(tag.python, "."@) + "-"@ + axis_text(tag.abi, "none"@) + "-"@ + axis_text(
        tag.platform,
        "any"@,
    )
}

impl Axis {
    spec fn values(&self) -> Option<Seq<Seq<char>>> {
        match self {
            Axis::Wildcard => None,
            Axis::Concrete(v) => Some(v.deep_view()),
        }
    }

    fn is_wildcard(&self) -> (r: bool)
        ensures
            r == (self.values() is None),
    {
        match self {
            Axis::Wildcard => true,
            Axis::Concrete(_) => false,
        }
    }

    fn same(&self, other: &Axis) -> (r: bool)
        ensures
            r == (self.values() == other.values()),
    {
        match (self, other) {
            (Axis::Wildcard, Axis::Wildcard) => true,
            (Axis::Concrete(a), Axis::Concrete(b)) => strings_eq(a, b),
            _ => false,
        }
    }

    fn tags<'a>(&'a self, any: &'static str) -> (r: Vec<&'a str>)
        ensures
            r.deep_view() == match self.values() {
                Some(v) => v,
                None => seq![any@],
            },
    {
        match self {
            Axis::Wildcard => {
                let mut r: Vec<&str> = Vec::new();
                r.push(any);
                assert(r.deep_view() =~= seq![any@]);
                r
            },
            Axis::Concrete(v) => borrow_all(v),
        }
    }

    fn text(&self, any: &str) -> (r: String)
        ensures
            r@ == axis_text(self.values(), any@),
    {
        match self {
            Axis::Wildcard => any.to_owned(),
            Axis::Concrete(v) => join_with(v, "."),
        }
    }
}

impl View for CompatibilityTag {
    type V = TagView;

    closed spec fn view(&self) -> TagView {
        TagView {
            python: self.python_tag.deep_view(),
            abi: self.api_tag.values(),
            platform: self.platform_tag.values(),
        }
    }
}

/// Whether every character of `part` is a tag character.
fn all_tag_chars(part: &Vec<char>) -> (r: bool)
    ensures
        r == forall|i: int| 0 <= i < part.len() ==> is_tag_char(#[trigger] part@[i]),
{
    let mut i: usize = 0;
    while i < part.len()
        invariant
            0 <= i <= part.len(),
            forall|k: int| 0 <= k < i ==> is_tag_char(#[trigger] part@[k]),
        decreases part.len() - i,
    {
        let c = part[i];
        let ok = c == '_' || c == '.' || if c <= '\x7f' {
            char_is_ascii_alphanumeric(c)
        } else {
            char_is_alphanumeric(c)
        };
        if !ok {
            assert(!is_tag_char(part@[i as int]));
            return false;
        }
        i += 1;
    }
    true
}

impl CompatibilityTag {
    /// What holds of every tag: it names at least one Python tag, and where
    /// its ABI is limited its platform is limited too.
    pub open spec fn well_formed(&self) -> bool {
        is_well_formed(self@)
    }

    #[verifier::type_invariant]
    closed spec fn holds_invariant(&self) -> bool {
        self.well_formed()
    }

    /// Builds a tag from its three parts; `None` where they stand for no
    /// tag.  In particular a limited ABI with the platform `any` is refused.
    pub fn from_parts(python_part: &str, api_part: &str, platform_part: &str) -> (r: Option<Self>)
        ensures
            match r {
                Some(t) => tag_from_parts(python_part@, api_part@, platform_part@) == Some(t@)
                    && t.well_formed(),
                None => tag_from_parts(python_part@, api_part@, platform_part@) is None,
            },
            api_part@ != "none"@ && platform_part@ == "any"@ ==> r is None,
    {
        let python = chars_of(python_part);
        let api = chars_of(api_part);
        let platform = chars_of(platform_part);
        if python.len() == 0 || api.len() == 0 || platform.len() == 0 || !all_tag_chars(&api)
            || !all_tag_chars(&platform) {
            return None;
        }
        let python_tag = split_range(&python, 0, python.len(), '.');
        let api_tag = if str_eq(api_part, "none") {
            Axis::Wildcard
        } else {
            Axis::Concrete(split_range(&api, 0, api.len(), '.'))
        };
        let platform_tag = if str_eq(platform_part, "any") {
            Axis::Wildcard
        } else {
            Axis::Concrete(split_range(&platform, 0, platform.len(), '.'))
        };
        proof {
            assert(python@.subrange(0, python.len() as int) =~= python@);
            assert(api@.subrange(0, api.len() as int) =~= api@);
            assert(platform@.subrange(0, platform.len() as int) =~= platform@);
            crate::text::lemma_split_pieces(python@, '.');
        }
        if !api_tag.is_wildcard() && platform_tag.is_wildcard() {
            None
        } else {
            Some(CompatibilityTag { python_tag, api_tag, platform_tag })
        }
    }

    /// Reads a tag from its text, `<python>-<abi>-<platform>`, cutting at
    /// the first two `-`; `None` where there are fewer than two or the
    /// parts stand for no tag.
    pub fn from_tag(tag: &str) -> (r: Option<Self>)
        ensures
            match r {
                Some(t) => tag_from_text(tag@) == Some(t@) && t.well_formed(),
                None => tag_from_text(tag@) is None,
            },
    {
        let v = chars_of(tag);
        let n = v.len();
        let first = find_from(&v, 0, '-');
        assert(v@.skip(0) =~= v@);
        if first >= n {
            return None;
        }
        let second = find_from(&v, first + 1, '-');
        if second >= n {
            return None;
        }
        let python = string_of(&v, 0, first);
        let api = string_of(&v, first + 1, second);
        let platform = string_of(&v, second + 1, n);
        proof {
            let rest = v@.skip(first + 1);
            assert(v@.take(first as int) =~= v@.subrange(0, first as int));
            assert(rest.take(second - first - 1) =~= v@.subrange(first + 1, second as int));
            assert(rest.skip(second - first) =~= v@.subrange(second + 1, n as int));
        }
        Self::from_parts(python.as_str(), api.as_str(), platform.as_str())
    }

    /// The Python tags.
    pub fn python_tags(&self) -> (r: Vec<&str>)
        ensures
            r.deep_view() == self@.python,
    {
        borrow_all(&self.python_tag)
    }

    /// The ABI tags; `none` alone where any ABI will do.
    pub fn api_tags(&self) -> (r: Vec<&str>)
        ensures
            r.deep_view() == match self@.abi {
                Some(v) => v,
                None => seq!["none"@],
            },
    {
        self.api_tag.tags("none")
    }

    /// The platform tags; `any` alone where any platform will do.
    pub fn platform_tags(&self) -> (r: Vec<&str>)
        ensures
            r.deep_view() == match self@.platform {
                Some(v) => v,
                None => seq!["any"@],
            },
    {
        self.platform_tag.tags("any")
    }

    /// Whether the tag is pure and for exactly `py2` and `py3`.
    pub fn is_universal(&self) -> (r: bool)
        ensures
            r == is_universal(self@),
    {
        let r = self.is_pure() && self.python_tag.len() == 2 && str_eq(
            self.python_tag[0].as_str(),
            "py2",
        ) && str_eq(self.python_tag[1].as_str(), "py3");
        proof {
            let universal = seq!["py2"@, "py3"@];
            let python = self.python_tag.deep_view();
            assert(python.len() == self.python_tag.len());
            if python.len() == 2 {
                assert(python[0] == self.python_tag[0]@);
                assert(python[1] == self.python_tag[1]@);
            }
            assert(universal.len() == 2 && universal[0] == "py2"@ && universal[1] == "py3"@);
            if r {
                assert(python =~= universal);
            }
        }
        r
    }

    /// Whether the tag is for any platform and any ABI.
    pub fn is_pure(&self) -> (r: bool)
        ensures
            r == is_pure(self@),
    {
        self.for_any_platform() && self.for_any_abi()
    }

    /// Whether any platform will do.
    pub fn for_any_platform(&self) -> (r: bool)
        ensures
            r == (self@.platform is None),
    {
        self.platform_tag.is_wildcard()
    }

    /// Whether any ABI will do.
    pub fn for_any_abi(&self) -> (r: bool)
        ensures
            r == (self@.abi is None),
    {
        self.api_tag.is_wildcard()
    }

    /// The tag written out, `<python>-<abi>-<platform>`.
    pub fn to_string(&self) -> (r: String)
        ensures
            r@ == tag_text(self@),
    {
        let mut s = join_with(&self.python_tag, ".");
        let api = self.api_tag.text("none");
        let platform = self.platform_tag.text("any");
        s.append("-");
        s.append(api.as_str());
        s.append("-");
        s.append(platform.as_str());
        s
    }
}

/// Whether a tag is for any platform and any ABI.
pub open spec fn is_pure(tag: TagView) -> bool {
    tag.platform is None && tag.abi is None
}

/// Whether a tag is pure and for exactly `py2` and `py3`.
pub open spec fn is_universal(tag: TagView) -> bool {
    is_pure(tag) && tag.python == seq!["py2"@, "py3"@]
}

/// The two halves of a Python tag such as `cp311`: what stands before its
/// first digit, and the rest.
pub open spec fn python_tag_halves(python_tag: Seq<char>) -> (Seq<char>, Seq<char>) {
    let n = prefix_len(python_tag, |c: char| !is_digit(c));
    (python_tag.take(n), python_tag.skip(n))
}

/// Splits a Python tag into the implementation's name and its version: the
/// tag up to its first digit, and from there on.
pub fn split_python_tag(python_tag: &str) -> (r: (String, String))
    ensures
        (r.0@, r.1@) == python_tag_halves(python_tag@),
{
    let v = chars_of(python_tag);
    let mut n: usize = 0;
    while n < v.len() && !char_is_digit(v[n])
        invariant
            0 <= n <= v.len(),
            forall|k: int| 0 <= k < n ==> !is_digit(#[trigger] v@[k]),
        decreases v.len() - n,
    {
        n += 1;
    }
    proof {
        lemma_prefix_len_is(v@, |c: char| !is_digit(c), n as int);
        assert(v@.take(n as int) =~= v@.subrange(0, n as int));
        assert(v@.skip(n as int) =~= v@.subrange(n as int, v.len() as int));
    }
    (string_of(&v, 0, n), string_of(&v, n, v.len()))
}

impl PartialEq for CompatibilityTag {
    fn eq(&self, other: &Self) -> (r: bool) {
        strings_eq(&self.python_tag, &other.python_tag) && self.api_tag.same(&other.api_tag)
            && self.platform_tag.same(&other.platform_tag)
    }
}

impl vstd::std_specs::cmp::PartialEqSpecImpl for CompatibilityTag {
    open spec fn obeys_eq_spec() -> bool {
        true
    }

    open spec fn eq_spec(&self, other: &Self) -> bool {
        self@ == other@
    }
}

impl Eq for CompatibilityTag {

}

/// Every tag that three parts stand for names at least one Python tag, and
/// limits its platform where it limits its ABI.
pub proof fn lemma_parsed_tag_is_well_formed(python: Seq<char>, abi: Seq<char>, platform: Seq<char>)
    requires
        tag_from_parts(python, abi, platform) is Some,
    ensures
        is_well_formed(tag_from_parts(python, abi, platform).unwrap()),
{
    crate::text::lemma_split_pieces(python, '.');
}

/// The tag that three parts stand for is written out as the three parts
/// with `-` between them.
pub proof fn lemma_tag_text_of_parts(python: Seq<char>, abi: Seq<char>, platform: Seq<char>)
    requires
        tag_from_parts(python, abi, platform) is Some,
    ensures
        tag_text(tag_from_parts(python, abi, platform).unwrap()) == python + "-"@ + abi + "-"@
            + platform,
{
    crate::text::lemma_join_split(python, '.');
    crate::text::lemma_join_split(abi, '.');
    crate::text::lemma_join_split(platform, '.');
    reveal_strlit(".");
    assert("."@ =~= seq!['.']);
}

/// A text that is read as a tag is what the tag is written out as.
pub proof fn lemma_tag_text_round_trip(text: Seq<char>)
    requires
        tag_from_text(text) is Some,
    ensures
        tag_text(tag_from_text(text).unwrap()) == text,
{
    let (python, rest) = split_once(text, '-').unwrap();
    let (abi, platform) = split_once(rest, '-').unwrap();
    crate::text::lemma_first_index(text, '-');
    crate::text::lemma_first_index(rest, '-');
    lemma_tag_text_of_parts(python, abi, platform);
    reveal_strlit("-");
    assert("-"@ =~= seq!['-']);
    assert(python + seq!['-'] + rest =~= text);
    assert(abi + seq!['-'] + platform =~= rest);
    assert(python + "-"@ + abi + "-"@ + platform =~= text);
}

} // verus!
