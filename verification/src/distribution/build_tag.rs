//! Build tags: the optional part of a wheel's file name that tells apart
//! two builds of one version, a number followed by any text.

use core::cmp::Ordering;
use vstd::prelude::*;
use crate::number::{
    decimal, digits_value, lemma_decimal_digits, lemma_decimal_of_digits,
    lemma_digits_value_grows, push_decimal,
};
use crate::text::{
    char_is_digit, chars_of, is_digit, lemma_prefix_len, lemma_prefix_len_is, prefix_len,
    string_of,
};

verus! {

/// A build tag: a number, then a text that does not start with a digit.
/// Build tags are ordered by number, and by text where the numbers agree.
#[derive(Debug, Eq, Ord)]
pub struct BuildTag {
    pub number: usize,
    pub string: String,
}

/// Whether `a` comes before `b` as a dictionary orders words, character by
/// character in code point order.
pub open spec fn lex_less(a: Seq<char>, b: Seq<char>) -> bool
    decreases a.len(),
{
    if b.len() == 0 {
        false
    } else if a.len() == 0 {
        true
    } else if a[0] != b[0] {
        a[0] < b[0]
    } else {
        lex_less(a.drop_first(), b.drop_first())
    }
}

/// The length of the run of digits that `text` starts with.
pub open spec fn digit_run(text: Seq<char>) -> int {
    prefix_len(text, |c: char| is_digit(c))
}

/// The build tag that `text` stands for, as number and rest: the longest
/// run of digits at its start, read in base ten, and what follows.  `None`
/// where `text` does not start with a digit or the number is beyond `usize`.
pub open spec fn build_tag_from_text(text: Seq<char>) -> Option<(nat, Seq<char>)> {
    let n = digit_run(text);
    if n == 0 || digits_value(text.take(n)) > usize::MAX {
        None
    } else {
        Some((digits_value(text.take(n)), text.skip(n)))
    }
}

/// A build tag written out: the number in base ten, then the text.
pub open spec fn build_tag_text(number: nat, string: Seq<char>) -> Seq<char> {
    decimal(number) + string
}

/// Whether the build tag `(a_number, a_string)` comes before
/// `(b_number, b_string)`.
pub open spec fn build_tag_less(
    a_number: nat,
    a_string: Seq<char>,
    b_number: nat,
    b_string: Seq<char>,
) -> bool {
    a_number < b_number || (a_number == b_number && lex_less(a_string, b_string))
}

/// A text that is read as a build tag, and writes its number without
/// leading zeros, is what the build tag is written out as.
pub proof fn lemma_build_tag_text_round_trip(text: Seq<char>)
    requires
        build_tag_from_text(text) is Some,
        digit_run(text) == 1 || text[0] != '0',
    ensures
        build_tag_text(build_tag_from_text(text).unwrap().0, build_tag_from_text(text).unwrap().1)
            == text,
{
    let n = digit_run(text);
    lemma_prefix_len(text, |c: char| is_digit(c));
    lemma_decimal_of_digits(text.take(n));
    assert(text.take(n) + text.skip(n) =~= text);
}

/// A build tag that is written out, and whose text does not start with a
/// digit, is read back as it was.
pub proof fn lemma_build_tag_read_back(number: nat, string: Seq<char>)
    requires
        number <= usize::MAX,
        string.len() == 0 || !is_digit(string[0]),
    ensures
        build_tag_from_text(build_tag_text(number, string)) == Some((number, string)),
{
    let text = build_tag_text(number, string);
    let n = decimal(number).len() as int;
    lemma_decimal_digits(number);
    lemma_prefix_len_is(text, |c: char| is_digit(c), n);
    assert(text.take(n) =~= decimal(number));
    assert(text.skip(n) =~= string);
}

/// No text comes before itself.
pub proof fn lemma_lex_less_irreflexive(a: Seq<char>)
    ensures
        !lex_less(a, a),
    decreases a.len(),
{
    if a.len() > 0 {
        lemma_lex_less_irreflexive(a.drop_first());
    }
}

/// Of two different texts exactly one comes before the other.
pub proof fn lemma_lex_less_total(a: Seq<char>, b: Seq<char>)
    ensures
        a != b ==> (lex_less(a, b) <==> !lex_less(b, a)),
        a == b ==> !lex_less(a, b),
    decreases a.len(),
{
    lemma_lex_less_irreflexive(a);
    if a.len() > 0 && b.len() > 0 && a[0] == b[0] {
        lemma_lex_less_total(a.drop_first(), b.drop_first());
        if a.drop_first() == b.drop_first() {
            assert(a =~= seq![a[0]] + a.drop_first());
            assert(b =~= seq![b[0]] + b.drop_first());
        }
    } else if a.len() == 0 && b.len() == 0 {
        assert(a =~= b);
    }
}

/// What comes before a text that comes before a third comes before the
/// third.
pub proof fn lemma_lex_less_transitive(a: Seq<char>, b: Seq<char>, c: Seq<char>)
    requires
        lex_less(a, b),
        lex_less(b, c),
    ensures
        lex_less(a, c),
    decreases a.len(),
{
    if a.len() > 0 && a[0] == b[0] && b[0] == c[0] {
        lemma_lex_less_transitive(a.drop_first(), b.drop_first(), c.drop_first());
    }
}

/// Build tags are totally ordered: of two that differ exactly one comes
/// first, none comes before itself, and coming before carries over.
pub proof fn lemma_build_tag_order(a: BuildTag, b: BuildTag, c: BuildTag)
    ensures
        !a.less(&a),
        a.same(&b) ==> !a.less(&b) && !b.less(&a),
        !a.same(&b) ==> (a.less(&b) <==> !b.less(&a)),
        a.less(&b) && b.less(&c) ==> a.less(&c),
{
    lemma_lex_less_irreflexive(a.string@);
    lemma_lex_less_total(a.string@, b.string@);
    if a.less(&b) && b.less(&c) && a.number == b.number && b.number == c.number {
        lemma_lex_less_transitive(a.string@, b.string@, c.string@);
    }
}

/// Whether `a` comes before `b`, and whether they are equal.
fn compare_chars(a: &Vec<char>, b: &Vec<char>) -> (r: (bool, bool))
    ensures
        r.0 == lex_less(a@, b@),
        r.1 == (a@ == b@),
{
    let mut i: usize = 0;
    assert(a@.skip(0) =~= a@ && b@.skip(0) =~= b@);
    while i < a.len() && i < b.len() && a[i] == b[i]
        invariant
            0 <= i <= a.len(),
            i <= b.len(),
            a@.take(i as int) == b@.take(i as int),
            lex_less(a@, b@) == lex_less(a@.skip(i as int), b@.skip(i as int)),
        decreases a.len() - i,
    {
        proof {
            let x = a@.skip(i as int);
            let y = b@.skip(i as int);
            assert(x[0] == y[0]);
            assert(x.drop_first() =~= a@.skip(i + 1));
            assert(y.drop_first() =~= b@.skip(i + 1));
            assert(a@.take(i + 1) =~= a@.take(i as int).push(a@[i as int]));
            assert(b@.take(i + 1) =~= b@.take(i as int).push(b@[i as int]));
        }
        i += 1;
    }
    proof {
        let x = a@.skip(i as int);
        let y = b@.skip(i as int);
        if i == a.len() && i == b.len() {
            assert(a@ =~= a@.take(i as int));
            assert(b@ =~= b@.take(i as int));
        } else if i < a.len() && i < b.len() {
            assert(x[0] == a@[i as int] && y[0] == b@[i as int]);
        }
    }
    if i < b.len() {
        (i == a.len() || a[i] < b[i], false)
    } else {
        (false, i == a.len())
    }
}

impl BuildTag {
    /// Reads a build tag: the longest run of digits at the start of
    /// `buildtag` is the number, what follows is the text.  `None` where
    /// `buildtag` does not start with a digit, or the number is beyond
    /// `usize`.
    pub fn parse(buildtag: &str) -> (r: Option<Self>)
        ensures
            match r {
                Some(t) => build_tag_from_text(buildtag@) == Some((t.number as nat, t.string@)),
                None => build_tag_from_text(buildtag@) is None,
            },
    {
        let v = chars_of(buildtag);
        let mut run: usize = 0;
        while run < v.len() && char_is_digit(v[run])
            invariant
                0 <= run <= v.len(),
                forall|k: int| 0 <= k < run ==> is_digit(#[trigger] v@[k]),
            decreases v.len() - run,
        {
            run += 1;
        }
        proof {
            lemma_prefix_len_is(v@, |c: char| is_digit(c), run as int);
        }
        if run == 0 {
            return None;
        }
        let mut number: usize = 0;
        let mut i: usize = 0;
        while i < run
            invariant
                0 <= i <= run <= v.len(),
                forall|k: int| 0 <= k < run ==> is_digit(#[trigger] v@[k]),
                number == digits_value(v@.take(i as int)),
                v@ == buildtag@,
                run == digit_run(v@),
            decreases run - i,
        {
            let d = (v[i] as u8 - 48u8) as usize;
            proof {
                assert(is_digit(v@[i as int]));
                assert(v@.take(i + 1).drop_last() =~= v@.take(i as int));
                assert(digits_value(v@.take(i + 1)) == number * 10 + d);
                lemma_digits_value_grows(v@.take(run as int), i + 1, run as int);
                assert(v@.take(run as int).take(i + 1) =~= v@.take(i + 1));
                assert(v@.take(run as int).take(run as int) =~= v@.take(run as int));
            }
            let tens = match number.checked_mul(10) {
                Some(t) => t,
                None => { return None; },
            };
            number = match tens.checked_add(d) {
                Some(t) => t,
                None => { return None; },
            };
            i += 1;
        }
        let string = string_of(&v, run, v.len());
        assert(v@.skip(run as int) =~= v@.subrange(run as int, v.len() as int));
        Some(BuildTag { number, string })
    }

    /// The build tag written out: the number in base ten, then the text.
    pub fn to_string(&self) -> (r: String)
        ensures
            r@ == build_tag_text(self.number as nat, self.string@),
    {
        let mut s = String::new();
        push_decimal(&mut s, self.number);
        s.append(self.string.as_str());
        assert(s@ =~= decimal(self.number as nat) + self.string@);
        s
    }

    /// Whether `self` comes before `other`.
    pub open spec fn less(&self, other: &BuildTag) -> bool {
        build_tag_less(self.number as nat, self.string@, other.number as nat, other.string@)
    }

    /// Whether `self` and `other` are the same build tag.
    pub open spec fn same(&self, other: &BuildTag) -> bool {
        self.number == other.number && self.string@ == other.string@
    }

    /// How `self` stands to `other`: whether it comes before it, and
    /// whether it is the same.
    pub fn compare(&self, other: &BuildTag) -> (r: (bool, bool))
        ensures
            r.0 == self.less(other),
            r.1 == self.same(other),
    {
        if self.number != other.number {
            (self.number < other.number, false)
        } else {
            compare_chars(&chars_of(self.string.as_str()), &chars_of(other.string.as_str()))
        }
    }
}

impl PartialEq for BuildTag {
    fn eq(&self, other: &Self) -> (r: bool) {
        self.compare(other).1
    }
}

impl vstd::std_specs::cmp::PartialEqSpecImpl for BuildTag {
    open spec fn obeys_eq_spec() -> bool {
        true
    }

    open spec fn eq_spec(&self, other: &Self) -> bool {
        self.same(other)
    }
}

impl PartialOrd for BuildTag {
    fn partial_cmp(&self, other: &Self) -> (r: Option<Ordering>) {
        let (less, same) = self.compare(other);
        if less {
            Some(Ordering::Less)
        } else if same {
            Some(Ordering::Equal)
        } else {
            Some(Ordering::Greater)
        }
    }
}

impl vstd::std_specs::cmp::PartialOrdSpecImpl for BuildTag {
    open spec fn obeys_partial_cmp_spec() -> bool {
        true
    }

    open spec fn partial_cmp_spec(&self, other: &Self) -> Option<Ordering> {
        if self.less(other) {
            Some(Ordering::Less)
        } else if self.same(other) {
            Some(Ordering::Equal)
        } else {
            Some(Ordering::Greater)
        }
    }
}

} // verus!
