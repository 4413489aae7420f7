//! Character sequences: the model that every string contract in this crate
//! is stated over, and the verified routines that work on it.

use vstd::prelude::*;

verus! {

/// Whether `c` is one of `0` to `9`.
pub open spec fn is_digit(c: char) -> bool {
    '0' <= c <= '9'
}

/// Whether `c` is one of `a` to `z` or `A` to `Z`.
pub open spec fn is_ascii_letter(c: char) -> bool {
    'a' <= c <= 'z' || 'A' <= c <= 'Z'
}

/// Whether `c` is an ASCII letter or digit.
pub open spec fn is_ascii_alphanumeric(c: char) -> bool {
    is_ascii_letter(c) || is_digit(c)
}

/// `c` with `A` to `Z` folded to `a` to `z`.
pub open spec fn ascii_lower(c: char) -> char {
    if 'A' <= c <= 'Z' {
        ((c as u8 + 32) as u8) as char
    } else {
        c
    }
}

/// `s` with every character folded by [`ascii_lower`].
pub open spec fn ascii_lowercase(s: Seq<char>) -> Seq<char> {
    s.map_values(|c: char| ascii_lower(c))
}

/// The index of the first `sep` in `s`, or `s.len()` where there is none.
pub open spec fn first_index(s: Seq<char>, sep: char) -> int
    decreases s.len(),
{
    if s.len() == 0 || s[0] == sep {
        0
    } else {
        1 + first_index(s.drop_first(), sep)
    }
}

/// The index of the last `sep` in `s`, or `-1` where there is none.
pub open spec fn last_index(s: Seq<char>, sep: char) -> int
    decreases s.len(),
{
    if s.len() == 0 {
        -1
    } else if s.last() == sep {
        s.len() - 1
    } else {
        last_index(s.drop_last(), sep)
    }
}

/// Whether `sep` occurs in `s`.
pub open spec fn occurs(s: Seq<char>, sep: char) -> bool {
    exists|i: int| 0 <= i < s.len() && s[i] == sep
}

/// The pieces of `s` between the occurrences of `sep`: one more piece than
/// there are separators, none of which holds a `sep`.
pub open spec fn split(s: Seq<char>, sep: char) -> Seq<Seq<char>>
    decreases s.len(),
{
    let i = first_index(s, sep);
    if 0 <= i < s.len() {
        seq![s.take(i)] + split(s.skip(i + 1), sep)
    } else {
        seq![s]
    }
}

/// The pieces of `parts` in order, with `sep` between each two neighbours.
pub open spec fn join(parts: Seq<Seq<char>>, sep: Seq<char>) -> Seq<char>
    decreases parts.len(),
{
    if parts.len() == 0 {
        Seq::empty()
    } else if parts.len() == 1 {
        parts[0]
    } else {
        join(parts.drop_last(), sep) + sep + parts.last()
    }
}

/// `s` cut at its first `sep`: what stands before it and what stands after.
pub open spec fn split_once(s: Seq<char>, sep: char) -> Option<(Seq<char>, Seq<char>)> {
    let i = first_index(s, sep);
    if 0 <= i < s.len() {
        Some((s.take(i), s.skip(i + 1)))
    } else {
        None
    }
}

/// `s` cut at its last `sep`: what stands before it and what stands after.
pub open spec fn rsplit_once(s: Seq<char>, sep: char) -> Option<(Seq<char>, Seq<char>)> {
    let i = last_index(s, sep);
    if 0 <= i < s.len() {
        Some((s.take(i), s.skip(i + 1)))
    } else {
        None
    }
}

/// Whether `s` ends in `suffix`.
pub open spec fn ends_with(s: Seq<char>, suffix: Seq<char>) -> bool {
    s.len() >= suffix.len() && s.skip(s.len() - suffix.len()) == suffix
}

/// The length of the longest prefix of `s` whose characters all satisfy `p`.
pub open spec fn prefix_len(s: Seq<char>, p: spec_fn(char) -> bool) -> int
    decreases s.len(),
{
    if s.len() == 0 || !p(s[0]) {
        0
    } else {
        1 + prefix_len(s.drop_first(), p)
    }
}

/// The length of the longest suffix of `s` whose characters all satisfy `p`.
pub open spec fn suffix_len(s: Seq<char>, p: spec_fn(char) -> bool) -> int
    decreases s.len(),
{
    if s.len() == 0 || !p(s.last()) {
        0
    } else {
        1 + suffix_len(s.drop_last(), p)
    }
}

/// `s` without the longest suffix whose characters all satisfy `p`.
pub open spec fn trim_end(s: Seq<char>, p: spec_fn(char) -> bool) -> Seq<char> {
    s.take(s.len() - suffix_len(s, p))
}

/// `suffix_len` is within `0..=s.len()`, every character of the suffix
/// satisfies `p`, and the one before it does not.
pub proof fn lemma_suffix_len(s: Seq<char>, p: spec_fn(char) -> bool)
    ensures
        0 <= suffix_len(s, p) <= s.len(),
        forall|k: int| s.len() - suffix_len(s, p) <= k < s.len() ==> p(s[k]),
        suffix_len(s, p) < s.len() ==> !p(s[s.len() - suffix_len(s, p) - 1]),
    decreases s.len(),
{
    if s.len() == 0 || !p(s.last()) {
    } else {
        let t = s.drop_last();
        lemma_suffix_len(t, p);
        assert forall|k: int| s.len() - suffix_len(s, p) <= k < s.len() implies p(s[k]) by {
            if k < s.len() - 1 {
                assert(s[k] == t[k]);
            }
        }
        if suffix_len(s, p) < s.len() {
            assert(s[s.len() - suffix_len(s, p) - 1] == t[t.len() - suffix_len(t, p) - 1]);
        }
    }
}

/// A length such that every character of the suffix of that length
/// satisfies `p`, and the one before it does not or there is none, is
/// `suffix_len`.
pub proof fn lemma_suffix_len_is(s: Seq<char>, p: spec_fn(char) -> bool, n: int)
    requires
        0 <= n <= s.len(),
        forall|k: int| s.len() - n <= k < s.len() ==> p(s[k]),
        n < s.len() ==> !p(s[s.len() - n - 1]),
    ensures
        suffix_len(s, p) == n,
{
    lemma_suffix_len(s, p);
}

/// The texts of `texts`, each once, in the order in which they first
/// occur.
pub open spec fn distinct(texts: Seq<Seq<char>>) -> Seq<Seq<char>>
    decreases texts.len(),
{
    if texts.len() == 0 {
        Seq::empty()
    } else {
        let before = distinct(texts.drop_last());
        if before.contains(texts.last()) {
            before
        } else {
            before.push(texts.last())
        }
    }
}

/// One more text is added to the distinct ones unless it is among them.
pub proof fn lemma_distinct_push(texts: Seq<Seq<char>>, text: Seq<char>)
    ensures
        distinct(texts.push(text)) == if distinct(texts).contains(text) {
            distinct(texts)
        } else {
            distinct(texts).push(text)
        },
{
    assert(texts.push(text).drop_last() =~= texts);
}

/// `distinct` holds no text twice, and holds exactly the texts that it was
/// made from.
pub proof fn lemma_distinct(texts: Seq<Seq<char>>)
    ensures
        distinct(texts).no_duplicates(),
        forall|text: Seq<char>| #[trigger] distinct(texts).contains(text) <==> texts.contains(text),
    decreases texts.len(),
{
    if texts.len() > 0 {
        let init = texts.drop_last();
        let before = distinct(init);
        lemma_distinct(init);
        assert forall|text: Seq<char>| #[trigger]
            distinct(texts).contains(text) <==> texts.contains(text) by {
            if texts.contains(text) {
                let i = choose|i: int| 0 <= i < texts.len() && texts[i] == text;
                if i < texts.len() - 1 {
                    assert(init[i] == text);
                    assert(before.contains(text));
                    let at = choose|at: int| 0 <= at < before.len() && before[at] == text;
                    assert(distinct(texts)[at] == text);
                } else if before.contains(text) {
                } else {
                    assert(distinct(texts)[before.len() as int] == text);
                }
            }
            if distinct(texts).contains(text) {
                let at = choose|at: int| 0 <= at < distinct(texts).len() && distinct(texts)[at]
                    == text;
                if at < before.len() {
                    assert(before[at] == text);
                    assert(before.contains(text));
                    let i = choose|i: int| 0 <= i < init.len() && init[i] == text;
                    assert(texts[i] == text);
                } else {
                    assert(texts[texts.len() - 1] == text);
                }
            }
        }
    }
}

/// `first_index` is within `0..=s.len()`, no `sep` stands before it, and
/// one stands at it unless it is `s.len()`.
pub proof fn lemma_first_index(s: Seq<char>, sep: char)
    ensures
        0 <= first_index(s, sep) <= s.len(),
        forall|k: int| 0 <= k < first_index(s, sep) ==> s[k] != sep,
        first_index(s, sep) < s.len() ==> s[first_index(s, sep)] == sep,
    decreases s.len(),
{
    if s.len() == 0 || s[0] == sep {
    } else {
        let t = s.drop_first();
        lemma_first_index(t, sep);
        assert forall|k: int| 0 <= k < first_index(s, sep) implies s[k] != sep by {
            if k > 0 {
                assert(s[k] == t[k - 1]);
            }
        }
        if first_index(s, sep) < s.len() {
            assert(s[first_index(s, sep)] == t[first_index(t, sep)]);
        }
    }
}

/// An index with no `sep` before it, which holds a `sep` or is `s.len()`,
/// is `first_index`.
pub proof fn lemma_first_index_is(s: Seq<char>, sep: char, j: int)
    requires
        0 <= j <= s.len(),
        forall|k: int| 0 <= k < j ==> s[k] != sep,
        j < s.len() ==> s[j] == sep,
    ensures
        first_index(s, sep) == j,
{
    lemma_first_index(s, sep);
}

/// `last_index` is within `-1..s.len()`, no `sep` stands after it, and one
/// stands at it unless it is `-1`.
pub proof fn lemma_last_index(s: Seq<char>, sep: char)
    ensures
        -1 <= last_index(s, sep) < s.len(),
        forall|k: int| last_index(s, sep) < k < s.len() ==> s[k] != sep,
        0 <= last_index(s, sep) ==> s[last_index(s, sep)] == sep,
    decreases s.len(),
{
    if s.len() == 0 || s.last() == sep {
    } else {
        let t = s.drop_last();
        lemma_last_index(t, sep);
        assert forall|k: int| last_index(s, sep) < k < s.len() implies s[k] != sep by {
            if k < s.len() - 1 {
                assert(s[k] == t[k]);
            }
        }
        if 0 <= last_index(s, sep) {
            assert(s[last_index(s, sep)] == t[last_index(t, sep)]);
        }
    }
}

/// An index with no `sep` after it, which holds a `sep` or is `-1`, is
/// `last_index`.
pub proof fn lemma_last_index_is(s: Seq<char>, sep: char, j: int)
    requires
        -1 <= j < s.len(),
        forall|k: int| j < k < s.len() ==> s[k] != sep,
        0 <= j ==> s[j] == sep,
    ensures
        last_index(s, sep) == j,
{
    lemma_last_index(s, sep);
}

/// `prefix_len` is within `0..=s.len()`, every character before it
/// satisfies `p`, and the one at it does not.
pub proof fn lemma_prefix_len(s: Seq<char>, p: spec_fn(char) -> bool)
    ensures
        0 <= prefix_len(s, p) <= s.len(),
        forall|k: int| 0 <= k < prefix_len(s, p) ==> p(s[k]),
        prefix_len(s, p) < s.len() ==> !p(s[prefix_len(s, p)]),
    decreases s.len(),
{
    if s.len() == 0 || !p(s[0]) {
    } else {
        let t = s.drop_first();
        lemma_prefix_len(t, p);
        assert forall|k: int| 0 <= k < prefix_len(s, p) implies p(s[k]) by {
            if k > 0 {
                assert(s[k] == t[k - 1]);
            }
        }
        if prefix_len(s, p) < s.len() {
            assert(s[prefix_len(s, p)] == t[prefix_len(t, p)]);
        }
    }
}

/// An index before which every character satisfies `p`, and at which the
/// character does not or `s` ends, is `prefix_len`.
pub proof fn lemma_prefix_len_is(s: Seq<char>, p: spec_fn(char) -> bool, j: int)
    requires
        0 <= j <= s.len(),
        forall|k: int| 0 <= k < j ==> p(s[k]),
        j < s.len() ==> !p(s[j]),
    ensures
        prefix_len(s, p) == j,
{
    lemma_prefix_len(s, p);
}

/// Splitting yields at least one piece, and no piece holds the separator.
pub proof fn lemma_split_pieces(s: Seq<char>, sep: char)
    ensures
        split(s, sep).len() >= 1,
        forall|i: int| 0 <= i < split(s, sep).len() ==> !occurs(#[trigger] split(s, sep)[i], sep),
        split(s, sep).len() == 1 <==> !occurs(s, sep),
    decreases s.len(),
{
    lemma_first_index(s, sep);
    let i = first_index(s, sep);
    if 0 <= i < s.len() {
        let rest = s.skip(i + 1);
        lemma_split_pieces(rest, sep);
        assert forall|k: int| 0 <= k < split(s, sep).len() implies !occurs(
            #[trigger] split(s, sep)[k],
            sep,
        ) by {
            if k == 0 {
                assert(split(s, sep)[0] == s.take(i));
            } else {
                assert(split(s, sep)[k] == split(rest, sep)[k - 1]);
            }
        }
    } else {
    }
}

/// Joining the pieces of a split with the separator gives the text back.
pub proof fn lemma_join_split(s: Seq<char>, sep: char)
    ensures
        join(split(s, sep), seq![sep]) == s,
    decreases s.len(),
{
    lemma_first_index(s, sep);
    let i = first_index(s, sep);
    if 0 <= i < s.len() {
        let rest = s.skip(i + 1);
        lemma_join_split(rest, sep);
        lemma_split_pieces(rest, sep);
        lemma_join_prepend(s.take(i), split(rest, sep), seq![sep]);
        assert(s.take(i) + seq![sep] + rest =~= s);
    } else {
    }
}

/// Joining with one more piece in front puts that piece and a separator
/// before the rest.
pub proof fn lemma_join_prepend(first: Seq<char>, parts: Seq<Seq<char>>, sep: Seq<char>)
    requires
        parts.len() >= 1,
    ensures
        join(seq![first] + parts, sep) == first + sep + join(parts, sep),
    decreases parts.len(),
{
    let all = seq![first] + parts;
    assert(all.last() == parts.last());
    if parts.len() == 1 {
        assert(all.drop_last() =~= seq![first]);
        assert(join(seq![first], sep) == first);
    } else {
        assert(all.drop_last() =~= seq![first] + parts.drop_last());
        lemma_join_prepend(first, parts.drop_last(), sep);
        assert(first + sep + join(parts.drop_last(), sep) + sep + parts.last() =~= first + sep + (
        join(parts.drop_last(), sep) + sep + parts.last()));
    }
}

/// Appends one character to a string.
///
/// Trusted: `String::push` is documented to append the given `char` to the
/// end of the string and to change nothing else.
#[verifier::external_body]
pub(crate) fn push_char(s: &mut String, c: char)
    ensures
        final(s)@ == old(s)@.push(c),
{
    s.push(c)
}

/// Whether `char::is_alphanumeric` holds of `c`: whether Unicode lists `c`
/// as alphabetic or as a number.
pub uninterp spec fn is_alphanumeric(c: char) -> bool;

/// Whether `c` is alphabetic or a number in Unicode's sense.
///
/// Trusted: `char::is_alphanumeric` answers from the character alone, by
/// the Unicode properties Alphabetic and Number.
#[verifier::external_body]
pub(crate) fn char_is_alphanumeric(c: char) -> (b: bool)
    ensures
        b == is_alphanumeric(c),
{
    c.is_alphanumeric()
}

/// Removes the last character of a string, where it has one.
///
/// Trusted: `String::pop` is documented to remove the last character and
/// to change nothing where the string is empty.
#[verifier::external_body]
pub(crate) fn pop_char(s: &mut String)
    ensures
        final(s)@ == if old(s)@.len() > 0 {
            old(s)@.drop_last()
        } else {
            old(s)@
        },
{
    s.pop();
}

/// Whether `c` is white space: whether Unicode gives it the property
/// White_Space, which is held by the tab, the line feed and the three
/// controls after it, the space, the next line, the no-break space, the
/// ogham space mark, the spaces from the en quad to the hair space, the
/// line and the paragraph separator, the narrow no-break space, the medium
/// mathematical space and the ideographic space.
pub open spec fn is_whitespace(c: char) -> bool {
    '\u{9}' <= c <= '\u{d}' || c == ' ' || c == '\u{85}' || c == '\u{a0}' || c == '\u{1680}'
        || '\u{2000}' <= c <= '\u{200a}' || c == '\u{2028}' || c == '\u{2029}' || c == '\u{202f}'
        || c == '\u{205f}' || c == '\u{3000}'
}

/// Whether `c` is white space.
///
/// Trusted: `char::is_whitespace` tells whether the character has the
/// Unicode property White_Space, whose members are those listed.
#[verifier::external_body]
pub(crate) fn char_is_whitespace(c: char) -> (b: bool)
    ensures
        b == is_whitespace(c),
{
    c.is_whitespace()
}

/// Whether a character is white space.
pub open spec fn whitespace() -> spec_fn(char) -> bool {
    |c: char| is_whitespace(c)
}

/// Whether a character is no white space.
pub open spec fn no_whitespace() -> spec_fn(char) -> bool {
    |c: char| !is_whitespace(c)
}

/// `text` without the white space at its two ends.
pub open spec fn trimmed(text: Seq<char>) -> Seq<char> {
    let rest = text.skip(prefix_len(text, whitespace()));
    rest.take(rest.len() - suffix_len(rest, whitespace()))
}

/// Whether two string slices are equal.
///
/// Trusted: `str`'s `eq` compares the bytes of the two slices, and two
/// slices have the same bytes where they have the same characters.
pub assume_specification[ <str as PartialEq>::eq ](a: &str, b: &str) -> (r: bool)
    ensures
        r == (a@ == b@),
;

/// `c` with `A` to `Z` folded to `a` to `z`.
pub fn char_ascii_lower(c: char) -> (r: char)
    ensures
        r == ascii_lower(c),
{
    if c >= 'A' && c <= 'Z' {
        ((c as u8) + 32) as char
    } else {
        c
    }
}

/// `s` with `A` to `Z` folded to `a` to `z`.
pub fn ascii_lowercase_of(s: &str) -> (r: String)
    ensures
        r@ == ascii_lowercase(s@),
{
    let mut r = String::new();
    for c in it: s.chars()
        invariant
            it.seq() == s@,
            r@ == ascii_lowercase(it.seq().take(it.index() as int)),
    {
        let ghost before = r@;
        push_char(&mut r, char_ascii_lower(c));
        assert(r@ =~= ascii_lowercase(it.seq().take(it.index() + 1)));
    }
    assert(s@.take(s@.len() as int) =~= s@);
    r
}

/// The characters of `s`, in order.
pub fn chars_of(s: &str) -> (v: Vec<char>)
    ensures
        v@ == s@,
{
    let mut v: Vec<char> = Vec::new();
    for c in it: s.chars()
        invariant
            v@ == it.seq().take(it.index() as int),
            it.seq() == s@,
    {
        v.push(c);
    }
    v
}

/// The characters of `v` from `from` up to `to`, as a string.
pub fn string_of(v: &Vec<char>, from: usize, to: usize) -> (s: String)
    requires
        from <= to <= v.len(),
    ensures
        s@ == v@.subrange(from as int, to as int),
{
    let mut s = String::new();
    let mut i: usize = from;
    while i < to
        invariant
            from <= i <= to <= v.len(),
            s@ == v@.subrange(from as int, i as int),
        decreases to - i,
    {
        push_char(&mut s, v[i]);
        i += 1;
        assert(v@.subrange(from as int, i as int) =~= v@.subrange(from as int, i - 1).push(
            v@[i - 1],
        ));
    }
    s
}

/// Whether `c` is one of `0` to `9`.
pub fn char_is_digit(c: char) -> (b: bool)
    ensures
        b == is_digit(c),
{
    c >= '0' && c <= '9'
}

/// Whether `c` is an ASCII letter or digit.
pub fn char_is_ascii_alphanumeric(c: char) -> (b: bool)
    ensures
        b == is_ascii_alphanumeric(c),
{
    (c >= 'a' && c <= 'z') || (c >= 'A' && c <= 'Z') || (c >= '0' && c <= '9')
}

/// The first index at or after `from` that holds `sep`, or `v.len()`.
pub fn find_from(v: &Vec<char>, from: usize, sep: char) -> (i: usize)
    requires
        from <= v.len(),
    ensures
        i == from + first_index(v@.skip(from as int), sep),
        from <= i <= v.len(),
{
    let mut i: usize = from;
    while i < v.len() && v[i] != sep
        invariant
            from <= i <= v.len(),
            forall|k: int| from <= k < i ==> v@[k] != sep,
        decreases v.len() - i,
    {
        i += 1;
    }
    proof {
        lemma_first_index_is(v@.skip(from as int), sep, i - from);
    }
    i
}

/// The last index before `to` that holds `sep`, or `None`.
pub fn rfind_before(v: &Vec<char>, to: usize, sep: char) -> (r: Option<usize>)
    requires
        to <= v.len(),
    ensures
        match r {
            Some(i) => i == last_index(v@.take(to as int), sep) && i < to,
            None => last_index(v@.take(to as int), sep) == -1,
        },
{
    let mut i: usize = to;
    while i > 0 && v[i - 1] != sep
        invariant
            0 <= i <= to <= v.len(),
            forall|k: int| i <= k < to ==> v@[k] != sep,
        decreases i,
    {
        i -= 1;
    }
    proof {
        lemma_last_index_is(v@.take(to as int), sep, i - 1);
    }
    if i == 0 {
        None
    } else {
        Some(i - 1)
    }
}

/// The pieces of `v[from..to]` between the occurrences of `sep`.
pub fn split_range(v: &Vec<char>, from: usize, to: usize, sep: char) -> (parts: Vec<String>)
    requires
        from <= to <= v.len(),
    ensures
        parts.deep_view() == split(v@.subrange(from as int, to as int), sep),
{
    let ghost whole = v@.subrange(from as int, to as int);
    let mut parts: Vec<String> = Vec::new();
    let mut start: usize = from;
    let mut i: usize = from;
    while i < to
        invariant
            from <= start <= i <= to <= v.len(),
            whole == v@.subrange(from as int, to as int),
            forall|k: int| start <= k < i ==> v@[k] != sep,
            split(whole, sep) == parts.deep_view() + split(
                v@.subrange(start as int, to as int),
                sep,
            ),
        decreases to - i,
    {
        if v[i] == sep {
            let piece = string_of(v, start, i);
            proof {
                let tail = v@.subrange(start as int, to as int);
                lemma_first_index_is(tail, sep, i - start);
                assert(tail.take(i - start) =~= v@.subrange(start as int, i as int));
                assert(tail.skip(i - start + 1) =~= v@.subrange(i + 1, to as int));
                assert(parts.deep_view().push(piece@) + split(v@.subrange(i + 1, to as int), sep)
                    =~= parts.deep_view() + split(tail, sep));
            }
            let ghost before = parts.deep_view();
            parts.push(piece);
            assert(parts.deep_view() =~= before.push(piece@));
            start = i + 1;
        }
        i += 1;
    }
    let piece = string_of(v, start, to);
    proof {
        let tail = v@.subrange(start as int, to as int);
        lemma_first_index_is(tail, sep, to - start);
        assert(split(tail, sep) == seq![tail]);
    }
    let ghost before = parts.deep_view();
    parts.push(piece);
    assert(parts.deep_view() =~= before.push(piece@));
    assert(before.push(piece@) =~= before + seq![piece@]);
    parts
}

/// `text` without the white space at its two ends.
pub fn trim(text: &str) -> (r: String)
    ensures
        r@ == trimmed(text@),
{
    let v = chars_of(text);
    let mut start: usize = 0;
    while start < v.len() && char_is_whitespace(v[start])
        invariant
            0 <= start <= v.len(),
            forall|k: int| 0 <= k < start ==> is_whitespace(v@[k]),
        decreases v.len() - start,
    {
        start += 1;
    }
    let mut end: usize = v.len();
    while end > start && char_is_whitespace(v[end - 1])
        invariant
            start <= end <= v.len(),
            forall|k: int| end <= k < v.len() ==> is_whitespace(v@[k]),
        decreases end,
    {
        end -= 1;
    }
    proof {
        lemma_prefix_len_is(v@, whitespace(), start as int);
        let rest = v@.skip(start as int);
        lemma_suffix_len_is(rest, whitespace(), v.len() - end);
        assert(rest.take(rest.len() - (v.len() - end)) =~= v@.subrange(start as int, end as int));
    }
    string_of(&v, start, end)
}

/// Whether `v[..end]` ends in `suffix`.
pub fn range_ends_with(v: &Vec<char>, end: usize, suffix: &str) -> (r: bool)
    requires
        end <= v.len(),
    ensures
        r == ends_with(v@.take(end as int), suffix@),
{
    let s = chars_of(suffix);
    let n = s.len();
    if end < n {
        return false;
    }
    let ghost tail = v@.take(end as int).skip(end - n);
    let mut i: usize = 0;
    while i < n
        invariant
            0 <= i <= n == s.len(),
            n <= end <= v.len(),
            s@ == suffix@,
            tail == v@.take(end as int).skip(end - n),
            forall|k: int| 0 <= k < i ==> tail[k] == s@[k],
        decreases n - i,
    {
        if v[end - n + i] != s[i] {
            assert(tail[i as int] != s@[i as int]);
            return false;
        }
        i += 1;
    }
    assert(tail =~= s@);
    true
}

/// Whether `names` holds `name`.
pub fn holds_string(names: &Vec<String>, name: &str) -> (r: bool)
    ensures
        r == names.deep_view().contains(name@),
{
    let mut i: usize = 0;
    while i < names.len()
        invariant
            0 <= i <= names.len(),
            forall|k: int| 0 <= k < i ==> names[k]@ != name@,
        decreases names.len() - i,
    {
        if str_eq(names[i].as_str(), name) {
            assert(names.deep_view()[i as int] == name@);
            return true;
        }
        i += 1;
    }
    assert forall|k: int| 0 <= k < names.deep_view().len() implies names.deep_view()[k]
        != name@ by {
        assert(names.deep_view()[k] == names[k]@);
    }
    false
}

/// Adds `name` to `names` unless it holds it already.
pub fn push_new(names: &mut Vec<String>, name: String)
    ensures
        final(names).deep_view() == if old(names).deep_view().contains(name@) {
            old(names).deep_view()
        } else {
            old(names).deep_view().push(name@)
        },
{
    if !holds_string(names, name.as_str()) {
        let ghost before = names.deep_view();
        names.push(name);
        assert(names.deep_view() =~= before.push(name@));
    }
}

/// Whether `a` and `b` hold the same strings in the same order.
pub fn strings_eq(a: &Vec<String>, b: &Vec<String>) -> (r: bool)
    ensures
        r == (a.deep_view() == b.deep_view()),
{
    if a.len() != b.len() {
        assert(a.deep_view().len() != b.deep_view().len());
        return false;
    }
    let mut i: usize = 0;
    while i < a.len()
        invariant
            0 <= i <= a.len() == b.len(),
            forall|k: int| 0 <= k < i ==> a[k]@ == b[k]@,
        decreases a.len() - i,
    {
        if !str_eq(a[i].as_str(), b[i].as_str()) {
            assert(a.deep_view()[i as int] != b.deep_view()[i as int]);
            return false;
        }
        i += 1;
    }
    assert(a.deep_view() =~= b.deep_view());
    true
}

/// The strings of `v`, borrowed.
pub fn borrow_all(v: &Vec<String>) -> (r: Vec<&str>)
    ensures
        r.deep_view() == v.deep_view(),
{
    let mut r: Vec<&str> = Vec::new();
    let mut i: usize = 0;
    while i < v.len()
        invariant
            0 <= i <= v.len(),
            r.len() == i,
            forall|k: int| 0 <= k < i ==> r[k]@ == v[k]@,
        decreases v.len() - i,
    {
        r.push(v[i].as_str());
        i += 1;
    }
    assert(r.deep_view() =~= v.deep_view());
    r
}

/// The pieces of `parts` in order, with `sep` between each two neighbours.
pub fn join_with(parts: &Vec<String>, sep: &str) -> (s: String)
    ensures
        s@ == join(parts.deep_view(), sep@),
{
    let mut s = String::new();
    let mut i: usize = 0;
    while i < parts.len()
        invariant
            0 <= i <= parts.len(),
            s@ == join(parts.deep_view().take(i as int), sep@),
        decreases parts.len() - i,
    {
        if i > 0 {
            s.append(sep);
        }
        s.append(parts[i].as_str());
        i += 1;
        proof {
            let now = parts.deep_view().take(i as int);
            assert(now.drop_last() =~= parts.deep_view().take(i - 1));
            assert(now.last() == parts[i - 1]@);
            if i == 1 {
                assert(s@ =~= parts[0]@);
            }
        }
    }
    assert(parts.deep_view().take(parts.len() as int) =~= parts.deep_view());
    s
}

/// Whether `a` and `b` hold the same characters.
pub fn str_eq(a: &str, b: &str) -> (r: bool)
    ensures
        r == (a@ == b@),
{
    a.eq(b)
}

} // verus!
