//! Package names and their normal form.

use vstd::prelude::*;
use crate::distribution::Error;
use crate::text::{
    ascii_lower, ascii_lowercase, char_ascii_lower, char_is_ascii_alphanumeric, chars_of,
    is_ascii_alphanumeric, push_char,
};

verus! {

/// Whether `c` is one of the separators `-`, `_` and `.`.
pub open spec fn is_separator(c: char) -> bool {
    c == '-' || c == '_' || c == '.'
}

/// Whether `name` is a package name: ASCII letters, digits and separators,
/// with a letter or digit at both ends.
pub open spec fn is_package_name(name: Seq<char>) -> bool {
    &&& name.len() > 0
    &&& is_ascii_alphanumeric(name.first())
    &&& is_ascii_alphanumeric(name.last())
    &&& forall|i: int|
        0 <= i < name.len() ==> is_ascii_alphanumeric(#[trigger] name[i]) || is_separator(name[i])
}

/// `name` with every maximal run of separators replaced by a single `-`.
pub open spec fn collapse_separators(name: Seq<char>) -> Seq<char>
    decreases name.len(),
{
    if name.len() == 0 {
        Seq::empty()
    } else if !is_separator(name.last()) {
        collapse_separators(name.drop_last()).push(name.last())
    } else if name.len() >= 2 && is_separator(name[name.len() - 2]) {
        collapse_separators(name.drop_last())
    } else {
        collapse_separators(name.drop_last()).push('-')
    }
}

/// The normal form of a package name: runs of separators collapsed to `-`,
/// letters in lower case.
pub open spec fn normalized_name(name: Seq<char>) -> Seq<char> {
    ascii_lowercase(collapse_separators(name))
}

/// Whether `name` is a package name in normal form: lower-case letters,
/// digits and single `-`, with a letter or digit at both ends.
pub open spec fn is_normalized_name(name: Seq<char>) -> bool {
    &&& is_package_name(name)
    &&& forall|i: int|
        0 <= i < name.len() ==> !('A' <= #[trigger] name[i] <= 'Z') && name[i] != '_' && name[i]
            != '.'
    &&& forall|i: int| 0 <= i < name.len() - 1 ==> !(#[trigger] name[i] == '-' && name[i + 1] == '-')
}

/// What collapsing does to a text of name characters that starts with a
/// letter or digit: the first character stays, the last is `-` for a run of
/// separators and itself otherwise, no `_` or `.` is left and no `-` stands
/// next to another.
proof fn lemma_collapse_shape(name: Seq<char>)
    requires
        name.len() > 0,
        is_ascii_alphanumeric(name.first()),
        forall|i: int|
            0 <= i < name.len() ==> is_ascii_alphanumeric(#[trigger] name[i]) || is_separator(name[i]),
    ensures
        collapse_separators(name).len() > 0,
        collapse_separators(name).first() == name.first(),
        collapse_separators(name).last() == if is_separator(name.last()) {
            '-'
        } else {
            name.last()
        },
        forall|i: int|
            0 <= i < collapse_separators(name).len() ==> is_ascii_alphanumeric(
                #[trigger] collapse_separators(name)[i],
            ) || collapse_separators(name)[i] == '-',
        forall|i: int|
            0 <= i < collapse_separators(name).len() - 1 ==> !(#[trigger] collapse_separators(
                name,
            )[i] == '-' && collapse_separators(name)[i + 1] == '-'),
    decreases name.len(),
{
    let init = name.drop_last();
    if name.len() == 1 {
        assert(collapse_separators(init) =~= Seq::<char>::empty());
        assert(collapse_separators(name) =~= seq![name[0]]);
    } else {
        assert(init.first() == name.first());
        assert(init.last() == name[name.len() - 2]);
        assert forall|i: int| 0 <= i < init.len() implies is_ascii_alphanumeric(
            #[trigger] init[i],
        ) || is_separator(init[i]) by {
            assert(init[i] == name[i]);
        }
        lemma_collapse_shape(init);
    }
}

/// The normal form of a package name is a package name in normal form.
pub proof fn lemma_normalized_name_is_normalized(name: Seq<char>)
    requires
        is_package_name(name),
    ensures
        is_normalized_name(normalized_name(name)),
{
    lemma_collapse_shape(name);
    let c = collapse_separators(name);
    let n = normalized_name(name);
    assert(n.len() == c.len());
    assert forall|i: int| 0 <= i < n.len() implies (is_ascii_alphanumeric(#[trigger] n[i])
        || n[i] == '-') && !('A' <= n[i] <= 'Z') && (n[i] == '-' <==> c[i] == '-') by {
        assert(n[i] == ascii_lower(c[i]));
        assert(is_ascii_alphanumeric(c[i]) || c[i] == '-');
    }
    assert(is_ascii_alphanumeric(n.first()));
    assert(is_ascii_alphanumeric(n.last()));
    assert forall|i: int| 0 <= i < n.len() - 1 implies !(#[trigger] n[i] == '-' && n[i + 1]
        == '-') by {
        assert(!(c[i] == '-' && c[i + 1] == '-'));
    }
}

/// Collapsing leaves every prefix of a name in normal form as it is.
proof fn lemma_collapse_normalized_prefix(name: Seq<char>, k: int)
    requires
        is_normalized_name(name),
        0 <= k <= name.len(),
    ensures
        collapse_separators(name.take(k)) == name.take(k),
    decreases k,
{
    let p = name.take(k);
    if k == 0 {
        assert(collapse_separators(p) =~= p);
    } else {
        assert(p.drop_last() =~= name.take(k - 1));
        lemma_collapse_normalized_prefix(name, k - 1);
        assert(p.last() == name[k - 1]);
        if is_separator(p.last()) {
            assert(k >= 2);
            assert(p[p.len() - 2] == name[k - 2]);
            assert(!(name[k - 2] == '-' && name[k - 2 + 1] == '-'));
        }
        assert(collapse_separators(p) =~= p);
    }
}

/// A package name in normal form is its own normal form.
pub proof fn lemma_normalize_keeps_normalized(name: Seq<char>)
    requires
        is_normalized_name(name),
    ensures
        normalized_name(name) == name,
{
    lemma_collapse_normalized_prefix(name, name.len() as int);
    assert(name.take(name.len() as int) =~= name);
    assert forall|i: int| 0 <= i < name.len() implies ascii_lower(#[trigger] name[i])
        == name[i] by {}
    assert(normalized_name(name) =~= name);
}

/// Normalizing is idempotent: the normal form of a package name is again a
/// package name, and normalizing it once more changes nothing.
pub proof fn lemma_normalize_idempotent(name: Seq<char>)
    requires
        is_package_name(name),
    ensures
        is_package_name(normalized_name(name)),
        normalized_name(normalized_name(name)) == normalized_name(name),
{
    lemma_normalized_name_is_normalized(name);
    lemma_normalize_keeps_normalized(normalized_name(name));
}

/// Normalizes a package name: `Err(InvalidPackageName)` unless `name` is a
/// package name, else its normal form.
pub fn normalize_package_name(name: &str) -> (r: Result<String, Error>)
    ensures
        match r {
            Ok(n) => is_package_name(name@) && n@ == normalized_name(name@),
            Err(e) => !is_package_name(name@) && e == Error::InvalidPackageName,
        },
{
    let v = chars_of(name);
    let n = v.len();
    if n == 0 || !char_is_ascii_alphanumeric(v[0]) || !char_is_ascii_alphanumeric(v[n - 1]) {
        return Err(Error::InvalidPackageName);
    }
    let mut out = String::new();
    let mut i: usize = 0;
    while i < n
        invariant
            0 <= i <= n,
            0 < n == v.len(),
            v@ == name@,
            is_ascii_alphanumeric(v@.first()),
            is_ascii_alphanumeric(v@.last()),
            forall|k: int| 0 <= k < i ==> is_ascii_alphanumeric(#[trigger] v@[k]) || is_separator(v@[k]),
            out@ == normalized_name(v@.take(i as int)),
        decreases n - i,
    {
        let c = v[i];
        let sep = c == '-' || c == '_' || c == '.';
        if !sep && !char_is_ascii_alphanumeric(c) {
            assert(!is_ascii_alphanumeric(name@[i as int]) && !is_separator(name@[i as int]));
            return Err(Error::InvalidPackageName);
        }
        proof {
            let now = v@.take(i + 1);
            assert(now.drop_last() =~= v@.take(i as int));
            assert(now.last() == c);
            if i > 0 {
                assert(now[now.len() - 2] == v@[i - 1]);
            }
        }
        if !sep {
            push_char(&mut out, char_ascii_lower(c));
            assert(out@ =~= normalized_name(v@.take(i + 1)));
        } else if i > 0 && (v[i - 1] == '-' || v[i - 1] == '_' || v[i - 1] == '.') {
        } else {
            push_char(&mut out, '-');
            assert(out@ =~= normalized_name(v@.take(i + 1)));
        }
        i += 1;
    }
    assert(v@.take(n as int) =~= v@);
    Ok(out)
}

} // verus!
