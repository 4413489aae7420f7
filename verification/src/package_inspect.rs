//! What a wheel holds: the names it can be imported by and the commands it
//! installs, read from the files of its `.dist-info` directory.

use vstd::prelude::*;
use crate::number::{number_from_text, parse_number};
use crate::text::{
    char_is_whitespace, chars_of, ends_with, find_from, is_whitespace, lemma_suffix_len_is,
    range_ends_with, rfind_before, rsplit_once, split_once, str_eq, string_of,
    trim_end, whitespace,
};

pub use archive::{
    Archive, EntryPoints, Header, InspectError, Metadata, MetadataField, Package, Part,
};

pub mod archive;

verus! {

/// What follows the first `/` of `entry`, where what stands before it ends
/// in `suffix`.
pub open spec fn name_in_directory(entry: Seq<char>, suffix: Seq<char>) -> Option<Seq<char>> {
    match split_once(entry, '/') {
        Some((directory, name)) => if ends_with(directory, suffix) {
            Some(name)
        } else {
            None
        },
        None => None,
    }
}

/// The path of `entry` within the `.dist-info` directory, where it lies
/// in one.
pub open spec fn dist_name(entry: Seq<char>) -> Option<Seq<char>> {
    name_in_directory(entry, ".dist-info"@)
}

/// The path of `entry` within the `.data` directory, where it lies in one.
pub open spec fn data_name(entry: Seq<char>) -> Option<Seq<char>> {
    name_in_directory(entry, ".data"@)
}

/// What follows the first `/` of `entry`, where what stands before it ends
/// in `suffix`.
fn file_in_directory<'a>(entry: &'a str, suffix: &str) -> (r: Option<&'a str>)
    ensures
        match r {
            Some(name) => name_in_directory(entry@, suffix@) == Some(name@),
            None => name_in_directory(entry@, suffix@) is None,
        },
{
    let v = chars_of(entry);
    let slash = find_from(&v, 0, '/');
    assert(v@.skip(0) =~= v@);
    if slash >= v.len() || !range_ends_with(&v, slash, suffix) {
        return None;
    }
    assert(v@.skip(slash + 1) =~= v@.subrange(slash + 1, v.len() as int));
    Some(entry.substring_char(slash + 1, v.len()))
}

/// The path of `entry` within the `.dist-info` directory, where it lies
/// in one.
pub fn dist_filename(entry: &str) -> (r: Option<&str>)
    ensures
        match r {
            Some(name) => dist_name(entry@) == Some(name@),
            None => dist_name(entry@) is None,
        },
{
    file_in_directory(entry, ".dist-info")
}

/// Whether `entry` lies in the `.dist-info` directory.
pub fn is_dist_dir(entry: &str) -> (r: bool)
    ensures
        r == (dist_name(entry@) is Some),
{
    file_in_directory(entry, ".dist-info").is_some()
}

/// The path of `entry` within the `.data` directory, where it lies in one.
pub fn data_filename(entry: &str) -> (r: Option<&str>)
    ensures
        match r {
            Some(name) => data_name(entry@) == Some(name@),
            None => data_name(entry@) is None,
        },
{
    file_in_directory(entry, ".data")
}

/// Whether `entry` lies in the `.data` directory.
pub fn is_data_dir(entry: &str) -> (r: bool)
    ensures
        r == (data_name(entry@) is Some),
{
    file_in_directory(entry, ".data").is_some()
}

/// One line of a wheel's `RECORD`: a file, and the digest and size that it
/// should have.
#[derive(Debug, Clone)]
pub struct RecordEntry {
    pub entry: String,
    pub algo: String,
    pub hash: String,
    pub size: usize,
}

/// What a line of `RECORD` holds.
pub struct RecordEntryView {
    pub entry: Seq<char>,
    pub algo: Seq<char>,
    pub hash: Seq<char>,
    pub size: nat,
}

impl View for RecordEntry {
    type V = RecordEntryView;

    open spec fn view(&self) -> RecordEntryView {
        RecordEntryView {
            entry: self.entry@,
            algo: self.algo@,
            hash: self.hash@,
            size: self.size as nat,
        }
    }
}

/// The line of `RECORD` that `fields` stand for: a path, a digest written
/// `<algorithm>=<hash>`, and a size.  `None` where there are not three
/// fields, the second holds no `=`, or the third is no number that fits
/// `usize`.
pub open spec fn record_entry(fields: Seq<Seq<char>>) -> Option<RecordEntryView> {
    if fields.len() != 3 {
        None
    } else {
        match (number_from_text(fields[2], usize::MAX as nat), split_once(fields[1], '=')) {
            (Some(size), Some((algo, hash))) => Some(
                RecordEntryView { entry: fields[0], algo, hash, size },
            ),
            _ => None,
        }
    }
}

/// The line of `RECORD` that a row of a CSV file stands for, where the row
/// could be read.
pub open spec fn record_entry_of_row() -> spec_fn(Option<Seq<Seq<char>>>) -> Option<
    RecordEntryView,
> {
    |row: Option<Seq<Seq<char>>>|
        match row {
            Some(fields) => record_entry(fields),
            None => None,
        }
}

/// What the lines of a `RECORD` hold.
pub open spec fn entry_views(entries: Seq<RecordEntry>) -> Seq<RecordEntryView> {
    entries.map_values(|e: RecordEntry| e@)
}

impl RecordEntry {
    /// Reads one line of `RECORD` from its fields.
    pub fn from_fields(fields: &Vec<String>) -> (r: Option<RecordEntry>)
        ensures
            match r {
                Some(e) => record_entry(fields.deep_view()) == Some(e@),
                None => record_entry(fields.deep_view()) is None,
            },
    {
        if fields.len() != 3 {
            return None;
        }
        assert(fields.deep_view()[0] == fields[0]@ && fields.deep_view()[1] == fields[1]@
            && fields.deep_view()[2] == fields[2]@);
        let size = match parse_number(fields[2].as_str(), usize::MAX) {
            Some(n) => n,
            None => { return None; },
        };
        let digest = chars_of(fields[1].as_str());
        let eq = find_from(&digest, 0, '=');
        assert(digest@.skip(0) =~= digest@);
        if eq >= digest.len() {
            return None;
        }
        assert(digest@.take(eq as int) =~= digest@.subrange(0, eq as int));
        assert(digest@.skip(eq + 1) =~= digest@.subrange(eq + 1, digest.len() as int));
        Some(
            RecordEntry {
                entry: fields[0].clone(),
                algo: string_of(&digest, 0, eq),
                hash: string_of(&digest, eq + 1, digest.len()),
                size,
            },
        )
    }
}

/// A wheel's `RECORD`: the files that it installs.
#[derive(Debug, Clone)]
pub struct Record {
    pub entries: Vec<RecordEntry>,
}

impl Record {
    /// The lines of a `RECORD`, from the rows of the CSV file: rows that
    /// could not be read, or are no lines of a `RECORD`, are passed over.
    pub fn from_rows(rows: &Vec<Option<Vec<String>>>) -> (r: Record)
        ensures
            entry_views(r.entries@) == rows.deep_view().filter_map(record_entry_of_row()),
    {
        let ghost all = rows.deep_view();
        let mut entries: Vec<RecordEntry> = Vec::new();
        let mut i: usize = 0;
        assert(all.take(0).filter_map(record_entry_of_row()) =~= Seq::<RecordEntryView>::empty());
        assert(entry_views(entries@) =~= Seq::<RecordEntryView>::empty());
        while i < rows.len()
            invariant
                0 <= i <= rows.len(),
                all == rows.deep_view(),
                entry_views(entries@) == all.take(i as int).filter_map(record_entry_of_row()),
            decreases rows.len() - i,
        {
            proof {
                all.lemma_filter_map_take_succ(record_entry_of_row(), i as int);
                assert(all[i as int] == rows[i as int].deep_view());
            }
            match &rows[i] {
                Some(fields) => {
                    match RecordEntry::from_fields(fields) {
                        Some(e) => {
                            let ghost before = entry_views(entries@);
                            entries.push(e);
                            assert(entry_views(entries@) =~= before + seq![e@]);
                        },
                        None => {},
                    }
                },
                None => {},
            }
            i += 1;
        }
        assert(all.take(rows.len() as int) =~= all);
        Record { entries }
    }
}

/// The first segment of `entry`, without the `.py` that it may end in: the
/// name by which the file or directory is imported.
pub open spec fn top_level_name(entry: Seq<char>) -> Seq<char> {
    let top = match split_once(entry, '/') {
        Some((first, _)) => first,
        None => entry,
    };
    if ends_with(top, ".py"@) {
        top.take(top.len() - ".py"@.len())
    } else {
        top
    }
}

/// Whether `entry` is part of the code of a wheel: whether it lies neither
/// in the `.dist-info` nor in the `.data` directory.
pub open spec fn is_code(entry: Seq<char>) -> bool {
    dist_name(entry) is None && data_name(entry) is None
}

/// The name of the script that `entry` installs, where `entry` lies in the
/// `scripts` directory of the `.data` directory.
pub open spec fn script_name(entry: Seq<char>) -> Option<Seq<char>> {
    match data_name(entry) {
        Some(path) => match split_once(path, '/') {
            Some((directory, file)) => if directory == "scripts"@ {
                Some(file)
            } else {
                None
            },
            None => None,
        },
        None => None,
    }
}

/// The name by which `entry` is imported.
pub(crate) fn import_name(entry: &str) -> (r: String)
    ensures
        r@ == top_level_name(entry@),
{
    let v = chars_of(entry);
    let slash = find_from(&v, 0, '/');
    assert(v@.skip(0) =~= v@);
    assert(v@.take(v.len() as int) =~= v@);
    proof {
        reveal_strlit(".py");
    }
    let end = if range_ends_with(&v, slash, ".py") {
        slash - 3
    } else {
        slash
    };
    assert(v@.take(slash as int).take(end as int) =~= v@.subrange(0, end as int));
    string_of(&v, 0, end)
}

/// The name of the script that `entry` installs.
pub(crate) fn installed_script(entry: &str) -> (r: Option<String>)
    ensures
        match r {
            Some(name) => script_name(entry@) == Some(name@),
            None => script_name(entry@) is None,
        },
{
    let path = match data_filename(entry) {
        Some(path) => path,
        None => { return None; },
    };
    let v = chars_of(path);
    let slash = find_from(&v, 0, '/');
    assert(v@.skip(0) =~= v@);
    if slash >= v.len() {
        return None;
    }
    let directory = string_of(&v, 0, slash);
    assert(v@.take(slash as int) =~= v@.subrange(0, slash as int));
    assert(v@.skip(slash + 1) =~= v@.subrange(slash + 1, v.len() as int));
    if str_eq(directory.as_str(), "scripts") {
        Some(string_of(&v, slash + 1, v.len()))
    } else {
        None
    }
}

/// A reference to an object in a module, as an entry point gives it:
/// `module[:object] [extras]`.
#[derive(Debug, Clone)]
pub struct ObjectReference {
    pub module: String,
    pub object: Option<String>,
    pub extras: Option<String>,
}

/// Whether a character is `]`.
pub open spec fn closing_bracket() -> spec_fn(char) -> bool {
    |c: char| c == ']'
}

/// The module and object of `raw`, and its extras where it has any: what
/// follows the last `[`, without the `]` at its end, is the extras; what
/// stands before, without the white space at its end, names the module,
/// and after the first `:` the object.
pub open spec fn object_reference(raw: Seq<char>) -> (
    Seq<char>,
    Option<Seq<char>>,
    Option<Seq<char>>,
) {
    let (named, extras) = match rsplit_once(raw, '[') {
        Some((before, after)) => (
            trim_end(before, whitespace()),
            Some(trim_end(after, closing_bracket())),
        ),
        None => (raw, None),
    };
    match split_once(named, ':') {
        Some((module, object)) => (module, Some(object), extras),
        None => (named, None, extras),
    }
}

impl ObjectReference {
    /// Reads an object reference.
    pub fn from_str(raw: &str) -> (r: Self)
        ensures
            (r.module@, r.object.deep_view(), r.extras.deep_view()) == object_reference(raw@),
    {
        let v = chars_of(raw);
        assert(v@.take(v.len() as int) =~= v@);
        let (end, extras) = match rfind_before(&v, v.len(), '[') {
            Some(bracket) => {
                let mut stop = v.len();
                while stop > bracket + 1 && v[stop - 1] == ']'
                    invariant
                        bracket + 1 <= stop <= v.len(),
                        forall|k: int| stop <= k < v.len() ==> v@[k] == ']',
                    decreases stop,
                {
                    stop -= 1;
                }
                let mut end = bracket;
                while end > 0 && char_is_whitespace(v[end - 1])
                    invariant
                        0 <= end <= bracket < v.len(),
                        forall|k: int| end <= k < bracket ==> is_whitespace(v@[k]),
                    decreases end,
                {
                    end -= 1;
                }
                proof {
                    let before = v@.take(bracket as int);
                    let after = v@.skip(bracket + 1);
                    lemma_suffix_len_is(before, whitespace(), bracket - end);
                    lemma_suffix_len_is(after, closing_bracket(), v.len() - stop);
                    assert(trim_end(after, closing_bracket()) =~= v@.subrange(
                        bracket + 1,
                        stop as int,
                    ));
                    assert(trim_end(before, whitespace()) =~= v@.take(end as int));
                }
                (end, Some(string_of(&v, bracket + 1, stop)))
            },
            None => (v.len(), None),
        };
        let ghost named = v@.take(end as int);
        let colon = find_from(&v, 0, ':');
        assert(v@.skip(0) =~= v@);
        proof {
            crate::text::lemma_first_index(v@, ':');
            if colon < end {
                crate::text::lemma_first_index_is(named, ':', colon as int);
                assert(named.take(colon as int) =~= v@.subrange(0, colon as int));
                assert(named.skip(colon + 1) =~= v@.subrange(colon + 1, end as int));
            } else {
                crate::text::lemma_first_index_is(named, ':', end as int);
                assert(named =~= v@.subrange(0, end as int));
            }
        }
        if colon < end {
            ObjectReference {
                module: string_of(&v, 0, colon),
                object: Some(string_of(&v, colon + 1, end)),
                extras,
            }
        } else {
            ObjectReference { module: string_of(&v, 0, end), object: None, extras }
        }
    }
}

} // verus!
