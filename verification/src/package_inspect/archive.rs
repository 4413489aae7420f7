//! The three files of a wheel's `.dist-info` directory that tell what the
//! wheel provides, `RECORD`, `METADATA` and `entry_points.txt`, and the
//! reading of them as the archive's entries go by.

use vstd::prelude::*;
use crate::package_inspect::{
    dist_filename, dist_name, entry_views, import_name, installed_script, is_code, is_data_dir,
    is_dist_dir, object_reference, record_entry_of_row, script_name, top_level_name,
    ObjectReference, Record, RecordEntry, RecordEntryView,
};
use crate::text::{distinct, lemma_distinct_push, push_new, str_eq};

verus! {

/// The rows of the CSV file `bytes`, read with the given delimiter and
/// quote and with or without a header row, as the `csv` crate's reader
/// yields them: the fields of each row, or `None` for a row that it
/// reports as an error.
pub uninterp spec fn csv_rows(bytes: Seq<u8>, delimiter: u8, quote: u8, has_headers: bool) -> Seq<
    Option<Seq<Seq<char>>>,
>;

/// Reads the rows of a CSV file.
///
/// Trusted: a `csv::Reader` built over a byte slice yields, through
/// `records`, rows that depend on the bytes and the three settings alone;
/// it ends when the bytes are used up and does not panic.
#[verifier::external_body]
fn read_csv(bytes: &[u8], delimiter: u8, quote: u8, has_headers: bool) -> (r: Vec<
    Option<Vec<String>>,
>)
    ensures
        r.deep_view() == csv_rows(bytes@, delimiter, quote, has_headers),
{
    csv::ReaderBuilder::new()
        .delimiter(delimiter)
        .quote(quote)
        .has_headers(has_headers)
        .from_reader(bytes)
        .records()
        .map(|row| row.ok().map(|fields| fields.iter().map(|f| f.to_string()).collect()))
        .collect()
}

/// What a message says under one header name.
#[derive(Debug)]
pub enum Header {
    /// The bytes are no message.
    Unreadable,
    /// The message has no such header.
    Missing,
    /// The header holds a text.
    Text(String),
    /// The header holds something else than a text.
    Other,
}

/// What a message says under one header name.
pub enum HeaderView {
    Unreadable,
    Missing,
    Text(Seq<char>),
    Other,
}

impl View for Header {
    type V = HeaderView;

    open spec fn view(&self) -> HeaderView {
        match self {
            Header::Unreadable => HeaderView::Unreadable,
            Header::Missing => HeaderView::Missing,
            Header::Text(t) => HeaderView::Text(t@),
            Header::Other => HeaderView::Other,
        }
    }
}

/// What the message `bytes` says under the header `name`, as the
/// `mail_parser` crate reads its headers.
pub uninterp spec fn mail_header(bytes: Seq<u8>, name: Seq<char>) -> HeaderView;

/// Reads one header of a message.
///
/// Trusted: `MessageParser::parse_headers` and `Message::header` answer
/// from the bytes and the name alone, and do not panic.
#[verifier::external_body]
fn read_header(bytes: &[u8], name: &str) -> (r: Header)
    ensures
        r@ == mail_header(bytes@, name@),
{
    match mail_parser::MessageParser::default().parse_headers(bytes) {
        None => Header::Unreadable,
        Some(message) => match message.header(name) {
            None => Header::Missing,
            Some(mail_parser::HeaderValue::Text(text)) => Header::Text(text.to_string()),
            Some(_) => Header::Other,
        },
    }
}

/// The sections of the INI file `bytes` in their order, each with its name
/// and its properties as pairs of key and value, as the `ini` crate reads
/// them; `None` where it does not accept the bytes.
pub uninterp spec fn ini_sections(bytes: Seq<u8>) -> Option<
    Seq<(Option<Seq<char>>, Seq<(Seq<char>, Seq<char>)>)>,
>;

/// Reads the sections of an INI file.
///
/// Trusted: `Ini::read_from` on a byte slice answers from the bytes alone,
/// and does not panic; iterating the result yields its sections and their
/// properties in a fixed order.
#[verifier::external_body]
fn read_ini(bytes: &[u8]) -> (r: Option<Vec<(Option<String>, Vec<(String, String)>)>>)
    ensures
        r.deep_view() == ini_sections(bytes@),
{
    let mut reader = bytes;
    ini::Ini::read_from(&mut reader).ok().map(
        |file|
            file.iter().map(
                |(name, properties)|
                    (
                        name.map(|n| n.to_string()),
                        properties.iter().map(|(k, v)| (k.to_string(), v.to_string())).collect(),
                    ),
            ).collect(),
    )
}

/// Why a wheel could not be inspected.
#[derive(Debug, Clone, Copy, PartialEq, Eq, Structural)]
pub enum InspectError {
    /// The wheel holds no `RECORD`.
    NoRecord,
    /// The wheel holds no `METADATA`.
    NoMetadata,
    /// `METADATA` is no list of headers.
    UnreadableMetadata,
    /// `METADATA` lacks a required header.
    MissingKey(MetadataField),
    /// A required header of `METADATA` holds no text.
    MissingValue(MetadataField),
    /// `entry_points.txt` is no INI file.
    UnreadableEntryPoints,
}

/// The headers that `METADATA` must have.
#[derive(Debug, Clone, Copy, PartialEq, Eq, Structural)]
pub enum MetadataField {
    MetadataVersion,
    Name,
    Version,
}

/// The core metadata of a wheel, as far as it is required.
#[derive(Debug, Clone)]
pub struct Metadata {
    pub metadata_version: String,
    pub name: String,
    pub version: String,
}

/// The text of a required header, or why it cannot be had.
pub open spec fn required_text(header: HeaderView, field: MetadataField) -> Result<
    Seq<char>,
    InspectError,
> {
    match header {
        HeaderView::Unreadable => Err(InspectError::UnreadableMetadata),
        HeaderView::Missing => Err(InspectError::MissingKey(field)),
        HeaderView::Text(text) => Ok(text),
        HeaderView::Other => Err(InspectError::MissingValue(field)),
    }
}

/// The metadata that three headers make, or the first reason why they make
/// none, in the order version of the metadata, name, version.
pub open spec fn metadata_of(
    metadata_version: HeaderView,
    name: HeaderView,
    version: HeaderView,
) -> Result<(Seq<char>, Seq<char>, Seq<char>), InspectError> {
    match required_text(metadata_version, MetadataField::MetadataVersion) {
        Err(e) => Err(e),
        Ok(m) => match required_text(name, MetadataField::Name) {
            Err(e) => Err(e),
            Ok(n) => match required_text(version, MetadataField::Version) {
                Err(e) => Err(e),
                Ok(v) => Ok((m, n, v)),
            },
        },
    }
}

/// The metadata that the file `bytes` holds.
pub open spec fn metadata_of_bytes(bytes: Seq<u8>) -> Result<
    (Seq<char>, Seq<char>, Seq<char>),
    InspectError,
> {
    metadata_of(
        mail_header(bytes, "Metadata-Version"@),
        mail_header(bytes, "Name"@),
        mail_header(bytes, "Version"@),
    )
}

/// The text of a required header.
fn required(header: Header, field: MetadataField) -> (r: Result<String, InspectError>)
    ensures
        match r {
            Ok(text) => required_text(header@, field) == Ok::<Seq<char>, InspectError>(text@),
            Err(e) => required_text(header@, field) == Err::<Seq<char>, InspectError>(e),
        },
{
    match header {
        Header::Unreadable => Err(InspectError::UnreadableMetadata),
        Header::Missing => Err(InspectError::MissingKey(field)),
        Header::Text(text) => Ok(text),
        Header::Other => Err(InspectError::MissingValue(field)),
    }
}

impl Metadata {
    /// What the metadata holds: version of the metadata, name, version.
    pub open spec fn fields(&self) -> (Seq<char>, Seq<char>, Seq<char>) {
        (self.metadata_version@, self.name@, self.version@)
    }

    /// Whether `r` is the metadata, or the error, that `expected` names.
    pub open spec fn is_result(
        r: Result<Metadata, InspectError>,
        expected: Result<(Seq<char>, Seq<char>, Seq<char>), InspectError>,
    ) -> bool {
        match r {
            Ok(m) => expected == Ok::<(Seq<char>, Seq<char>, Seq<char>), InspectError>(m.fields()),
            Err(e) => expected == Err::<(Seq<char>, Seq<char>, Seq<char>), InspectError>(e),
        }
    }

    /// The metadata that three headers make: each must be there and hold a
    /// text.  The first that does not decides the error.
    pub fn from_headers(metadata_version: Header, name: Header, version: Header) -> (r: Result<
        Metadata,
        InspectError,
    >)
        ensures
            Self::is_result(r, metadata_of(metadata_version@, name@, version@)),
    {
        let metadata_version = match required(metadata_version, MetadataField::MetadataVersion) {
            Ok(text) => text,
            Err(e) => { return Err(e); },
        };
        let name = match required(name, MetadataField::Name) {
            Ok(text) => text,
            Err(e) => { return Err(e); },
        };
        let version = match required(version, MetadataField::Version) {
            Ok(text) => text,
            Err(e) => { return Err(e); },
        };
        Ok(Metadata { metadata_version, name, version })
    }

    /// Reads a `METADATA` file.
    pub fn from_bytes(bytes: &[u8]) -> (r: Result<Metadata, InspectError>)
        ensures
            Self::is_result(r, metadata_of_bytes(bytes@)),
    {
        Self::from_headers(
            read_header(bytes, "Metadata-Version"),
            read_header(bytes, "Name"),
            read_header(bytes, "Version"),
        )
    }
}

impl Record {
    /// The lines that the `RECORD` file `bytes` holds.
    pub open spec fn of_bytes(bytes: Seq<u8>) -> Seq<RecordEntryView> {
        csv_rows(bytes, 44, 34, false).filter_map(record_entry_of_row())
    }

    /// Reads a `RECORD` file: CSV with `,` between the fields, `"` around
    /// them where needed, and no header row.
    pub fn from_bytes(bytes: &[u8]) -> (r: Record)
        ensures
            entry_views(r.entries@) == Self::of_bytes(bytes@),
    {
        Record::from_rows(&read_csv(bytes, 44, 34, false))
    }
}

impl DeepView for ObjectReference {
    type V = (Seq<char>, Option<Seq<char>>, Option<Seq<char>>);

    open spec fn deep_view(&self) -> Self::V {
        (self.module@, self.object.deep_view(), self.extras.deep_view())
    }
}

/// The entry points of a wheel: its groups in the order of the file, each
/// with its name and its entries, an entry being a name and what it refers
/// to.  Of two groups with one name the later one counts, and so of two
/// entries of a group.
#[derive(Debug, Clone)]
pub struct EntryPoints {
    pub group: Vec<(String, Vec<(String, ObjectReference)>)>,
}

/// What a group of entry points holds.
pub type GroupView = (Seq<char>, Seq<(Seq<char>, (Seq<char>, Option<Seq<char>>, Option<Seq<char>>))>);

/// The entry that a property stands for.
pub open spec fn entry_of_property() -> spec_fn((Seq<char>, Seq<char>)) -> (
    Seq<char>,
    (Seq<char>, Option<Seq<char>>, Option<Seq<char>>),
) {
    |property: (Seq<char>, Seq<char>)| (property.0, object_reference(property.1))
}

/// The group that a section stands for, where the section has a name.
pub open spec fn group_of_section() -> spec_fn(
    (Option<Seq<char>>, Seq<(Seq<char>, Seq<char>)>),
) -> Option<GroupView> {
    |section: (Option<Seq<char>>, Seq<(Seq<char>, Seq<char>)>)|
        match section.0 {
            Some(name) => Some((name, section.1.map_values(entry_of_property()))),
            None => None,
        }
}

/// The index of the last group named `name`, or `-1`.
pub open spec fn last_group(groups: Seq<GroupView>, name: Seq<char>) -> int
    decreases groups.len(),
{
    if groups.len() == 0 {
        -1
    } else if groups.last().0 == name {
        groups.len() - 1
    } else {
        last_group(groups.drop_last(), name)
    }
}

/// The names of the entries of a group.
pub open spec fn entry_names(group: GroupView) -> Seq<Seq<char>> {
    group.1.map_values(
        |entry: (Seq<char>, (Seq<char>, Option<Seq<char>>, Option<Seq<char>>))| entry.0,
    )
}

/// The names of the entries of the last group named `name`, each once, in
/// the order in which they first occur; none where there is no such group.
pub open spec fn names_in_group(groups: Seq<GroupView>, name: Seq<char>) -> Seq<Seq<char>> {
    let at = last_group(groups, name);
    if at >= 0 {
        distinct(entry_names(groups[at]))
    } else {
        Seq::empty()
    }
}

impl EntryPoints {
    /// The entry points that the sections of an INI file stand for: a
    /// section without a name is passed over.
    pub fn from_sections(sections: &Vec<(Option<String>, Vec<(String, String)>)>) -> (r: Self)
        ensures
            r.group.deep_view() == sections.deep_view().filter_map(group_of_section()),
    {
        let ghost all = sections.deep_view();
        let mut group: Vec<(String, Vec<(String, ObjectReference)>)> = Vec::new();
        let mut i: usize = 0;
        assert(all.take(0).filter_map(group_of_section()) =~= Seq::<GroupView>::empty());
        assert(group.deep_view() =~= Seq::<GroupView>::empty());
        while i < sections.len()
            invariant
                0 <= i <= sections.len(),
                all == sections.deep_view(),
                group.deep_view() == all.take(i as int).filter_map(group_of_section()),
            decreases sections.len() - i,
        {
            proof {
                all.lemma_filter_map_take_succ(group_of_section(), i as int);
                assert(all[i as int] == sections[i as int].deep_view());
            }
            match &sections[i].0 {
                Some(name) => {
                    let properties = &sections[i].1;
                    let mut entries: Vec<(String, ObjectReference)> = Vec::new();
                    let mut k: usize = 0;
                    while k < properties.len()
                        invariant
                            0 <= k <= properties.len(),
                            entries.len() == k,
                            forall|j: int|
                                0 <= j < k ==> (#[trigger] entries[j]).deep_view()
                                    == entry_of_property()(properties[j].deep_view()),
                        decreases properties.len() - k,
                    {
                        let reference = ObjectReference::from_str(properties[k].1.as_str());
                        entries.push((properties[k].0.clone(), reference));
                        k += 1;
                    }
                    assert(entries.deep_view() =~= properties.deep_view().map_values(
                        entry_of_property(),
                    ));
                    let ghost before = group.deep_view();
                    group.push((name.clone(), entries));
                    assert(group.deep_view() =~= before + seq![
                        (name@, properties.deep_view().map_values(entry_of_property())),
                    ]);
                },
                None => {},
            }
            i += 1;
        }
        assert(all.take(sections.len() as int) =~= all);
        EntryPoints { group }
    }

    /// Reads an `entry_points.txt` file; `Err(UnreadableEntryPoints)`
    /// where it is no INI file.
    pub fn from_bytes(bytes: &[u8]) -> (r: Result<Self, InspectError>)
        ensures
            match r {
                Ok(e) => match ini_sections(bytes@) {
                    Some(sections) => e.group.deep_view() == sections.filter_map(
                        group_of_section(),
                    ),
                    None => false,
                },
                Err(e) => ini_sections(bytes@) is None && e == InspectError::UnreadableEntryPoints,
            },
    {
        match read_ini(bytes) {
            Some(sections) => Ok(Self::from_sections(&sections)),
            None => Err(InspectError::UnreadableEntryPoints),
        }
    }

    /// The names of the entries of the group `name`, each once, in the
    /// order in which they first occur; none where there is no such group.
    pub fn names(&self, name: &str) -> (r: Vec<String>)
        ensures
            r.deep_view() == names_in_group(self.group.deep_view(), name@),
    {
        let ghost groups = self.group.deep_view();
        let mut at: usize = self.group.len();
        assert(groups.take(at as int) =~= groups);
        while at > 0 && !str_eq(self.group[at - 1].0.as_str(), name)
            invariant
                0 <= at <= self.group.len(),
                groups == self.group.deep_view(),
                last_group(groups, name@) == last_group(groups.take(at as int), name@),
            decreases at,
        {
            proof {
                assert(groups.take(at as int).drop_last() =~= groups.take(at - 1));
                assert(groups.take(at as int).last() == self.group[at - 1].deep_view());
            }
            at -= 1;
        }
        let mut names: Vec<String> = Vec::new();
        if at == 0 {
            assert(last_group(groups.take(0), name@) == -1);
            assert(names.deep_view() =~= Seq::<Seq<char>>::empty());
            return names;
        }
        proof {
            assert(groups.take(at as int).last() == self.group[at - 1].deep_view());
            assert(last_group(groups, name@) == at - 1);
        }
        let entries = &self.group[at - 1].1;
        let ghost all = entry_names(groups[at - 1]);
        let mut k: usize = 0;
        assert(names.deep_view() =~= distinct(all.take(0)));
        while k < entries.len()
            invariant
                0 <= k <= entries.len(),
                all.len() == entries.len(),
                forall|j: int| 0 <= j < all.len() ==> all[j] == (#[trigger] entries[j]).0@,
                names.deep_view() == distinct(all.take(k as int)),
            decreases entries.len() - k,
        {
            proof {
                assert(all.take(k + 1) =~= all.take(k as int).push(entries[k as int].0@));
                lemma_distinct_push(all.take(k as int), entries[k as int].0@);
            }
            push_new(&mut names, entries[k].0.clone());
            k += 1;
        }
        assert(all.take(entries.len() as int) =~= all);
        names
    }
}

/// The name by which a file of a wheel is imported, where the file is part
/// of the wheel's code.
pub open spec fn import_name_of() -> spec_fn(RecordEntryView) -> Option<Seq<char>> {
    |e: RecordEntryView|
        if is_code(e.entry) {
            Some(top_level_name(e.entry))
        } else {
            None
        }
}

/// The name of the script that a file of a wheel installs, where it
/// installs one.
pub open spec fn script_name_of() -> spec_fn(RecordEntryView) -> Option<Seq<char>> {
    |e: RecordEntryView| script_name(e.entry)
}

/// What a wheel provides.
#[derive(Debug, Clone)]
pub struct Package {
    pub metadata: Metadata,
    pub record: Record,
    pub entry_points: Option<EntryPoints>,
}

/// The names that `source` gives for the files `entries`, each once, in
/// the order in which they first occur.
fn collect_names(entries: &Vec<RecordEntry>, scripts: bool) -> (r: Vec<String>)
    ensures
        r.deep_view() == distinct(
            entry_views(entries@).filter_map(
                if scripts {
                    script_name_of()
                } else {
                    import_name_of()
                },
            ),
        ),
{
    let ghost all = entry_views(entries@);
    let ghost source = if scripts {
        script_name_of()
    } else {
        import_name_of()
    };
    let mut names: Vec<String> = Vec::new();
    let mut i: usize = 0;
    assert(all.take(0).filter_map(source) =~= Seq::<Seq<char>>::empty());
    assert(names.deep_view() =~= distinct(Seq::<Seq<char>>::empty()));
    while i < entries.len()
        invariant
            0 <= i <= entries.len(),
            all == entry_views(entries@),
            source == if scripts {
                script_name_of()
            } else {
                import_name_of()
            },
            names.deep_view() == distinct(all.take(i as int).filter_map(source)),
        decreases entries.len() - i,
    {
        proof {
            all.lemma_filter_map_take_succ(source, i as int);
            assert(all[i as int] == entries[i as int]@);
        }
        let entry = entries[i].entry.as_str();
        let found = if scripts {
            installed_script(entry)
        } else if is_dist_dir(entry) || is_data_dir(entry) {
            None
        } else {
            Some(import_name(entry))
        };
        match found {
            Some(name) => {
                proof {
                    let before = all.take(i as int).filter_map(source);
                    assert(before + seq![name@] =~= before.push(name@));
                    lemma_distinct_push(before, name@);
                }
                push_new(&mut names, name);
            },
            None => {
                assert(all.take(i as int).filter_map(source) + Seq::<Seq<char>>::empty()
                    =~= all.take(i as int).filter_map(source));
            },
        }
        i += 1;
    }
    assert(all.take(entries.len() as int) =~= all);
    names
}

impl Package {
    /// The names by which the wheel can be imported: package roots,
    /// top-level modules and namespace packages.  Each name once, in the
    /// order in which the `RECORD` first lists a file of it.
    pub fn provides_packages(&self) -> (r: Vec<String>)
        ensures
            r.deep_view() == distinct(
                entry_views(self.record.entries@).filter_map(import_name_of()),
            ),
    {
        collect_names(&self.record.entries, false)
    }

    /// The scripts that the wheel installs.  Each name once, in the order
    /// in which the `RECORD` first lists it.
    pub fn provides_executables(&self) -> (r: Vec<String>)
        ensures
            r.deep_view() == distinct(
                entry_views(self.record.entries@).filter_map(script_name_of()),
            ),
    {
        collect_names(&self.record.entries, true)
    }

    /// The names of the entry points of the group `console_scripts`.  Each
    /// name once, in the order in which the group first lists it.
    pub fn console_scripts(&self) -> (r: Vec<String>)
        ensures
            r.deep_view() == match self.entry_points {
                Some(e) => names_in_group(e.group.deep_view(), "console_scripts"@),
                None => Seq::empty(),
            },
    {
        match &self.entry_points {
            Some(e) => e.names("console_scripts"),
            None => {
                let names: Vec<String> = Vec::new();
                assert(names.deep_view() =~= Seq::<Seq<char>>::empty());
                names
            },
        }
    }
}

/// The part of a wheel's `.dist-info` directory that an entry of the
/// archive is.
#[derive(Debug, Clone, Copy, PartialEq, Eq, Structural)]
pub enum Part {
    Record,
    Metadata,
    EntryPoints,
}

/// The part that the entry `name` of an archive is, where it is one.
pub open spec fn part_of(name: Seq<char>) -> Option<Part> {
    match dist_name(name) {
        Some(file) => if file == "RECORD"@ {
            Some(Part::Record)
        } else if file == "METADATA"@ {
            Some(Part::Metadata)
        } else if file == "entry_points.txt"@ {
            Some(Part::EntryPoints)
        } else {
            None
        },
        None => None,
    }
}

/// What has been read of a wheel while its archive's entries go by.
#[derive(Debug)]
pub struct Archive {
    pub record: Option<Record>,
    pub metadata: Result<Metadata, InspectError>,
    pub entry_points: Option<EntryPoints>,
}

impl Archive {
    /// An archive of which nothing has been read.
    pub fn new() -> (r: Self)
        ensures
            r.record is None,
            r.metadata == Err::<Metadata, InspectError>(InspectError::NoMetadata),
            r.entry_points is None,
    {
        Archive { record: None, metadata: Err(InspectError::NoMetadata), entry_points: None }
    }

    /// The part that the entry `name` is, where its contents are to be
    /// read.
    pub fn wants(name: &str) -> (r: Option<Part>)
        ensures
            r == part_of(name@),
    {
        match dist_filename(name) {
            Some(file) => if str_eq(file, "RECORD") {
                Some(Part::Record)
            } else if str_eq(file, "METADATA") {
                Some(Part::Metadata)
            } else if str_eq(file, "entry_points.txt") {
                Some(Part::EntryPoints)
            } else {
                None
            },
            None => None,
        }
    }

    /// Takes in the entry `name` with the contents `bytes`.  A part that
    /// is met again replaces what was read of it before.  An entry that is
    /// no part changes nothing.  Metadata that is no list of headers, and
    /// entry points that are no INI file, are an error, which leaves the
    /// archive as it was; metadata that lacks a header is kept as the
    /// error that `finish` reports.
    pub fn read(&mut self, name: &str, bytes: &[u8]) -> (r: Result<(), InspectError>)
        ensures
            match part_of(name@) {
                Some(Part::Record) => {
                    &&& r is Ok
                    &&& final(self).record is Some
                    &&& entry_views(final(self).record.unwrap().entries@) == Record::of_bytes(bytes@)
                    &&& final(self).metadata == old(self).metadata
                    &&& final(self).entry_points == old(self).entry_points
                },
                Some(Part::Metadata) => if metadata_of_bytes(bytes@) == Err::<
                    (Seq<char>, Seq<char>, Seq<char>),
                    InspectError,
                >(InspectError::UnreadableMetadata) {
                    r == Err::<(), InspectError>(InspectError::UnreadableMetadata) && *final(self)
                        == *old(self)
                } else {
                    &&& r is Ok
                    &&& Metadata::is_result(final(self).metadata, metadata_of_bytes(bytes@))
                    &&& final(self).record == old(self).record
                    &&& final(self).entry_points == old(self).entry_points
                },
                Some(Part::EntryPoints) => match ini_sections(bytes@) {
                    Some(sections) => {
                        &&& r is Ok
                        &&& final(self).entry_points is Some
                        &&& final(self).entry_points.unwrap().group.deep_view()
                            == sections.filter_map(group_of_section())
                        &&& final(self).record == old(self).record
                        &&& final(self).metadata == old(self).metadata
                    },
                    None => r == Err::<(), InspectError>(InspectError::UnreadableEntryPoints)
                        && *final(self) == *old(self),
                },
                None => r is Ok && *final(self) == *old(self),
            },
    {
        match Self::wants(name) {
            Some(Part::Record) => {
                self.record = Some(Record::from_bytes(bytes));
                Ok(())
            },
            Some(Part::Metadata) => match Metadata::from_bytes(bytes) {
                Err(InspectError::UnreadableMetadata) => Err(InspectError::UnreadableMetadata),
                metadata => {
                    self.metadata = metadata;
                    Ok(())
                },
            },
            Some(Part::EntryPoints) => match EntryPoints::from_bytes(bytes) {
                Ok(e) => {
                    self.entry_points = Some(e);
                    Ok(())
                },
                Err(e) => Err(e),
            },
            None => Ok(()),
        }
    }

    /// What the wheel provides, once all entries have gone by:
    /// `Err(NoRecord)` where no `RECORD` was met, else the error of the
    /// last `METADATA`, or `Err(NoMetadata)` where none was met.
    pub fn finish(self) -> (r: Result<Package, InspectError>)
        ensures
            match r {
                Ok(p) => self.record == Some(p.record) && self.metadata == Ok::<
                    Metadata,
                    InspectError,
                >(p.metadata) && self.entry_points == p.entry_points,
                Err(e) => match self.record {
                    None => e == InspectError::NoRecord,
                    Some(_) => self.metadata == Err::<Metadata, InspectError>(e),
                },
            },
    {
        let record = match self.record {
            Some(r) => r,
            None => { return Err(InspectError::NoRecord); },
        };
        let metadata = match self.metadata {
            Ok(m) => m,
            Err(e) => { return Err(e); },
        };
        Ok(Package { metadata, record, entry_points: self.entry_points })
    }
}

} // verus!
