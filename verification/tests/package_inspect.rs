use kayak::package_inspect::{
    data_filename, dist_filename, is_data_dir, is_dist_dir, Archive, EntryPoints, Header,
    InspectError, Metadata, MetadataField, ObjectReference, Package, Part, Record, RecordEntry,
};

fn strings(texts: &[&str]) -> Vec<String> {
    texts.iter().map(|t| t.to_string()).collect()
}

fn entry(path: &str) -> RecordEntry {
    RecordEntry { entry: path.to_string(), algo: "sha256".to_string(), hash: "x".to_string(), size: 1 }
}

fn wheel(paths: &[&str], entry_points: Option<EntryPoints>) -> Package {
    Package {
        metadata: Metadata {
            metadata_version: "2.1".to_string(),
            name: "pkg".to_string(),
            version: "1.0".to_string(),
        },
        record: Record { entries: paths.iter().map(|p| entry(p)).collect() },
        entry_points,
    }
}

#[test]
fn finds_files_of_the_dist_info_directory() {
    assert_eq!(dist_filename("pkg-1.0.dist-info/RECORD"), Some("RECORD"));
    assert_eq!(dist_filename("pkg-1.0.dist-info/licenses/LICENSE"), Some("licenses/LICENSE"));
    assert_eq!(dist_filename(".dist-info/"), Some(""));
    assert_eq!(dist_filename("pkg/pkg-1.0.dist-info/RECORD"), None);
    assert_eq!(dist_filename("pkg-1.0.dist-info"), None);
    assert_eq!(dist_filename("pkg-1.0.data/RECORD"), None);
    assert_eq!(dist_filename(""), None);
    assert!(is_dist_dir("pkg-1.0.dist-info/METADATA"));
    assert!(!is_dist_dir("pkg/__init__.py"));
}

#[test]
fn finds_files_of_the_data_directory() {
    assert_eq!(data_filename("pkg-1.0.data/scripts/run"), Some("scripts/run"));
    assert_eq!(data_filename("pkg-1.0.dist-info/RECORD"), None);
    assert_eq!(data_filename("pkg.database/x"), None);
    assert!(is_data_dir("pkg-1.0.data/purelib/pkg/__init__.py"));
    assert!(!is_data_dir("pkg-1.0.data"));
}

#[test]
fn reads_object_references() {
    let r = ObjectReference::from_str("pkg.cli:main");
    assert_eq!((r.module.as_str(), r.object.as_deref(), r.extras.as_deref()), ("pkg.cli", Some("main"), None));
    let r = ObjectReference::from_str("pkg.cli");
    assert_eq!((r.module.as_str(), r.object.as_deref(), r.extras.as_deref()), ("pkg.cli", None, None));
    let r = ObjectReference::from_str("pkg.cli:main.run \t[extra1, extra2]");
    assert_eq!(
        (r.module.as_str(), r.object.as_deref(), r.extras.as_deref()),
        ("pkg.cli", Some("main.run"), Some("extra1, extra2"))
    );
    let r = ObjectReference::from_str("m:a:b[x]]]");
    assert_eq!((r.module.as_str(), r.object.as_deref(), r.extras.as_deref()), ("m", Some("a:b"), Some("x")));
    let r = ObjectReference::from_str("m\u{a0}[x] ");
    assert_eq!((r.module.as_str(), r.object.as_deref(), r.extras.as_deref()), ("m", None, Some("x] ")));
    let r = ObjectReference::from_str("");
    assert_eq!((r.module.as_str(), r.object.as_deref(), r.extras.as_deref()), ("", None, None));
}

#[test]
fn reads_a_line_of_the_record() {
    let e = RecordEntry::from_fields(&strings(&["pkg/__init__.py", "sha256=abc=", "+120"])).unwrap();
    assert_eq!((e.entry.as_str(), e.algo.as_str(), e.hash.as_str(), e.size), ("pkg/__init__.py", "sha256", "abc=", 120));
    assert!(RecordEntry::from_fields(&strings(&["a", "sha256=abc"])).is_none());
    assert!(RecordEntry::from_fields(&strings(&["a", "sha256=abc", "1", "2"])).is_none());
    assert!(RecordEntry::from_fields(&strings(&["a", "sha256abc", "1"])).is_none());
    assert!(RecordEntry::from_fields(&strings(&["a", "sha256=abc", ""])).is_none());
    assert!(RecordEntry::from_fields(&strings(&["a", "sha256=abc", "-1"])).is_none());
    assert!(RecordEntry::from_fields(&strings(&["a", "sha256=abc", "99999999999999999999999"])).is_none());
}

#[test]
fn reads_the_record_file() {
    let bytes = b"pkg/__init__.py,sha256=abc,12\n\"pkg/a,b.py\",sha256=def,3\npkg-1.0.dist-info/RECORD,,\nshort,row\npkg/c.py,md5=0,7\n";
    let record = Record::from_bytes(bytes);
    let read: Vec<(&str, &str, &str, usize)> = record
        .entries
        .iter()
        .map(|e| (e.entry.as_str(), e.algo.as_str(), e.hash.as_str(), e.size))
        .collect();
    assert_eq!(
        read,
        vec![("pkg/__init__.py", "sha256", "abc", 12), ("pkg/a,b.py", "sha256", "def", 3), ("pkg/c.py", "md5", "0", 7)]
    );
    assert!(Record::from_bytes(b"").entries.is_empty());
}

#[test]
fn record_rows_that_cannot_be_read_are_passed_over() {
    let rows = vec![None, Some(strings(&["a.py", "sha256=1", "2"])), Some(strings(&["b.py", "nothing", "2"])), None];
    let record = Record::from_rows(&rows);
    assert_eq!(record.entries.len(), 1);
    assert_eq!(record.entries[0].entry, "a.py");
}

#[test]
fn reads_the_metadata_file() {
    let m = Metadata::from_bytes(b"Metadata-Version: 2.1\nName: pkg\nVersion: 1.0\nSummary: x\n\nbody\n").unwrap();
    assert_eq!((m.metadata_version.as_str(), m.name.as_str(), m.version.as_str()), ("2.1", "pkg", "1.0"));
    assert_eq!(
        Metadata::from_bytes(b"Name: pkg\nVersion: 1.0\n\n").unwrap_err(),
        InspectError::MissingKey(MetadataField::MetadataVersion)
    );
    assert_eq!(
        Metadata::from_bytes(b"Metadata-Version: 2.1\nVersion: 1.0\n\n").unwrap_err(),
        InspectError::MissingKey(MetadataField::Name)
    );
    assert_eq!(
        Metadata::from_bytes(b"Metadata-Version: 2.1\nName: pkg\n\n").unwrap_err(),
        InspectError::MissingKey(MetadataField::Version)
    );
}

#[test]
fn metadata_needs_three_texts() {
    let text = |t: &str| Header::Text(t.to_string());
    let m = Metadata::from_headers(text("2.1"), text("pkg"), text("1.0")).unwrap();
    assert_eq!(m.name, "pkg");
    assert_eq!(
        Metadata::from_headers(Header::Other, Header::Missing, Header::Missing).unwrap_err(),
        InspectError::MissingValue(MetadataField::MetadataVersion)
    );
    assert_eq!(
        Metadata::from_headers(text("2.1"), Header::Other, Header::Missing).unwrap_err(),
        InspectError::MissingValue(MetadataField::Name)
    );
    assert_eq!(
        Metadata::from_headers(text("2.1"), text("pkg"), Header::Other).unwrap_err(),
        InspectError::MissingValue(MetadataField::Version)
    );
    assert_eq!(
        Metadata::from_headers(text("2.1"), Header::Unreadable, text("1.0")).unwrap_err(),
        InspectError::UnreadableMetadata
    );
}

#[test]
fn reads_the_entry_points_file() {
    let bytes = b"top = level\n[console_scripts]\nrun = pkg.cli:main\nhelp = pkg.cli:help [docs]\n\n[gui_scripts]\nshow = pkg.gui\n";
    let points = EntryPoints::from_bytes(bytes).unwrap();
    let groups: Vec<&str> = points.group.iter().map(|g| g.0.as_str()).collect();
    assert_eq!(groups, vec!["console_scripts", "gui_scripts"]);
    assert_eq!(points.group[0].1[0].0, "run");
    assert_eq!(points.group[0].1[0].1.module, "pkg.cli");
    assert_eq!(points.group[0].1[0].1.object.as_deref(), Some("main"));
    assert_eq!(points.group[0].1[1].1.extras.as_deref(), Some("docs"));
    assert_eq!(points.names("console_scripts"), vec!["run", "help"]);
    assert_eq!(points.names("gui_scripts"), vec!["show"]);
    assert!(points.names("other").is_empty());
    assert_eq!(EntryPoints::from_bytes(b"[unclosed\nx = y\n").unwrap_err(), InspectError::UnreadableEntryPoints);
}

#[test]
fn entry_point_names_come_once_and_from_the_last_group() {
    let reference = || ObjectReference::from_str("m:f");
    let points = EntryPoints {
        group: vec![
            ("console_scripts".to_string(), vec![("old".to_string(), reference())]),
            ("other".to_string(), vec![]),
            (
                "console_scripts".to_string(),
                vec![("b".to_string(), reference()), ("a".to_string(), reference()), ("b".to_string(), reference())],
            ),
        ],
    };
    assert_eq!(points.names("console_scripts"), vec!["b", "a"]);
    assert_eq!(wheel(&[], Some(points)).console_scripts(), vec!["b", "a"]);
    assert!(wheel(&[], None).console_scripts().is_empty());
}

#[test]
fn provides_the_top_level_names_of_its_code() {
    let package = wheel(
        &[
            "pkg/__init__.py",
            "pkg/sub/mod.py",
            "single.py",
            "pkg-1.0.dist-info/RECORD",
            "pkg-1.0.data/scripts/run",
            "native.cpython-311-x86_64-linux-gnu.so",
            "single.py",
            "pkg.py/inner.py",
        ],
        None,
    );
    assert_eq!(package.provides_packages(), vec!["pkg", "single", "native.cpython-311-x86_64-linux-gnu.so"]);
}

#[test]
fn provides_the_scripts_of_its_data() {
    let package = wheel(
        &[
            "pkg/__init__.py",
            "pkg-1.0.data/scripts/run",
            "pkg-1.0.data/scripts/tools/fix",
            "pkg-1.0.data/headers/pkg.h",
            "pkg-1.0.data/scripts",
            "pkg-1.0.data/scripts/run",
            "scripts/not-data",
        ],
        None,
    );
    assert_eq!(package.provides_executables(), vec!["run", "tools/fix"]);
}

#[test]
fn archive_wants_the_three_parts() {
    assert_eq!(Archive::wants("pkg-1.0.dist-info/RECORD"), Some(Part::Record));
    assert_eq!(Archive::wants("pkg-1.0.dist-info/METADATA"), Some(Part::Metadata));
    assert_eq!(Archive::wants("pkg-1.0.dist-info/entry_points.txt"), Some(Part::EntryPoints));
    assert_eq!(Archive::wants("pkg-1.0.dist-info/WHEEL"), None);
    assert_eq!(Archive::wants("pkg/RECORD"), None);
    assert_eq!(Archive::wants("RECORD"), None);
}

#[test]
fn archive_is_read_entry_by_entry() {
    let mut archive = Archive::new();
    archive.read("pkg/__init__.py", b"import this").unwrap();
    archive.read("pkg-1.0.dist-info/METADATA", b"Name: broken\n\n").unwrap();
    archive.read("pkg-1.0.dist-info/RECORD", b"pkg/__init__.py,sha256=abc,11\n").unwrap();
    archive.read("pkg-1.0.dist-info/METADATA", b"Metadata-Version: 2.1\nName: pkg\nVersion: 1.0\n\n").unwrap();
    archive.read("pkg-1.0.dist-info/entry_points.txt", b"[console_scripts]\nrun = pkg:main\n").unwrap();
    assert_eq!(
        archive.read("pkg-1.0.dist-info/entry_points.txt", b"[broken\n").unwrap_err(),
        InspectError::UnreadableEntryPoints
    );
    let package = archive.finish().unwrap();
    assert_eq!(package.metadata.name, "pkg");
    assert_eq!(package.provides_packages(), vec!["pkg"]);
    assert_eq!(package.console_scripts(), vec!["run"]);
}

#[test]
fn archive_without_its_parts_is_an_error() {
    assert_eq!(Archive::new().finish().unwrap_err(), InspectError::NoRecord);
    let mut archive = Archive::new();
    archive.read("pkg-1.0.dist-info/METADATA", b"Metadata-Version: 2.1\nName: pkg\nVersion: 1.0\n\n").unwrap();
    assert_eq!(archive.finish().unwrap_err(), InspectError::NoRecord);
    let mut archive = Archive::new();
    archive.read("pkg-1.0.dist-info/RECORD", b"").unwrap();
    assert_eq!(archive.finish().unwrap_err(), InspectError::NoMetadata);
    let mut archive = Archive::new();
    archive.read("pkg-1.0.dist-info/RECORD", b"").unwrap();
    archive.read("pkg-1.0.dist-info/METADATA", b"Metadata-Version: 2.1\n\n").unwrap();
    assert_eq!(archive.finish().unwrap_err(), InspectError::MissingKey(MetadataField::Name));
}

#[test]
fn metadata_that_is_no_list_of_headers_is_refused_when_met() {
    assert_eq!(Metadata::from_bytes(b"").unwrap_err(), InspectError::UnreadableMetadata);
    let mut archive = Archive::new();
    archive.read("pkg-1.0.dist-info/RECORD", b"pkg/__init__.py,sha256=abc,11\n").unwrap();
    archive.read("pkg-1.0.dist-info/METADATA", b"Metadata-Version: 2.1\nName: pkg\nVersion: 1.0\n\n").unwrap();
    assert_eq!(
        archive.read("pkg-1.0.dist-info/METADATA", b"").unwrap_err(),
        InspectError::UnreadableMetadata
    );
    assert_eq!(archive.finish().unwrap().metadata.name, "pkg");
    let mut archive = Archive::new();
    assert_eq!(
        archive.read("pkg-1.0.dist-info/METADATA", b"").unwrap_err(),
        InspectError::UnreadableMetadata
    );
    archive.read("pkg-1.0.dist-info/RECORD", b"").unwrap();
    assert_eq!(archive.finish().unwrap_err(), InspectError::NoMetadata);
}
