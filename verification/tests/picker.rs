use kayak::distribution::{BuildTag, CompatibilityTag};
use kayak::picker::{
    newest, pick_best_bdist, read_tags, read_wheels, select_bdist, select_sdist, widest, Error,
    Project,
};
use kayak::warehouse::{
    DistributionDigest, DistributionUrl, Package, PackageVersion,
};
use std::collections::HashMap;

fn file(filename: &str, packagetype: &str) -> DistributionUrl {
    DistributionUrl {
        digests: DistributionDigest {
            blake2b_256: String::new(),
            md5: String::new(),
            sha256: String::new(),
        },
        filename: filename.to_string(),
        md5_digest: String::new(),
        packagetype: packagetype.to_string(),
        python_version: String::new(),
        requires_python: None,
        size: 0,
        upload_time: String::new(),
        upload_time_iso_8601: String::new(),
        url: format!("https://files.example/{filename}"),
        yanked: false,
        yanked_reason: None,
    }
}

fn wheels(names: &[&str]) -> Vec<DistributionUrl> {
    names.iter().map(|n| file(n, "bdist_wheel")).collect()
}

fn version(number: &str, yanked: bool, urls: Vec<DistributionUrl>) -> PackageVersion {
    PackageVersion {
        author: None,
        author_email: None,
        classifiers: vec![],
        description: None,
        description_content_type: None,
        docs_url: None,
        download_url: None,
        home_page: None,
        keywords: None,
        license: None,
        maintainer: None,
        maintainer_email: None,
        name: "pkg".to_string(),
        package_url: String::new(),
        platform: None,
        project_url: String::new(),
        project_urls: HashMap::new(),
        release_url: None,
        requires_dist: vec![],
        requires_python: None,
        summary: None,
        urls,
        version: number.to_string(),
        vulnerabilities: vec![],
        yanked,
        yanked_reason: None,
    }
}

fn package(versions: &[&str]) -> Package {
    Package {
        author: None,
        author_email: None,
        classifiers: vec![],
        description: None,
        description_content_type: None,
        docs_url: None,
        download_url: None,
        home_page: None,
        keywords: None,
        license: None,
        maintainer: None,
        maintainer_email: None,
        name: "pkg".to_string(),
        package_url: String::new(),
        platform: None,
        project_url: String::new(),
        project_urls: HashMap::new(),
        requires_dist: vec![],
        requires_python: None,
        summary: None,
        versions: versions.iter().map(|v| v.to_string()).collect(),
        yanked: false,
        yanked_reason: None,
    }
}

#[test]
fn best_of_a_single_wheel_is_that_wheel() {
    let files = wheels(&["pkg-1.0-py3-none-any.whl"]);
    let best = pick_best_bdist(&files).unwrap();
    assert_eq!(best.filename, "pkg-1.0-py3-none-any.whl");
    assert!(best.filename().unwrap().compatibility_tag.is_pure());
}

#[test]
fn best_of_two_pure_wheels_is_a_pure_wheel() {
    let files = wheels(&["pkg-1.0-py2-none-any.whl", "pkg-1.0-py3-none-any.whl"]);
    let best = pick_best_bdist(&files).unwrap();
    let tag = best.filename().unwrap().compatibility_tag;
    assert!(tag.is_pure());
    assert!(!tag.is_universal());
    assert_eq!(best.filename, "pkg-1.0-py2-none-any.whl");
}

#[test]
fn exact_selection_takes_the_greatest_build_tag() {
    let files = wheels(&["pkg-1.0-1-py3-none-any.whl", "pkg-1.0-2-py3-none-any.whl"]);
    let tag = CompatibilityTag::from_tag("py3-none-any").unwrap();
    let chosen = select_bdist(&tag, &files).unwrap();
    assert_eq!(chosen.filename, "pkg-1.0-2-py3-none-any.whl");
    assert_eq!(chosen.filename().unwrap().build_tag.unwrap().number, 2);
}

#[test]
fn exact_selection_compares_build_numbers_as_numbers() {
    let files = wheels(&[
        "pkg-1.0-10-py3-none-any.whl",
        "pkg-1.0-9-py3-none-any.whl",
        "pkg-1.0-py3-none-any.whl",
        "pkg-1.0-10-py2-none-any.whl",
    ]);
    let tag = CompatibilityTag::from_tag("py3-none-any").unwrap();
    assert_eq!(select_bdist(&tag, &files).unwrap().filename, "pkg-1.0-10-py3-none-any.whl");
}

#[test]
fn exact_selection_takes_the_last_of_equal_build_tags() {
    let mut files = wheels(&["pkg-1.0-py3-none-any.whl", "pkg-1.0-py3-none-any.whl"]);
    files[0].url = "first".to_string();
    files[1].url = "second".to_string();
    let tag = CompatibilityTag::from_tag("py3-none-any").unwrap();
    assert_eq!(select_bdist(&tag, &files).unwrap().url, "second");
    let mut files = wheels(&["pkg-1.0-0-py3-none-any.whl", "pkg-1.0-py3-none-any.whl"]);
    files[1].url = "no build tag".to_string();
    assert_eq!(select_bdist(&tag, &files).unwrap().url, "no build tag");
}

#[test]
fn exact_selection_passes_over_what_does_not_match() {
    let mut files = wheels(&["pkg-1.0-py2-none-any.whl", "broken.whl"]);
    files.push(file("pkg-1.0-py3-none-any.whl", "sdist"));
    let tag = CompatibilityTag::from_tag("py3-none-any").unwrap();
    assert!(select_bdist(&tag, &files).is_none());
    assert!(select_bdist(&tag, &vec![]).is_none());
}

#[test]
fn best_prefers_universal_then_pure_then_any_abi() {
    let names = [
        "pkg-1.0-cp311-cp311-win32.whl",
        "pkg-1.0-cp311-none-win32.whl",
        "pkg-1.0-py3-none-any.whl",
        "pkg-1.0-py2.py3-none-any.whl",
    ];
    for n in 1..=names.len() {
        let files = wheels(&names[..n]);
        assert_eq!(pick_best_bdist(&files).unwrap().filename, names[n - 1]);
        let mut reversed = wheels(&names[..n]);
        reversed.reverse();
        assert_eq!(pick_best_bdist(&reversed).unwrap().filename, names[n - 1]);
    }
}

#[test]
fn best_keeps_the_first_of_equally_wide_wheels() {
    let files = wheels(&[
        "pkg-1.0-cp311-cp311-win32.whl",
        "pkg-1.0-cp312-cp312-manylinux1_x86_64.whl",
        "pkg-1.0-cp310-cp310-macosx_11_0_arm64.whl",
    ]);
    assert_eq!(pick_best_bdist(&files).unwrap().filename, "pkg-1.0-cp311-cp311-win32.whl");
}

#[test]
fn best_passes_over_files_that_are_no_wheels() {
    let mut files = vec![file("pkg-1.0.tar.gz", "sdist"), file("pkg-1.0-py2.py3-none-any.whl", "bdist_egg")];
    files.extend(wheels(&["not-a-wheel", "pkg-1.0-cp311-cp311-win32.whl"]));
    assert_eq!(pick_best_bdist(&files).unwrap().filename, "pkg-1.0-cp311-cp311-win32.whl");
    files.pop();
    assert!(pick_best_bdist(&files).is_none());
}

#[test]
fn source_selection_takes_the_first_sdist() {
    let mut files = wheels(&["pkg-1.0-py3-none-any.whl"]);
    files.push(file("pkg-1.0.tar.gz", "sdist"));
    files.push(file("pkg-1.0.zip", "sdist"));
    assert_eq!(select_sdist(&files).unwrap().filename, "pkg-1.0.tar.gz");
    assert!(select_sdist(&wheels(&["pkg-1.0-py3-none-any.whl"])).is_none());
}

#[test]
fn project_remembers_what_was_asked_for() {
    let project = Project::new("pkg".to_string(), Some("1.0".to_string()), None);
    assert_eq!(project.package_selector(), "pkg");
    assert_eq!(project.version_selector(), Some("1.0".to_string()));
    assert_eq!(project.distribution_selector(), None);
    assert!(project.version_was_selected());
    assert!(!project.distribution_was_selected());
    assert!(project.package().is_err());
    assert!(project.version().is_err());
    assert_eq!(
        project.import_package().unwrap_err(),
        Error::Distribution(kayak::distribution::Error::InvalidWheelName)
    );
}

#[test]
fn project_chooses_by_selector() {
    let files = || {
        let mut files = wheels(&["pkg-1.0-cp311-cp311-win32.whl", "pkg-1.0-py3-none-any.whl"]);
        files.push(file("pkg-1.0.tar.gz", "sdist"));
        files
    };
    let mut project = Project::new("pkg".to_string(), None, None);
    assert!(matches!(project.distribution(), Err(kayak::distribution::Error::InvalidWheelName)));
    assert!(project.version_fetched(version("1.0", false, files())));
    assert_eq!(project.distribution().unwrap().filename, "pkg-1.0-py3-none-any.whl");
    assert_eq!(project.pick_best_bdist().unwrap().filename, "pkg-1.0-py3-none-any.whl");
    assert_eq!(project.select_sdist().unwrap().filename, "pkg-1.0.tar.gz");
    assert!(project.select_bdist().is_none());

    let mut project = Project::new("pkg".to_string(), None, Some("sdist".to_string()));
    project.version_fetched(version("1.0", false, files()));
    assert_eq!(project.distribution().unwrap().filename, "pkg-1.0.tar.gz");

    let mut project = Project::new("pkg".to_string(), None, Some("cp311-cp311-win32".to_string()));
    project.version_fetched(version("1.0", false, files()));
    assert_eq!(project.distribution().unwrap().filename, "pkg-1.0-cp311-cp311-win32.whl");
    assert_eq!(project.select_bdist().unwrap().filename, "pkg-1.0-cp311-cp311-win32.whl");

    let mut project = Project::new("pkg".to_string(), None, Some("no tag".to_string()));
    project.version_fetched(version("1.0", false, files()));
    assert!(project.distribution().is_err());
}

#[test]
fn project_passes_over_yanked_versions_unless_asked_for() {
    let mut project = Project::new("pkg".to_string(), None, None);
    assert!(!project.version_fetched(version("2.0", true, vec![])));
    assert!(project.version().is_err());
    assert!(project.version_fetched(version("1.0", false, vec![])));
    assert_eq!(project.version().unwrap().version, "1.0");
    assert!(project.version_fetched(version("0.9", false, vec![])));
    assert_eq!(project.version().unwrap().version, "1.0");

    let mut project = Project::new("pkg".to_string(), Some("2.0".to_string()), None);
    assert!(project.version_fetched(version("2.0", true, vec![])));
    assert_eq!(project.version().unwrap().version, "2.0");
}

#[test]
fn project_lists_candidates_from_greatest_to_least() {
    let mut project = Project::new("pkg".to_string(), None, None);
    assert!(project.version_candidates().is_empty());
    project.package_fetched(package(&["1.9", "1.10", "nonsense", "1.2.post1", "1.2"]));
    let candidates: Vec<String> =
        project.version_candidates().iter().map(|v| v.normalize()).collect();
    assert_eq!(candidates, vec!["1.10", "1.9", "1.2.post1", "1.2"]);
    project.package_fetched(package(&["3.0"]));
    assert_eq!(project.package().unwrap().versions.len(), 5);
    project.version_fetched(version("1.10", false, vec![]));
    assert!(project.version_candidates().is_empty());

    let mut project = Project::new("pkg".to_string(), Some("1.9".to_string()), None);
    project.package_fetched(package(&["1.9", "1.10"]));
    assert!(project.version_candidates().is_empty());
}

#[test]
fn project_asks_for_the_wheel_to_inspect() {
    let mut project = Project::new("pkg".to_string(), None, None);
    assert_eq!(
        project.import_package_request().unwrap_err(),
        Error::Distribution(kayak::distribution::Error::InvalidWheelName)
    );
    project.version_fetched(version("1.0", false, wheels(&["pkg-1.0-py3-none-any.whl"])));
    assert_eq!(
        project.import_package_request().unwrap(),
        Some("https://files.example/pkg-1.0-py3-none-any.whl")
    );

    let mut project = Project::new("pkg".to_string(), None, Some("sdist".to_string()));
    assert_eq!(
        project.import_package_request().unwrap_err(),
        Error::Warehouse(kayak::warehouse::Error::InvalidName)
    );
    project.version_fetched(version("1.0", false, vec![file("pkg-1.0.tar.gz", "sdist")]));
    assert_eq!(
        project.import_package_request().unwrap_err(),
        Error::Warehouse(kayak::warehouse::Error::InvalidName)
    );
}

fn tag(text: &str) -> Option<CompatibilityTag> {
    Some(CompatibilityTag::from_tag(text).unwrap())
}

fn built(text: &str, build: Option<&str>) -> Option<(CompatibilityTag, Option<BuildTag>)> {
    Some((
        CompatibilityTag::from_tag(text).unwrap(),
        build.map(|b| BuildTag::parse(b).unwrap()),
    ))
}

#[test]
fn widest_of_two_pure_tags_is_pure_and_first() {
    let tags = vec![tag("py2-none-any"), tag("py3-none-any")];
    let at = widest(&tags).unwrap();
    assert!(tags[at].as_ref().unwrap().is_pure());
    assert_eq!(at, 0);
}

#[test]
fn widest_ranks_tags_by_how_widely_they_apply() {
    let tags = vec![
        None,
        tag("cp311-cp311-win32"),
        tag("cp312-cp312-win32"),
        tag("cp311-none-win32"),
        None,
        tag("py3-none-any"),
        tag("py2-none-any"),
        tag("py2.py3-none-any"),
        tag("py2.py3-none-any"),
    ];
    assert_eq!(widest(&tags), Some(7));
    assert_eq!(widest(&tags[..7].iter().map(|t| t.as_ref().map(|t| tag(&t.to_string()).unwrap())).collect()), Some(5));
    assert_eq!(widest(&vec![None, tag("cp311-cp311-win32"), tag("cp311-none-win32"), tag("cp39-none-win32")]), Some(2));
    assert_eq!(widest(&vec![None, tag("cp311-cp311-win32"), tag("cp312-cp312-win32")]), Some(1));
    assert_eq!(widest(&vec![None, None]), None);
    assert_eq!(widest(&vec![]), None);
}

#[test]
fn newest_takes_the_greatest_build_tag_and_the_last_of_equals() {
    let asked = CompatibilityTag::from_tag("py3-none-any").unwrap();
    let wheels = vec![
        built("py3-none-any", Some("9")),
        built("py2-none-any", Some("99")),
        built("py3-none-any", Some("10")),
        None,
        built("py3-none-any", Some("10")),
        built("py3-none-any", Some("2z")),
        built("py3-none-any", None),
    ];
    assert_eq!(newest(&asked, &wheels), Some(4));
    assert_eq!(newest(&asked, &vec![built("py3-none-any", None), built("py3-none-any", Some("0"))]), Some(1));
    assert_eq!(newest(&asked, &vec![built("py3-none-any", Some("0")), built("py3-none-any", None)]), Some(1));
    assert_eq!(newest(&asked, &vec![built("py3-none-any", Some("0a")), built("py3-none-any", None)]), Some(0));
    assert_eq!(newest(&asked, &vec![built("py2-none-any", Some("1")), None]), None);
    assert_eq!(newest(&asked, &vec![]), None);
}

#[test]
fn files_are_read_as_tags_at_their_places() {
    let mut files = wheels(&["pkg-1.0-3-py3-none-any.whl", "not-a-wheel", "pkg-1.0-cp311-cp311-win32.whl"]);
    files.push(file("pkg-1.0-py3-none-any.whl", "sdist"));
    let tags: Vec<Option<String>> =
        read_tags(&files).iter().map(|t| t.as_ref().map(|t| t.to_string())).collect();
    assert_eq!(
        tags,
        vec![Some("py3-none-any".to_string()), None, Some("cp311-cp311-win32".to_string()), None]
    );
    let read = read_wheels(&files);
    assert_eq!(read.len(), 4);
    assert_eq!(read[0].as_ref().unwrap().1.as_ref().unwrap().number, 3);
    assert!(read[1].is_none());
    assert!(read[2].as_ref().unwrap().1.is_none());
    assert_eq!(read[2].as_ref().unwrap().0.to_string(), "cp311-cp311-win32");
    assert!(read[3].is_none());
}

#[test]
fn nothing_is_known_of_a_wheel_before_it_is_inspected() {
    let invalid_name = Error::Warehouse(kayak::warehouse::Error::InvalidName);
    let not_found = Error::Warehouse(kayak::warehouse::Error::NotFound);
    let no_wheel = Error::Distribution(kayak::distribution::Error::InvalidWheelName);

    let project = Project::new("pkg".to_string(), None, Some("sdist".to_string()));
    assert_eq!(project.import_package().unwrap_err(), invalid_name);
    assert!(!project.inspection_wants_version());
    assert!(project.version().is_err());

    let mut project = Project::new("pkg".to_string(), None, None);
    assert!(project.inspection_wants_version());
    assert_eq!(project.import_package().unwrap_err(), no_wheel);
    project.version_fetched(version("1.0", false, vec![file("pkg-1.0.tar.gz", "sdist")]));
    assert!(!project.inspection_wants_version());
    assert_eq!(project.import_package().unwrap_err(), no_wheel);

    let mut project = Project::new("pkg".to_string(), None, None);
    project.version_fetched(version("1.0", false, wheels(&["pkg-1.0-py3-none-any.whl"])));
    assert_eq!(project.import_package().unwrap_err(), not_found);

    let mut project = Project::new("pkg".to_string(), None, Some("py3-none-any".to_string()));
    project.version_fetched(version("1.0", false, wheels(&["pkg-1.0-py2-none-any.whl"])));
    assert_eq!(project.import_package().unwrap_err(), no_wheel);
}

#[test]
fn what_was_inspected_is_kept() {
    let inspected = |name: &str| kayak::package_inspect::Package {
        metadata: kayak::package_inspect::Metadata {
            metadata_version: "2.1".to_string(),
            name: name.to_string(),
            version: "1.0".to_string(),
        },
        record: kayak::package_inspect::Record { entries: vec![] },
        entry_points: None,
    };
    let mut project = Project::new("pkg".to_string(), None, Some("sdist".to_string()));
    project.import_package_fetched(inspected("first"));
    project.import_package_fetched(inspected("second"));
    assert_eq!(project.import_package().unwrap().metadata.name, "first");
    assert_eq!(project.import_package_request().unwrap(), None);
    assert!(!project.inspection_wants_version());
}
