use kayak::warehouse::{
    index_is_supported, is_valid_index, known_classifiers, order_versions, request_url, Error,
    Package, PackageVersion, SupportLevel, DistributionDigest, DistributionUrl, MAX_REQUEST_PART,
    PYPI_URI,
};
use kayak::version::Version;
use std::collections::HashMap;

fn strings(texts: &[&str]) -> Vec<String> {
    texts.iter().map(|t| t.to_string()).collect()
}

fn described(classifiers: &[&str], versions: &[&str]) -> Package {
    Package {
        author: None,
        author_email: None,
        classifiers: strings(classifiers),
        description: None,
        description_content_type: None,
        docs_url: None,
        download_url: None,
        home_page: None,
        keywords: None,
        license: None,
        maintainer: None,
        maintainer_email: None,
        name: "pkg".to_string(),
        package_url: String::new(),
        platform: None,
        project_url: String::new(),
        project_urls: HashMap::new(),
        requires_dist: vec![],
        requires_python: None,
        summary: None,
        versions: strings(versions),
        yanked: false,
        yanked_reason: None,
    }
}

fn released(number: &str, classifiers: &[&str]) -> PackageVersion {
    PackageVersion {
        author: None,
        author_email: None,
        classifiers: strings(classifiers),
        description: None,
        description_content_type: None,
        docs_url: None,
        download_url: None,
        home_page: None,
        keywords: None,
        license: None,
        maintainer: None,
        maintainer_email: None,
        name: "pkg".to_string(),
        package_url: String::new(),
        platform: None,
        project_url: String::new(),
        project_urls: HashMap::new(),
        release_url: None,
        requires_dist: vec![],
        requires_python: None,
        summary: None,
        urls: vec![],
        version: number.to_string(),
        vulnerabilities: vec![],
        yanked: false,
        yanked_reason: None,
    }
}

#[test]
fn supports_the_api_version_it_speaks() {
    assert_eq!(index_is_supported("1.0").unwrap(), SupportLevel::Supported);
    assert_eq!(index_is_supported("0.0").unwrap(), SupportLevel::Supported);
    assert_eq!(index_is_supported("+1.+0").unwrap(), SupportLevel::Supported);
    assert_eq!(index_is_supported("001.000").unwrap(), SupportLevel::Supported);
}

#[test]
fn supports_later_minor_versions_in_part() {
    assert_eq!(index_is_supported("1.1").unwrap(), SupportLevel::SomewhatSupported);
    assert_eq!(index_is_supported("0.255").unwrap(), SupportLevel::SomewhatSupported);
}

#[test]
fn does_not_support_later_major_versions() {
    assert_eq!(index_is_supported("2.0").unwrap(), SupportLevel::Unsupported);
    assert_eq!(index_is_supported("255.255").unwrap(), SupportLevel::Unsupported);
}

#[test]
fn refuses_api_versions_of_another_form() {
    for bad in ["", "1", "1.", ".0", "1.0.0", "a.b", "1.-0", "256.0", "1.256", " 1.0", "1,0", "+.0"] {
        assert_eq!(index_is_supported(bad).unwrap_err(), Error::InvalidVersion, "{bad:?}");
    }
}

#[test]
fn distribution_errors_become_invalid_names() {
    assert_eq!(Error::from(kayak::distribution::Error::InvalidWheelName), Error::InvalidName);
    assert_eq!(Error::from(kayak::distribution::Error::InvalidPackageName), Error::InvalidName);
}

#[test]
fn file_name_of_a_distribution_is_read_as_a_wheel_name() {
    let mut file = DistributionUrl {
        digests: DistributionDigest {
            blake2b_256: String::new(),
            md5: String::new(),
            sha256: String::new(),
        },
        filename: "pkg-1.0-py3-none-any.whl".to_string(),
        md5_digest: String::new(),
        packagetype: "bdist_wheel".to_string(),
        python_version: String::new(),
        requires_python: None,
        size: 0,
        upload_time: String::new(),
        upload_time_iso_8601: String::new(),
        url: String::new(),
        yanked: false,
        yanked_reason: None,
    };
    assert_eq!(file.filename().unwrap().to_string(), "pkg-1.0-py3-none-any.whl");
    file.filename = "pkg-1.0.tar.gz".to_string();
    assert!(matches!(file.filename(), Err(Error::InvalidName)));
}

#[test]
fn orders_versions_as_versions() {
    let ordered = order_versions(&strings(&["1.10", "1.9", "2.0a1", "1.9.post1", "2.0", "0.1.dev3"]));
    let texts: Vec<String> = ordered.iter().map(|v| v.normalize()).collect();
    assert_eq!(texts, vec!["0.1.dev3", "1.9", "1.9.post1", "1.10", "2.0a1", "2.0"]);
}

#[test]
fn ordering_drops_what_is_no_version() {
    let package = described(&[], &["1.0", "one", "", "v2.0", "1.0-beta", "latest"]);
    let texts: Vec<String> = package.ordered_versions().iter().map(|v| v.normalize()).collect();
    assert_eq!(texts, vec!["1.0b0", "1.0", "2.0"]);
    assert!(order_versions(&vec![]).is_empty());
}

#[test]
fn ordering_keeps_versions_that_occur_twice() {
    let ordered = order_versions(&strings(&["2", "1", "2", "1"]));
    let texts: Vec<String> = ordered.iter().map(|v| v.normalize()).collect();
    assert_eq!(texts, vec!["1", "1", "2", "2"]);
}

#[test]
fn versions_compare_by_their_numbers() {
    let a = Version::parse("1.9").unwrap();
    let b = Version::parse("1.10").unwrap();
    assert!(a.at_most(&b));
    assert!(!b.at_most(&a));
    assert!(a.at_most(&a));
    assert!(Version::parse("1.0").unwrap().at_most(&Version::parse("1.0.0").unwrap()));
    assert!(Version::parse("1.0.0").unwrap().at_most(&Version::parse("1.0").unwrap()));
    assert!(Version::parse("not a version").is_none());
    assert_eq!(Version::parse("V1.0-Alpha.1").unwrap().normalize(), "1.0a1");
}

#[test]
fn version_number_of_a_release_is_read() {
    assert_eq!(released("1.0RC1", &[]).version().unwrap().normalize(), "1.0rc1");
    assert!(matches!(released("one", &[]).version(), Err(Error::InvalidVersion)));
}

#[test]
fn keeps_the_classifiers_that_are_known() {
    let all = [
        "Programming Language :: Python :: 3",
        "Made Up :: Classifier",
        "Development Status :: 5 - Production/Stable",
        "development status :: 5 - production/stable",
        "",
    ];
    let expected = vec![
        "Programming Language :: Python :: 3",
        "Development Status :: 5 - Production/Stable",
    ];
    assert_eq!(known_classifiers(&strings(&all)), expected);
    assert_eq!(described(&all, &[]).classifiers(), expected);
    assert_eq!(released("1.0", &all).classifiers(), expected);
    assert!(known_classifiers(&vec![]).is_empty());
}

#[test]
fn addresses_a_package_by_its_normal_name() {
    assert_eq!(
        Package::url(PYPI_URI, "My_Package.Name").unwrap(),
        "https://pypi.org/pypi/my-package-name/json"
    );
    assert_eq!(
        Package::url("https://example.org/simple/index?x=1", "a").unwrap(),
        "https://example.org/pypi/a/json?x=1"
    );
}

#[test]
fn addresses_a_version_by_its_normal_number() {
    assert_eq!(
        PackageVersion::url(PYPI_URI, "Pkg", "v1.0RC1").unwrap(),
        "https://pypi.org/pypi/pkg/1.0rc1/json"
    );
}

#[test]
fn address_errors_come_in_order() {
    assert_eq!(Package::url("not a url", "-bad").unwrap_err(), Error::NotFound);
    assert_eq!(Package::url("data:text/plain,x", "pkg").unwrap_err(), Error::NotFound);
    assert_eq!(Package::url(PYPI_URI, "-bad").unwrap_err(), Error::InvalidName);
    assert_eq!(PackageVersion::url("mailto:a@b.c", "-bad", "x").unwrap_err(), Error::NotFound);
    assert_eq!(PackageVersion::url(PYPI_URI, "-bad", "x").unwrap_err(), Error::InvalidName);
    assert_eq!(PackageVersion::url(PYPI_URI, "pkg", "x").unwrap_err(), Error::InvalidVersion);
}

#[test]
fn tells_an_index_from_other_addresses() {
    assert!(is_valid_index(PYPI_URI));
    assert!(is_valid_index("file:///srv/index"));
    assert!(!is_valid_index("pypi.org"));
    assert!(!is_valid_index("data:text/plain,x"));
    assert!(!is_valid_index(""));
}

#[test]
fn request_replaces_the_path_of_the_index() {
    assert_eq!(request_url(PYPI_URI, "a/b c").unwrap(), "https://pypi.org/a/b%20c");
    assert_eq!(request_url("https://pypi.org/old/path", "").unwrap(), "https://pypi.org/");
    assert_eq!(request_url("pypi.org", "a").unwrap_err(), Error::NotFound);
}

#[test]
fn request_refuses_what_is_too_long() {
    let long = "a".repeat(MAX_REQUEST_PART + 1);
    assert_eq!(request_url(PYPI_URI, &long).unwrap_err(), Error::NotFound);
    assert_eq!(request_url(&format!("https://{long}"), "a").unwrap_err(), Error::NotFound);
}
