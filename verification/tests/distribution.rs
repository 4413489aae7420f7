use kayak::distribution::{
    normalize_package_name, split_python_tag, BuildTag, CompatibilityTag, Error, WheelName,
};

#[test]
fn normalizes_mixed_separators_and_case() {
    assert_eq!(normalize_package_name("My_Package.Name").unwrap(), "my-package-name");
}

#[test]
fn refuses_name_with_leading_separator() {
    assert_eq!(normalize_package_name("-bad").unwrap_err(), Error::InvalidPackageName);
}

#[test]
fn collapses_runs_of_separators() {
    assert_eq!(normalize_package_name("a-_.b").unwrap(), "a-b");
    assert_eq!(normalize_package_name("A__B--C..D").unwrap(), "a-b-c-d");
}

#[test]
fn keeps_single_character_names() {
    assert_eq!(normalize_package_name("a").unwrap(), "a");
    assert_eq!(normalize_package_name("Z").unwrap(), "z");
    assert_eq!(normalize_package_name("7").unwrap(), "7");
}

#[test]
fn refuses_names_outside_the_grammar() {
    for bad in ["", "bad-", "_", "a b", "a/b", "naïve", "a\n", ".a", "a!"] {
        assert_eq!(normalize_package_name(bad).unwrap_err(), Error::InvalidPackageName, "{bad:?}");
    }
}

#[test]
fn normalizing_twice_changes_nothing() {
    for name in ["My_Package.Name", "a", "A-._-b", "zope.interface", "Flask_SQLAlchemy"] {
        let once = normalize_package_name(name).unwrap();
        assert_eq!(normalize_package_name(&once).unwrap(), once);
    }
}

#[test]
fn normalizing_leaves_canonical_names_alone() {
    for name in ["my-package-name", "a", "x1-y2", "0"] {
        assert_eq!(normalize_package_name(name).unwrap(), name);
    }
}

#[test]
fn build_tags_order_by_number_then_text() {
    assert!(BuildTag::parse("2") < BuildTag::parse("10"));
    assert!(BuildTag::parse("1a") < BuildTag::parse("1b"));
}

#[test]
fn build_tag_order_is_total_on_samples() {
    let texts = ["0", "1", "1a", "1b", "2", "10", "10x"];
    for (i, a) in texts.iter().enumerate() {
        for (j, b) in texts.iter().enumerate() {
            let (a, b) = (BuildTag::parse(a).unwrap(), BuildTag::parse(b).unwrap());
            assert_eq!(a < b, i < j);
            assert_eq!(a == b, i == j);
            assert_eq!(a > b, i > j);
            assert_eq!(a.cmp(&b), i.cmp(&j));
        }
    }
}

#[test]
fn build_tag_splits_number_and_text() {
    let tag = BuildTag::parse("12abc3").unwrap();
    assert_eq!(tag.number, 12);
    assert_eq!(tag.string, "abc3");
    let tag = BuildTag::parse("007").unwrap();
    assert_eq!(tag.number, 7);
    assert_eq!(tag.string, "");
}

#[test]
fn build_tag_needs_a_leading_digit() {
    assert!(BuildTag::parse("").is_none());
    assert!(BuildTag::parse("a1").is_none());
    assert!(BuildTag::parse("+1").is_none());
    assert!(BuildTag::parse("-1").is_none());
}

#[test]
fn build_tag_refuses_numbers_beyond_usize() {
    assert!(BuildTag::parse("99999999999999999999999999999999999999999").is_none());
    let most = usize::MAX.to_string();
    assert_eq!(BuildTag::parse(&most).unwrap().number, usize::MAX);
    assert!(BuildTag::parse(&format!("{most}0")).is_none());
}

#[test]
fn build_tag_text_round_trips() {
    for text in ["0", "1", "42", "10x", "3_beta", "1000000"] {
        assert_eq!(BuildTag::parse(text).unwrap().to_string(), text);
    }
    assert_eq!(BuildTag::parse("007x").unwrap().to_string(), "7x");
}

#[test]
fn tag_text_round_trips() {
    for text in [
        "py3-none-any",
        "py2.py3-none-any",
        "cp311-cp311-manylinux_2_17_x86_64.manylinux2014_x86_64",
        "cp39-abi3-win_amd64",
        "py3-none-macosx_10_9_universal2",
    ] {
        let tag = CompatibilityTag::from_tag(text).unwrap();
        assert_eq!(tag.to_string(), text);
    }
}

#[test]
fn tag_parts_are_split_on_dots() {
    let tag = CompatibilityTag::from_parts("py2.py3", "cp36m.abi3", "linux_x86_64.win32").unwrap();
    assert_eq!(tag.python_tags(), vec!["py2", "py3"]);
    assert_eq!(tag.api_tags(), vec!["cp36m", "abi3"]);
    assert_eq!(tag.platform_tags(), vec!["linux_x86_64", "win32"]);
}

#[test]
fn wildcards_are_written_as_none_and_any() {
    let tag = CompatibilityTag::from_parts("py3", "none", "any").unwrap();
    assert_eq!(tag.api_tags(), vec!["none"]);
    assert_eq!(tag.platform_tags(), vec!["any"]);
    assert!(tag.for_any_abi());
    assert!(tag.for_any_platform());
    assert!(tag.is_pure());
    assert!(!tag.is_universal());
}

#[test]
fn universal_needs_exactly_py2_and_py3() {
    assert!(CompatibilityTag::from_tag("py2.py3-none-any").unwrap().is_universal());
    assert!(!CompatibilityTag::from_tag("py3.py2-none-any").unwrap().is_universal());
    assert!(!CompatibilityTag::from_tag("py2.py3.py4-none-any").unwrap().is_universal());
    assert!(!CompatibilityTag::from_tag("py2.py3-none-win32").unwrap().is_universal());
}

#[test]
fn concrete_abi_with_any_platform_is_refused() {
    assert!(CompatibilityTag::from_parts("cp311", "cp311", "any").is_none());
    assert!(CompatibilityTag::from_parts("cp311", "abi3", "any").is_none());
    assert!(CompatibilityTag::from_tag("cp311-cp311-any").is_none());
    assert!(CompatibilityTag::from_parts("cp311", "none", "linux_x86_64").is_some());
}

#[test]
fn empty_parts_are_refused() {
    assert!(CompatibilityTag::from_parts("", "none", "any").is_none());
    assert!(CompatibilityTag::from_parts("py3", "", "any").is_none());
    assert!(CompatibilityTag::from_parts("py3", "none", "").is_none());
}

#[test]
fn abi_and_platform_take_only_tag_characters() {
    assert!(CompatibilityTag::from_parts("py3", "no-ne", "any").is_none());
    assert!(CompatibilityTag::from_parts("py3", "none", "linux x86").is_none());
    assert!(CompatibilityTag::from_parts("py3", "none", "linux\u{2014}x86").is_none());
    assert!(CompatibilityTag::from_parts("py-3 !", "none", "any").is_some());
    assert!(CompatibilityTag::from_parts("py3", "none", "\u{e9}t\u{e9}_\u{663}").is_some());
}

#[test]
fn tag_needs_three_segments() {
    assert!(CompatibilityTag::from_tag("py3").is_none());
    assert!(CompatibilityTag::from_tag("py3-none").is_none());
    assert!(CompatibilityTag::from_tag("").is_none());
    assert!(CompatibilityTag::from_tag("py3-none-any-extra").is_none());
}

#[test]
fn tags_are_equal_by_their_parts() {
    let a = CompatibilityTag::from_tag("py3-none-any").unwrap();
    let b = CompatibilityTag::from_parts("py3", "none", "any").unwrap();
    let c = CompatibilityTag::from_tag("py2-none-any").unwrap();
    let d = CompatibilityTag::from_tag("py3-none-win32").unwrap();
    assert!(a == b);
    assert!(a != c);
    assert!(a != d);
}

#[test]
fn python_tag_splits_at_first_digit() {
    assert_eq!(split_python_tag("cp311"), ("cp".to_string(), "311".to_string()));
    assert_eq!(split_python_tag("py3"), ("py".to_string(), "3".to_string()));
    assert_eq!(split_python_tag("pypy"), ("pypy".to_string(), "".to_string()));
    assert_eq!(split_python_tag("27"), ("".to_string(), "27".to_string()));
    assert_eq!(split_python_tag(""), ("".to_string(), "".to_string()));
}

#[test]
fn refuses_text_that_is_no_wheel() {
    assert!(matches!(WheelName::from_filename("not-a-wheel"), Err(Error::InvalidWheelName)));
}

#[test]
fn reads_the_parts_of_a_wheel_name() {
    let wheel = WheelName::from_filename("pkg-1.0-py3-none-any.whl").unwrap();
    assert_eq!(wheel.distribution(), "pkg");
    assert_eq!(wheel.version().normalize(), "1.0");
    assert!(wheel.build_tag.is_none());
    assert_eq!(wheel.compatibility_tag.to_string(), "py3-none-any");
}

#[test]
fn reads_the_build_tag_of_a_wheel_name() {
    let wheel = WheelName::from_filename("pkg-1.0-12b-cp311-cp311-win_amd64.whl").unwrap();
    let build = wheel.build_tag.as_ref().unwrap();
    assert_eq!(build.number, 12);
    assert_eq!(build.string, "b");
    assert_eq!(wheel.compatibility_tag.python_tags(), vec!["cp311"]);
    assert_eq!(wheel.compatibility_tag.platform_tags(), vec!["win_amd64"]);
}

#[test]
fn wheel_name_round_trips() {
    for name in [
        "pkg-1.0-py3-none-any.whl",
        "pkg-1.0-1-py3-none-any.whl",
        "numpy-1.26.4-cp312-cp312-manylinux_2_17_x86_64.manylinux2014_x86_64.whl",
        "my_pkg-2.0.post1-7rc-py2.py3-none-any.whl",
        "x-1!2.3rc1.post4.dev5+local.1-cp39-abi3-win32.whl",
    ] {
        assert_eq!(WheelName::from_filename(name).unwrap().to_string(), name);
    }
}

#[test]
fn wheel_name_is_written_with_the_version_in_normal_form() {
    let wheel = WheelName::from_filename("pkg-1.0RC1-py3-none-any.whl").unwrap();
    assert_eq!(wheel.to_string(), "pkg-1.0rc1-py3-none-any.whl");
    let wheel = WheelName::from_filename("pkg-v1.0-007-py3-none-any.whl").unwrap();
    assert_eq!(wheel.to_string(), "pkg-1.0-7-py3-none-any.whl");
}

#[test]
fn refuses_wheel_names_with_bad_parts() {
    for name in [
        "pkg-1.0-py3-none-any",
        "pkg-1.0-py3-none-any.zip",
        "pkg-1.0-py3-none-any.WHL",
        ".whl",
        "py3-none-any.whl",
        "pkg-py3-none-any.whl",
        "pkg-notaversion-py3-none-any.whl",
        "pkg-1.0-b1-py3-none-any.whl",
        "a-b-1.0-1-py3-none-any.whl",
        "pkg-1.0-cp311-cp311-any.whl",
        "pkg-1.0-py3--any.whl",
        "pkg-1.0-py3-none-.whl",
    ] {
        assert!(
            matches!(WheelName::from_filename(name), Err(Error::InvalidWheelName)),
            "{name:?}"
        );
    }
}

#[test]
fn equal_tags_hash_alike() {
    let mut seen = std::collections::HashSet::new();
    assert!(seen.insert(CompatibilityTag::from_tag("py3-none-any").unwrap()));
    assert!(!seen.insert(CompatibilityTag::from_parts("py3", "none", "any").unwrap()));
    assert!(seen.insert(CompatibilityTag::from_tag("py3-none-win32").unwrap()));
    assert!(seen.insert(CompatibilityTag::from_tag("py3-abi3-win32").unwrap()));
    assert_eq!(seen.len(), 3);
}

#[test]
fn every_tag_with_a_concrete_abi_has_a_concrete_platform() {
    for python in ["py3", "cp311"] {
        for abi in ["none", "abi3", "cp311.abi3"] {
            for platform in ["any", "win32", "linux_x86_64.win32"] {
                match CompatibilityTag::from_parts(python, abi, platform) {
                    Some(tag) => {
                        assert!(tag.for_any_abi() || !tag.for_any_platform());
                        assert_eq!(tag.for_any_abi(), abi == "none");
                        assert_eq!(tag.for_any_platform(), platform == "any");
                        assert_eq!(tag.to_string(), format!("{python}-{abi}-{platform}"));
                    }
                    None => assert!(abi != "none" && platform == "any"),
                }
            }
        }
    }
}

#[test]
fn version_of_a_wheel_is_the_one_that_was_written() {
    let old = WheelName::from_filename("pkg-1.9-py3-none-any.whl").unwrap();
    let new = WheelName::from_filename("pkg-1.10RC1-py3-none-any.whl").unwrap();
    assert!(old.version().at_most(new.version()));
    assert!(!new.version().at_most(old.version()));
    assert_eq!(new.version().normalize(), "1.10rc1");
    let (tag, build) = WheelName::from_filename("pkg-1.0-4x-cp39-abi3-win32.whl").unwrap().into_tags();
    assert_eq!(tag.to_string(), "cp39-abi3-win32");
    assert_eq!(build.unwrap().to_string(), "4x");
}
