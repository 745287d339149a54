use app_update::Version;

fn version(pre: &str, build: &str) -> Version {
    Version::with_labels(1, 0, 0, pre, build).unwrap()
}

fn older(a: &Version, b: &Version) -> bool {
    a.is_at_most(b) && !b.is_at_most(a)
}

#[test]
fn numbers_are_compared_as_numbers() {
    assert!(older(&Version::new(1, 9, 9), &Version::new(1, 10, 0)));
    assert!(older(&Version::new(1, 9, 9), &Version::new(2, 0, 0)));
    assert!(older(&Version::new(1, 0, 2), &Version::new(1, 0, 10)));
    assert!(Version::new(1, 2, 3).is_at_most(&Version::new(1, 2, 3)));
}

#[test]
fn a_prerelease_comes_before_its_release() {
    let order = [
        version("alpha", ""),
        version("alpha.1", ""),
        version("alpha.beta", ""),
        version("beta", ""),
        version("beta.2", ""),
        version("beta.11", ""),
        version("rc.1", ""),
        version("", ""),
    ];
    for i in 0..order.len() {
        for j in 0..order.len() {
            assert_eq!(order[i].is_at_most(&order[j]), i <= j);
        }
    }
}

#[test]
fn build_metadata_decides_last() {
    let order = [
        version("", ""),
        version("", "0"),
        version("", "00"),
        version("", "1"),
        version("", "01"),
        version("", "10"),
        version("", "a"),
        version("", "a.0"),
        version("", "b"),
    ];
    for i in 0..order.len() {
        for j in 0..order.len() {
            assert_eq!(order[i].is_at_most(&order[j]), i <= j);
        }
    }
    assert!(older(&version("alpha", "9"), &version("beta", "1")));
}

#[test]
fn labels_are_checked() {
    for pre in ["", "alpha", "alpha.1", "0", "a-b.0a", "x--"] {
        assert!(Version::with_labels(1, 2, 3, pre, "").is_some());
    }
    for pre in ["01", "a..b", ".", "a.", "a_b", "1.00", "\u{e9}"] {
        assert!(Version::with_labels(1, 2, 3, pre, "").is_none());
    }
    for build in ["", "001", "a.00", "exp-1"] {
        assert!(Version::with_labels(1, 2, 3, "", build).is_some());
    }
    for build in ["a..b", "+", "a b", "."] {
        assert!(Version::with_labels(1, 2, 3, "", build).is_none());
    }
}

#[test]
fn versions_are_written_in_the_usual_way() {
    assert_eq!(Version::new(0, 10, 205).to_text(), "0.10.205");
    assert_eq!(version("alpha.1", "").to_text(), "1.0.0-alpha.1");
    assert_eq!(version("", "b7").to_text(), "1.0.0+b7");
    assert_eq!(version("rc", "b7").to_text(), "1.0.0-rc+b7");
    assert_eq!(Version::new(u64::MAX, 0, 0).to_text(), "18446744073709551615.0.0");
}

#[test]
fn a_version_has_its_parts() {
    let version = Version::with_labels(4, 5, 6, "rc.1", "b").unwrap();
    assert_eq!((version.major(), version.minor(), version.patch()), (4, 5, 6));
    assert_eq!(version.pre(), "rc.1");
    assert_eq!(version.build(), "b");
    assert_eq!(version.clone(), version);
}
