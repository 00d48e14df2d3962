use rclog::{ChangelogError, Version};

fn version(major: u64, minor: u64, patch: u64, pre: &str, build: &str) -> Version {
    Version { major, minor, patch, pre: pre.to_string(), build: build.to_string() }
}

#[test]
fn parse_reads_a_release() {
    assert_eq!(Version::parse("1.2.3"), Ok(version(1, 2, 3, "", "")));
    assert_eq!(Version::parse("0.0.0"), Ok(version(0, 0, 0, "", "")));
}

#[test]
fn parse_reads_pre_release_and_build() {
    assert_eq!(
        Version::parse("1.2.3-alpha.1+build.7"),
        Ok(version(1, 2, 3, "alpha.1", "build.7"))
    );
    assert_eq!(Version::parse("0.1.0-alpha.2"), Ok(version(0, 1, 0, "alpha.2", "")));
    assert_eq!(Version::parse("1.0.0+20240102"), Ok(version(1, 0, 0, "", "20240102")));
}

#[test]
fn parse_takes_the_largest_number() {
    assert_eq!(
        Version::parse("18446744073709551615.0.0"),
        Ok(version(u64::MAX, 0, 0, "", ""))
    );
    assert_eq!(Version::parse("18446744073709551616.0.0"), Err(ChangelogError::VersionParse));
}

#[test]
fn parse_rejects_what_is_no_version() {
    for text in ["", "1.2", "1", "v1.2.3", "01.2.3", "1.2.3 ", " 1.2.3", "1.2.3-", "1.2.3+",
        "1.2.3-a..b", "1.2.3-01", "Unreleased", "[0.1.3]", "1.2.3.4", "1.q.r"]
    {
        assert_eq!(Version::parse(text), Err(ChangelogError::VersionParse), "{:?}", text);
    }
}

#[test]
fn parse_agrees_with_semver() {
    for text in ["1.2.3", "0.1.0-alpha.1", "1.0.0-rc.1+build.5", "10.20.30-x-y.z.0+a.b--c", "1.2",
        "nope", "1.0.0-beta+", "2.0.0+001"]
    {
        let ours = Version::parse(text).ok();
        let theirs = semver::Version::parse(text).ok();
        assert_eq!(ours.is_some(), theirs.is_some(), "{:?}", text);
        if let (Some(ours), Some(theirs)) = (ours, theirs) {
            assert_eq!(ours.major, theirs.major);
            assert_eq!(ours.minor, theirs.minor);
            assert_eq!(ours.patch, theirs.patch);
            assert_eq!(ours.pre, theirs.pre.as_str());
            assert_eq!(ours.build, theirs.build.as_str());
        }
    }
}

#[test]
fn same_as_compares_every_field() {
    let base = version(1, 2, 3, "rc.1", "b1");
    assert!(base.same_as(&version(1, 2, 3, "rc.1", "b1")));
    assert!(!base.same_as(&version(2, 2, 3, "rc.1", "b1")));
    assert!(!base.same_as(&version(1, 3, 3, "rc.1", "b1")));
    assert!(!base.same_as(&version(1, 2, 4, "rc.1", "b1")));
    assert!(!base.same_as(&version(1, 2, 3, "rc.2", "b1")));
    assert!(!base.same_as(&version(1, 2, 3, "rc.1", "b2")));
    assert!(!base.same_as(&version(1, 2, 3, "", "")));
}

#[test]
fn a_version_satisfies_its_own_text() {
    for text in ["0.1.0", "1.2.3", "0.0.3", "0.1.0-alpha.2", "1.0.0-rc.1+build.5"] {
        let v = Version::parse(text).unwrap();
        assert_eq!(v.satisfies(text), Ok(true), "{:?}", text);
    }
}

#[test]
fn a_release_satisfies_the_range_of_its_pre_releases() {
    let stable = Version::parse("0.1.0").unwrap();
    assert_eq!(stable.satisfies("0.1.0-alpha.1"), Ok(true));
    assert_eq!(stable.satisfies("0.1.0-alpha.2"), Ok(true));
    let next = Version::parse("0.1.1").unwrap();
    assert_eq!(next.satisfies("0.1.1-alpha.1"), Ok(true));
}

#[test]
fn a_pre_release_does_not_satisfy_the_range_of_its_release() {
    let alpha = Version::parse("0.1.0-alpha.1").unwrap();
    assert_eq!(alpha.satisfies("0.1.0"), Ok(false));
    assert_eq!(alpha.satisfies("0.1.0-alpha.2"), Ok(false));
    let other = Version::parse("1.0.1-alpha").unwrap();
    assert_eq!(other.satisfies("1.0.0"), Ok(false));
    let beta = Version::parse("1.0.0-beta").unwrap();
    assert_eq!(beta.satisfies("1.0.0-alpha"), Ok(true));
}

#[test]
fn a_bare_version_is_read_as_a_compatible_range() {
    assert_eq!(Version::parse("0.1.3").unwrap().satisfies("0.1.0"), Ok(true));
    assert_eq!(Version::parse("0.1.0").unwrap().satisfies("0.1.3"), Ok(false));
    assert_eq!(Version::parse("1.9.0").unwrap().satisfies("1.2.3"), Ok(true));
    assert_eq!(Version::parse("2.0.0").unwrap().satisfies("1.2.3"), Ok(false));
    assert_eq!(Version::parse("0.0.4").unwrap().satisfies("0.0.3"), Ok(false));
    assert_eq!(Version::parse("0.2.0").unwrap().satisfies("0.1.0"), Ok(false));
}

#[test]
fn satisfies_reads_the_range_grammar() {
    let v = Version::parse("1.5.0").unwrap();
    assert_eq!(v.satisfies(">=1.0, <2"), Ok(true));
    assert_eq!(v.satisfies("<1.5.0"), Ok(false));
    assert_eq!(v.satisfies("=1.5.0"), Ok(true));
    assert_eq!(v.satisfies("~1.4"), Ok(false));
    assert_eq!(v.satisfies("*"), Ok(true));
    assert_eq!(v.satisfies("1.5.0+ignored"), Ok(true));
}

#[test]
fn satisfies_rejects_an_invalid_range() {
    let v = Version::parse("1.0.0").unwrap();
    for range in ["", "not a range", "1.0.0 - 2024-01-02", "[1.0.0]", ">=", "1.0.0,"] {
        assert_eq!(v.satisfies(range), Err(ChangelogError::RangeParse), "{:?}", range);
    }
}

#[test]
fn satisfies_rejects_a_version_that_semver_cannot_hold() {
    assert_eq!(version(1, 0, 0, "not valid!", "").satisfies("1.0.0"), Err(ChangelogError::RangeParse));
    assert_eq!(version(1, 0, 0, "", "a b").satisfies("1.0.0"), Err(ChangelogError::RangeParse));
    assert_eq!(version(1, 0, 0, "01", "").satisfies("1.0.0"), Err(ChangelogError::RangeParse));
}

#[test]
fn satisfies_agrees_with_semver() {
    let versions = ["0.1.0", "0.1.0-alpha.1", "0.1.3", "1.0.0", "1.0.0-rc.1", "1.2.3+b", "2.0.0"];
    let ranges = ["0.1.0", "0.1.0-alpha.1", "0.1.3", "1.0.0", "1.0.0-rc.1", "^1", "~0.1", ">0.1.0-alpha.1", "x"];
    for v in versions {
        for r in ranges {
            let ours = Version::parse(v).unwrap().satisfies(r);
            let theirs = semver::VersionReq::parse(r)
                .map(|req| req.matches(&semver::Version::parse(v).unwrap()))
                .map_err(|_| ChangelogError::RangeParse);
            assert_eq!(ours, theirs, "{:?} in {:?}", v, r);
        }
    }
}
