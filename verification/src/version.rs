use crate::error::ChangelogError;
use vstd::prelude::*;

verus! {

/// A semantic version, field by field.
#[derive(Clone, Debug, PartialEq, Eq)]
pub struct Version {
    pub major: u64,
    pub minor: u64,
    pub patch: u64,
    /// The pre-release identifiers without the leading `-`; empty for a release.
    pub pre: String,
    /// The build metadata without the leading `+`; empty where there is none.
    pub build: String,
}

/// The mathematical value of a [`Version`].
pub struct VersionModel {
    pub major: u64,
    pub minor: u64,
    pub patch: u64,
    pub pre: Seq<char>,
    pub build: Seq<char>,
}

impl View for Version {
    type V = VersionModel;

    open spec fn view(&self) -> VersionModel {
        VersionModel {
            major: self.major,
            minor: self.minor,
            patch: self.patch,
            pre: self.pre@,
            build: self.build@,
        }
    }
}

/// The version that the `semver` crate reads from a text, `None` where it rejects the text.
pub uninterp spec fn semver_version(text: Seq<char>) -> Option<VersionModel>;

/// Whether the `semver` crate finds that a version satisfies a requirement, given as text;
/// `None` where the requirement does not parse, or where the version's pre-release or build
/// text is not one that the crate accepts.
pub uninterp spec fn semver_admits(range: Seq<char>, version: VersionModel) -> Option<bool>;

/// Calls `semver::Version::parse` and copies the five fields of the version that it returns,
/// the pre-release and the build metadata as the text that `as_str` gives. Trusted: that the
/// outcome depends on the text alone, which is what giving it the name `semver_version`
/// says. Nothing is claimed of which texts are versions.
#[verifier::external_body]
pub(crate) fn parse_semver(text: &str) -> (r: Option<Version>)
    ensures
        match r {
            Some(version) => semver_version(text@) == Some(version@),
            None => semver_version(text@) is None,
        },
{
    let parsed = semver::Version::parse(text).ok()?;
    Some(
        Version {
            major: parsed.major,
            minor: parsed.minor,
            patch: parsed.patch,
            pre: parsed.pre.as_str().to_owned(),
            build: parsed.build.as_str().to_owned(),
        },
    )
}

/// Calls `semver::VersionReq::parse` on `range`, rebuilds a `semver::Version` from the five
/// fields with `semver::Prerelease::new` and `semver::BuildMetadata::new`, and calls
/// `semver::VersionReq::matches` on the two; `None` where one of the three parsers reports an
/// error. Trusted: that the outcome depends on the range and the fields alone, which is what
/// giving it the name `semver_admits` says. Nothing is claimed of which versions a range
/// admits.
#[verifier::external_body]
pub(crate) fn admits_semver(range: &str, version: &Version) -> (r: Option<bool>)
    ensures
        r == semver_admits(range@, version@),
{
    let requirement = semver::VersionReq::parse(range).ok()?;
    let version = semver::Version {
        major: version.major,
        minor: version.minor,
        patch: version.patch,
        pre: semver::Prerelease::new(version.pre.as_str()).ok()?,
        build: semver::BuildMetadata::new(version.build.as_str()).ok()?,
    };
    Some(requirement.matches(&version))
}

impl Version {
    /// Reads a semantic version in the strict syntax: three numbers, then the pre-release
    /// identifiers and the build metadata where there are any.
    pub fn parse(text: &str) -> (r: Result<Version, ChangelogError>)
        ensures
            match r {
                Ok(version) => semver_version(text@) == Some(version@),
                Err(e) => e == ChangelogError::VersionParse && semver_version(text@) is None,
            },
    {
        match parse_semver(text) {
            Some(version) => Ok(version),
            None => Err(ChangelogError::VersionParse),
        }
    }

    /// Whether this version satisfies a range expression, such as `>=1.2.3, <1.8`; a bare
    /// version stands for the versions compatible with it. Fails where the range expression
    /// is not a valid one, and where the pre-release or build text of this version is not.
    pub fn satisfies(&self, range: &str) -> (r: Result<bool, ChangelogError>)
        ensures
            match r {
                Ok(admitted) => semver_admits(range@, self@) == Some(admitted),
                Err(e) => e == ChangelogError::RangeParse && semver_admits(range@, self@) is None,
            },
    {
        match admits_semver(range, self) {
            Some(admitted) => Ok(admitted),
            None => Err(ChangelogError::RangeParse),
        }
    }

    /// Whether two versions agree in every field.
    pub fn same_as(&self, other: &Version) -> (r: bool)
        ensures
            r == (self@ == other@),
    {
        self.major == other.major && self.minor == other.minor && self.patch == other.patch
            && self.pre == other.pre && self.build == other.build
    }
}

} // verus!
