//! Expansion of a reference into the version labels to tag an image with.

use vstd::prelude::*;
use vstd::string::*;
use crate::refs::{
    branch_marker, extract_version, is_main_branch, is_main_branch_ref, is_tag_ref,
    version_candidate,
};
use crate::text::{
    before_first, decimal, decimal_string, is_digit, lemma_before_first_absent,
    lemma_before_first_cut, lemma_decimal_digits, texts,
};

verus! {

/// A semantic version, held as plain values.
///
/// The three numbers are always present. An empty `pre` means that the
/// version has no pre-release label, an empty `build` that it has no build
/// metadata.
#[derive(Debug)]
pub struct SemanticVersion {
    pub major: u64,
    pub minor: u64,
    pub patch: u64,
    pub pre: String,
    pub build: String,
}

/// The mathematical value of a [`SemanticVersion`].
pub struct VersionModel {
    pub major: nat,
    pub minor: nat,
    pub patch: nat,
    pub pre: Seq<char>,
    pub build: Seq<char>,
}

impl View for SemanticVersion {
    type V = VersionModel;

    open spec fn view(&self) -> VersionModel {
        VersionModel {
            major: self.major as nat,
            minor: self.minor as nat,
            patch: self.patch as nat,
            pre: self.pre@,
            build: self.build@,
        }
    }
}

/// Why a reference has no version list.
#[derive(Debug)]
pub enum VersionError {
    /// The version candidate of a tag reference is no semantic version. The
    /// candidate is carried along.
    InvalidSemver(String),
}

impl VersionError {
    /// The text that was rejected.
    pub open spec fn rejected(&self) -> Seq<char> {
        match self {
            VersionError::InvalidSemver(text) => text@,
        }
    }

    /// A sentence for the user that names the rejected text.
    pub fn message(&self) -> (text: String)
        ensures
            text@ == "failed parsing semantic version: "@ + self.rejected(),
    {
        match self {
            VersionError::InvalidSemver(rejected) => {
                let mut text = String::from_str("failed parsing semantic version: ");
                text.append(rejected.as_str());
                text
            },
        }
    }
}

/// `major.minor`.
pub open spec fn minor_label(v: VersionModel) -> Seq<char> {
    decimal(v.major) + seq!['.'] + decimal(v.minor)
}

/// `major.minor.patch`.
pub open spec fn patch_label(v: VersionModel) -> Seq<char> {
    minor_label(v) + seq!['.'] + decimal(v.patch)
}

/// `major.minor.patch-pre`.
pub open spec fn prerelease_label(v: VersionModel) -> Seq<char> {
    patch_label(v) + seq!['-'] + v.pre
}

/// The version spelled out in full: the three numbers, then the pre-release
/// label behind a hyphen and the build metadata behind a plus sign, each only
/// if it is there.
pub open spec fn full_text(v: VersionModel) -> Seq<char> {
    let numbers = if v.pre.len() == 0 {
        patch_label(v)
    } else {
        prerelease_label(v)
    };
    if v.build.len() == 0 {
        numbers
    } else {
        numbers + seq!['+'] + v.build
    }
}

/// The labels of one version. A release gets three, from the coarsest to the
/// finest; a pre-release gets one, with its pre-release label. Build metadata
/// appears in none of them.
pub open spec fn version_labels(v: VersionModel) -> Seq<Seq<char>> {
    if v.pre.len() == 0 {
        seq![decimal(v.major), minor_label(v), patch_label(v)]
    } else {
        seq![prerelease_label(v)]
    }
}

/// Whether `c` may stand in a pre-release label: an ASCII letter or digit,
/// a hyphen, or the dot between two identifiers.
pub open spec fn is_label_char(c: char) -> bool {
    ('0' <= c && c <= '9') || ('A' <= c && c <= 'Z') || ('a' <= c && c <= 'z') || c == '-' || c
        == '.'
}

/// Whether `s` holds label characters only.
pub open spec fn is_label_text(s: Seq<char>) -> bool {
    forall|i: int| 0 <= i < s.len() ==> is_label_char(#[trigger] s[i])
}

/// Whether `s` holds digits and dots only.
pub open spec fn is_dotted_number(s: Seq<char>) -> bool {
    forall|i: int| 0 <= i < s.len() ==> is_digit(#[trigger] s[i]) || s[i] == '.'
}

/// The labels that the text of a semantic version stands for, read off the
/// text itself.
///
/// Build metadata, which begins at the first plus sign, is cut off. What is
/// left is the only label if it holds a hyphen, which begins a pre-release
/// label. Otherwise it is `major.minor.patch`, and the labels are its cuts
/// before the first dot and before the second, and itself.
pub open spec fn text_labels(text: Seq<char>) -> Seq<Seq<char>> {
    let version = before_first(text, '+');
    if version.contains('-') {
        seq![version]
    } else {
        let major = before_first(version, '.');
        let minor = before_first(version.skip(major.len() as int + 1), '.');
        seq![major, major + seq!['.'] + minor, version]
    }
}

/// What `semver::Version::parse` makes of `text`: the parsed version, or
/// nothing where it reports an error.
pub uninterp spec fn semver_parse(text: Seq<char>) -> Option<VersionModel>;

/// The version list of a parsed candidate: the labels of the version, or the
/// candidate as rejected where it did not parse.
pub open spec fn candidate_versions(
    candidate: Seq<char>,
    parsed: Option<VersionModel>,
) -> Result<Seq<Seq<char>>, Seq<char>> {
    match parsed {
        Some(v) => Ok(version_labels(v)),
        None => Err(candidate),
    }
}

/// The version list of a reference, or the rejected candidate.
///
/// A reference with a version candidate gets the labels of the version that
/// the candidate parses to, and is rejected if it does not parse. Without a
/// candidate, a main-branch reference gets `latest` and any other reference
/// gets nothing.
pub open spec fn versions_for(reference: Seq<char>) -> Result<Seq<Seq<char>>, Seq<char>> {
    match version_candidate(reference) {
        Some(candidate) => candidate_versions(candidate, semver_parse(candidate)),
        None => if is_main_branch(reference) {
            Ok(seq!["latest"@])
        } else {
            Ok(Seq::empty())
        },
    }
}

/// What a version list computation returned, as plain sequences.
pub open spec fn versions_outcome(versions: Result<Vec<String>, VersionError>) -> Result<
    Seq<Seq<char>>,
    Seq<char>,
> {
    match versions {
        Ok(labels) => Ok(texts(labels@)),
        Err(error) => Err(error.rejected()),
    }
}

/// What the parser returned, as a plain value.
pub open spec fn parse_outcome(parsed: Result<SemanticVersion, semver::Error>) -> Option<
    VersionModel,
> {
    match parsed {
        Ok(version) => Some(version@),
        Err(_) => None,
    }
}

/// The error of the `semver` crate, `semver::Error`. Nothing of it is read
/// here: it only tells that a text did not parse.
#[verifier::external_type_specification]
#[verifier::external_body]
pub struct ExSemverError(semver::Error);

/// Parses `text` with `semver::Version::parse` and hands the fields of the
/// parsed version over as plain values.
///
/// Trusted, not proved:
/// - The outcome is `semver_parse` of the text, so the same text always
///   parses alike.
/// - A parsed version, spelled out in full, is the text again. The parser
///   takes numbers without leading zeros only, a hyphen or a plus sign only
///   before a non-empty label, and nothing behind the last part.
/// - A pre-release label holds ASCII letters, digits, hyphens and dots only.
#[verifier::external_body]
fn parse_semver(text: &str) -> (parsed: Result<SemanticVersion, semver::Error>)
    ensures
        parse_outcome(parsed) == semver_parse(text@),
        parsed matches Ok(version) ==> full_text(version@) == text@,
        parsed matches Ok(version) ==> is_label_text(version.pre@),
{
    match semver::Version::parse(text) {
        Ok(v) => Ok(
            SemanticVersion {
                major: v.major,
                minor: v.minor,
                patch: v.patch,
                pre: v.pre.as_str().to_owned(),
                build: v.build.as_str().to_owned(),
            },
        ),
        Err(error) => Err(error),
    }
}

/// `major.minor.patch` holds digits and dots only.
pub proof fn lemma_patch_label_chars(v: VersionModel)
    ensures
        is_dotted_number(patch_label(v)),
        !patch_label(v).contains('-'),
        !patch_label(v).contains('+'),
{
    lemma_decimal_digits(v.major);
    lemma_decimal_digits(v.minor);
    lemma_decimal_digits(v.patch);
    let label = patch_label(v);
    assert forall|i: int| 0 <= i < label.len() implies is_digit(#[trigger] label[i]) || label[i]
        == '.' by {
        let major = decimal(v.major);
        let minor = decimal(v.minor);
        if i < major.len() {
            assert(label[i] == major[i]);
        } else if i == major.len() {
        } else if i < major.len() + 1 + minor.len() {
            assert(label[i] == minor[i - major.len() - 1]);
        } else if i == major.len() + 1 + minor.len() {
        } else {
            assert(label[i] == decimal(v.patch)[i - major.len() - minor.len() - 2]);
        }
    }
}

/// The labels of a version can be read off its full text: they are the same
/// for every build metadata, and a pre-release label shows by its hyphen.
pub proof fn lemma_labels_from_full_text(v: VersionModel)
    requires
        is_label_text(v.pre),
    ensures
        version_labels(v) == text_labels(full_text(v)),
{
    lemma_patch_label_chars(v);
    lemma_decimal_digits(v.major);
    lemma_decimal_digits(v.minor);
    lemma_decimal_digits(v.patch);
    let major = decimal(v.major);
    let minor = decimal(v.minor);
    let patch = decimal(v.patch);
    let numbers = patch_label(v);
    let version = if v.pre.len() == 0 {
        numbers
    } else {
        prerelease_label(v)
    };
    assert(!version.contains('+')) by {
        if version.contains('+') {
            let i = choose|i: int| 0 <= i < version.len() && version[i] == '+';
            if i < numbers.len() {
                assert(version[i] == numbers[i]);
            } else if i > numbers.len() {
                assert(version[i] == v.pre[i - numbers.len() - 1]);
            }
        }
    }
    assert(before_first(full_text(v), '+') == version) by {
        if v.build.len() == 0 {
            lemma_before_first_absent(version, '+');
        } else {
            lemma_before_first_cut(version, '+', v.build);
        }
    }
    if v.pre.len() == 0 {
        assert(!major.contains('.')) by {
            if major.contains('.') {
                let i = choose|i: int| 0 <= i < major.len() && major[i] == '.';
                assert(is_digit(major[i]));
            }
        }
        assert(!minor.contains('.')) by {
            if minor.contains('.') {
                let i = choose|i: int| 0 <= i < minor.len() && minor[i] == '.';
                assert(is_digit(minor[i]));
            }
        }
        let rest = minor + seq!['.'] + patch;
        assert(version =~= major + seq!['.'] + rest);
        lemma_before_first_cut(major, '.', rest);
        assert(version.skip(major.len() as int + 1) =~= rest);
        lemma_before_first_cut(minor, '.', patch);
    } else {
        assert(version[numbers.len() as int] == '-');
    }
}

/// A branch reference is no tag reference and has no version candidate. The
/// two main-branch references are branch references with the list `latest`;
/// every other branch reference has the empty list.
pub proof fn lemma_branch_versions(reference: Seq<char>)
    ensures
        branch_marker().is_prefix_of(reference) ==> !is_tag_ref(reference),
        is_main_branch(reference) ==> branch_marker().is_prefix_of(reference),
        is_main_branch(reference) ==> versions_for(reference) == Ok::<
            Seq<Seq<char>>,
            Seq<char>,
        >(seq!["latest"@]),
        branch_marker().is_prefix_of(reference) && !is_main_branch(reference) ==> versions_for(
            reference,
        ) == Ok::<Seq<Seq<char>>, Seq<char>>(Seq::empty()),
{
    reveal_strlit("refs/tags/");
    reveal_strlit("refs/heads/");
    reveal_strlit("refs/heads/main");
    reveal_strlit("refs/heads/master");
    if branch_marker().is_prefix_of(reference) && is_tag_ref(reference) {
        assert(reference[5] == branch_marker()[5]);
    }
    if is_main_branch(reference) {
        assert(branch_marker() =~= reference.subrange(0, 11));
    }
}

/// A version list is empty or holds one label or three.
pub proof fn lemma_version_list_shape(reference: Seq<char>)
    ensures
        versions_for(reference) matches Ok(labels) ==> labels.len() == 0 || labels.len() == 1
            || labels.len() == 3,
{
}

/// Lists the labels to tag a version with.
pub fn expand_version(version: &SemanticVersion) -> (labels: Vec<String>)
    ensures
        texts(labels@) == version_labels(version@),
{
    proof {
        reveal_strlit(".");
        reveal_strlit("-");
        assert("."@ =~= seq!['.']);
        assert("-"@ =~= seq!['-']);
    }
    let major = decimal_string(version.major);
    let mut minor = major.clone();
    minor.append(".");
    minor.append(decimal_string(version.minor).as_str());
    let mut patch = minor.clone();
    patch.append(".");
    patch.append(decimal_string(version.patch).as_str());
    let mut labels: Vec<String> = Vec::new();
    if version.pre.as_str().is_empty() {
        labels.push(major);
        labels.push(minor);
        labels.push(patch);
    } else {
        patch.append("-");
        patch.append(version.pre.as_str());
        labels.push(patch);
    }
    assert(texts(labels@) =~= version_labels(version@));
    labels
}

/// Turns the parser's answer on a version candidate into the version list:
/// the labels of a parsed version, `InvalidSemver` with the candidate for an
/// error.
pub fn versions_of_parsed(
    candidate: &str,
    parsed: Result<SemanticVersion, semver::Error>,
) -> (versions: Result<Vec<String>, VersionError>)
    ensures
        versions_outcome(versions) == candidate_versions(candidate@, parse_outcome(parsed)),
{
    match parsed {
        Ok(version) => Ok(expand_version(&version)),
        Err(_) => Err(VersionError::InvalidSemver(candidate.to_owned())),
    }
}

/// Creates the version list of a reference.
///
/// A tag reference with a version candidate yields the labels of the parsed
/// candidate, or `InvalidSemver` with the candidate if it is no semantic
/// version. The labels are those that the candidate's own text stands for:
/// its build metadata is cut off, a pre-release is kept as it is written,
/// and a release is listed as `major`, `major.minor`, `major.minor.patch`.
/// `refs/heads/main` and `refs/heads/master` yield `latest`. Every other
/// reference yields an empty list, which is no error.
pub fn create_versions(git_ref: &str) -> (versions: Result<Vec<String>, VersionError>)
    ensures
        versions_outcome(versions) == versions_for(git_ref@),
        is_main_branch(git_ref@) ==> versions_outcome(versions) == Ok::<
            Seq<Seq<char>>,
            Seq<char>,
        >(seq!["latest"@]),
        branch_marker().is_prefix_of(git_ref@) && !is_main_branch(git_ref@) ==> versions_outcome(
            versions,
        ) == Ok::<Seq<Seq<char>>, Seq<char>>(Seq::empty()),
        versions matches Ok(labels) ==> (version_candidate(git_ref@) matches Some(candidate)
            ==> texts(labels@) == text_labels(candidate)),
{
    proof {
        lemma_branch_versions(git_ref@);
    }
    match extract_version(git_ref) {
        Some(candidate) => {
            let parsed = parse_semver(candidate);
            proof {
                if parsed is Ok {
                    lemma_labels_from_full_text(parsed->Ok_0@);
                }
            }
            versions_of_parsed(candidate, parsed)
        },
        None => {
            let mut labels: Vec<String> = Vec::new();
            if is_main_branch_ref(git_ref) {
                labels.push(String::from_str("latest"));
                assert(texts(labels@) =~= seq!["latest"@]);
            } else {
                assert(texts(labels@) =~= Seq::<Seq<char>>::empty());
            }
            Ok(labels)
        },
    }
}

/// Two runs of `create_versions` on one reference return the same list or
/// reject the same text.
pub proof fn lemma_create_versions_repeats(
    git_ref: &str,
    first: Result<Vec<String>, VersionError>,
    second: Result<Vec<String>, VersionError>,
)
    requires
        call_ensures(create_versions, (git_ref,), first),
        call_ensures(create_versions, (git_ref,), second),
    ensures
        versions_outcome(first) == versions_outcome(second),
{
}

} // verus!
