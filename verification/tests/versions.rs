use docker_tags::version::versions_of_parsed;
use docker_tags::{expand_version, SemanticVersion, VersionError};

fn owned(labels: &[&str]) -> Vec<String> {
    labels.iter().map(|label| (*label).to_owned()).collect()
}

fn version(major: u64, minor: u64, patch: u64, pre: &str, build: &str) -> SemanticVersion {
    SemanticVersion { major, minor, patch, pre: pre.to_owned(), build: build.to_owned() }
}

#[test]
fn create_versions() {
    assert_eq!(
        vec!["latest".to_owned()],
        docker_tags::create_versions("refs/heads/main").unwrap()
    );
    assert_eq!(
        vec!["latest".to_owned()],
        docker_tags::create_versions("refs/heads/master").unwrap()
    );
    assert_eq!(
        Vec::<String>::new(),
        docker_tags::create_versions("refs/heads/something").unwrap()
    );
    assert_eq!(
        vec!["1".to_owned(), "1.2".to_owned(), "1.2.3".to_owned()],
        docker_tags::create_versions("refs/tags/v1.2.3").unwrap()
    );
    assert_eq!(
        vec!["1.2.3-pre".to_owned()],
        docker_tags::create_versions("refs/tags/v1.2.3-pre").unwrap()
    );
    assert_eq!(
        vec!["1".to_owned(), "1.0".to_owned(), "1.0.0".to_owned()],
        docker_tags::create_versions("refs/tags/v1.0.0+abc").unwrap()
    );
    assert!(docker_tags::create_versions("refs/tags/v1a").is_err());
}

#[test]
fn invalid_semver_carries_the_candidate() {
    match docker_tags::create_versions("refs/tags/v1a") {
        Err(VersionError::InvalidSemver(text)) => assert_eq!("1a", text),
        Ok(labels) => panic!("accepted as {:?}", labels),
    }
    match docker_tags::create_versions("refs/tags/release-1.2") {
        Err(VersionError::InvalidSemver(text)) => assert_eq!("1.2", text),
        Ok(labels) => panic!("accepted as {:?}", labels),
    }
}

#[test]
fn invalid_semver_message_names_the_candidate() {
    let error = docker_tags::create_versions("refs/tags/v01.0.0").unwrap_err();
    assert_eq!("failed parsing semantic version: 01.0.0", error.message());
}

#[test]
fn leading_zero_is_rejected() {
    assert!(docker_tags::create_versions("refs/tags/v1.02.3").is_err());
    assert!(docker_tags::create_versions("refs/tags/v1.2.3-01").is_err());
}

#[test]
fn incomplete_or_overlong_versions_are_rejected() {
    assert!(docker_tags::create_versions("refs/tags/v1").is_err());
    assert!(docker_tags::create_versions("refs/tags/v1.2").is_err());
    assert!(docker_tags::create_versions("refs/tags/v1.2.3.4").is_err());
    assert!(docker_tags::create_versions("refs/tags/v1.2.3-").is_err());
    assert!(docker_tags::create_versions("refs/tags/v1.2.3+").is_err());
    assert!(docker_tags::create_versions("refs/tags/v1.2.3 ").is_err());
    assert!(docker_tags::create_versions("refs/tags/18446744073709551616.0.0").is_err());
}

#[test]
fn prerelease_keeps_label_and_drops_build_metadata() {
    assert_eq!(
        owned(&["1.2.3-pre"]),
        docker_tags::create_versions("refs/tags/v1.2.3-pre+abc").unwrap()
    );
    assert_eq!(
        owned(&["0.7.0-alpha.1"]),
        docker_tags::create_versions("refs/tags/0.7.0-alpha.1").unwrap()
    );
    assert_eq!(
        owned(&["2.0.0-rc-1.x"]),
        docker_tags::create_versions("refs/tags/app-2.0.0-rc-1.x+sha.5114f85").unwrap()
    );
}

#[test]
fn release_labels_run_from_coarse_to_fine() {
    assert_eq!(
        owned(&["10", "10.20", "10.20.30"]),
        docker_tags::create_versions("refs/tags/v10.20.30").unwrap()
    );
    assert_eq!(
        owned(&["0", "0.0", "0.0.0"]),
        docker_tags::create_versions("refs/tags/0.0.0").unwrap()
    );
    assert_eq!(
        owned(&["18446744073709551615", "18446744073709551615.0", "18446744073709551615.0.1"]),
        docker_tags::create_versions("refs/tags/v18446744073709551615.0.1").unwrap()
    );
}

#[test]
fn letters_before_the_number_are_dropped() {
    assert_eq!(
        owned(&["2", "2.1", "2.1.0"]),
        docker_tags::create_versions("refs/tags/release-2.1.0").unwrap()
    );
}

fn cuts(candidate: &str) -> Vec<String> {
    let version = candidate.split('+').next().unwrap();
    if version.contains('-') {
        return vec![version.to_owned()];
    }
    let major = version.split('.').next().unwrap();
    let minor = version[major.len() + 1..].split('.').next().unwrap();
    vec![major.to_owned(), format!("{}.{}", major, minor), version.to_owned()]
}

#[test]
fn labels_are_cuts_of_the_candidate() {
    for git_ref in [
        "refs/tags/v1.2.3",
        "refs/tags/v1.2.3-pre",
        "refs/tags/v4.5.6-a.b+c",
        "refs/tags/x7.8.9+build-1.2",
        "refs/tags/0.10.200+a.b-c",
        "refs/tags/11.0.0-0.3.7",
        "refs/tags/1.0.0-x-y-z.--+-",
    ] {
        let candidate = docker_tags::extract_version(git_ref).unwrap();
        let labels = docker_tags::create_versions(git_ref).unwrap();
        assert_eq!(cuts(candidate), labels, "{}", git_ref);
        for label in labels {
            assert!(candidate.starts_with(label.as_str()), "{} in {}", label, candidate);
        }
    }
}

#[test]
fn references_without_candidate_or_main_branch_give_nothing() {
    for git_ref in [
        "",
        "main",
        "refs/heads/",
        "refs/heads/Main",
        "refs/heads/main ",
        "refs/heads/mainline",
        "refs/heads/feature/1.2.3",
        "refs/pull/12/merge",
        "refs/tags/",
        "refs/tags/latest",
        "refs/Tags/v1.2.3",
    ] {
        assert_eq!(Vec::<String>::new(), docker_tags::create_versions(git_ref).unwrap(), "{}", git_ref);
    }
}

#[test]
fn expand_version_of_a_release() {
    assert_eq!(owned(&["1", "1.2", "1.2.3"]), expand_version(&version(1, 2, 3, "", "")));
    assert_eq!(owned(&["1", "1.0", "1.0.0"]), expand_version(&version(1, 0, 0, "", "abc")));
}

#[test]
fn expand_version_of_a_prerelease() {
    assert_eq!(owned(&["1.2.3-pre"]), expand_version(&version(1, 2, 3, "pre", "")));
    assert_eq!(owned(&["3.0.10-beta.2"]), expand_version(&version(3, 0, 10, "beta.2", "exp.sha")));
}

#[test]
fn versions_of_parsed_maps_both_answers() {
    let parsed = Ok(version(4, 5, 6, "", ""));
    assert_eq!(owned(&["4", "4.5", "4.5.6"]), versions_of_parsed("ignored", parsed).unwrap());
    let refused = Err(semver::Version::parse("1a").unwrap_err());
    match versions_of_parsed("1a", refused) {
        Err(VersionError::InvalidSemver(text)) => assert_eq!("1a", text),
        Ok(labels) => panic!("accepted as {:?}", labels),
    }
}

#[test]
fn create_versions_repeats() {
    for git_ref in ["refs/heads/main", "refs/heads/dev", "refs/tags/v1.2.3", "refs/tags/v1.2.3-pre"] {
        assert_eq!(
            docker_tags::create_versions(git_ref).unwrap(),
            docker_tags::create_versions(git_ref).unwrap()
        );
    }
    let first = docker_tags::create_versions("refs/tags/v1a").unwrap_err().message();
    let second = docker_tags::create_versions("refs/tags/v1a").unwrap_err().message();
    assert_eq!(first, second);
}

#[test]
fn parser_spells_versions_as_they_are_written() {
    for text in [
        "0.0.0",
        "1.2.3",
        "10.20.30-alpha.1",
        "1.0.0+build.5",
        "1.0.0-rc-1+sha.5114f85",
        "1.0.0-0.x.7z+-.-",
        "18446744073709551615.18446744073709551615.18446744073709551615",
    ] {
        let parsed = semver::Version::parse(text).unwrap();
        let mut spelled = format!("{}.{}.{}", parsed.major, parsed.minor, parsed.patch);
        if !parsed.pre.is_empty() {
            spelled.push('-');
            spelled.push_str(parsed.pre.as_str());
        }
        if !parsed.build.is_empty() {
            spelled.push('+');
            spelled.push_str(parsed.build.as_str());
        }
        assert_eq!(text, spelled);
        assert!(parsed
            .pre
            .as_str()
            .chars()
            .all(|c| c.is_ascii_alphanumeric() || c == '-' || c == '.'));
    }
}
