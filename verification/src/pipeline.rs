//! The whole computation, from the inputs of one run to its tag string.

use vstd::prelude::*;
use vstd::string::*;
use crate::refs::version_candidate;
use crate::tags::{generate_tags, tag_string};
use crate::text::texts;
use crate::version::{create_versions, text_labels, versions_for, VersionError};

verus! {

/// The inputs of one run.
#[derive(Debug)]
pub struct Input {
    /// Who started the run. It plays no part in the tags.
    pub actor: String,
    /// The repository name, used as it stands.
    pub repository: String,
    /// The reference under build.
    pub git_ref: String,
    /// The registries to publish to, in order; possibly none.
    pub registries: Vec<String>,
}

/// The tag string of a run, or the rejected version candidate.
pub open spec fn tags_for(
    repository: Seq<char>,
    reference: Seq<char>,
    registries: Seq<Seq<char>>,
) -> Result<Seq<char>, Seq<char>> {
    match versions_for(reference) {
        Ok(versions) => Ok(tag_string(repository, versions, registries)),
        Err(rejected) => Err(rejected),
    }
}

/// What a run returned, as plain sequences.
pub open spec fn tags_outcome(tags: Result<String, VersionError>) -> Result<Seq<char>, Seq<char>> {
    match tags {
        Ok(text) => Ok(text@),
        Err(error) => Err(error.rejected()),
    }
}

/// Computes the tag string of a run: the version list of the reference,
/// crossed with the registries. A rejected version candidate ends the run
/// with the error, and no tag is produced. For a tag reference that is
/// accepted, the labels in the tags are those that the candidate's own text
/// stands for.
pub fn compute_tags(input: &Input) -> (tags: Result<String, VersionError>)
    ensures
        tags_outcome(tags) == tags_for(
            input.repository@,
            input.git_ref@,
            texts(input.registries@),
        ),
        tags matches Ok(text) ==> (version_candidate(input.git_ref@) matches Some(candidate)
            ==> text@ == tag_string(
            input.repository@,
            text_labels(candidate),
            texts(input.registries@),
        )),
{
    match create_versions(input.git_ref.as_str()) {
        Ok(versions) => Ok(
            generate_tags(input.repository.as_str(), versions, input.registries.as_slice()),
        ),
        Err(error) => Err(error),
    }
}

/// Two runs on the same inputs return the same tag string, character for
/// character, or reject the same text.
pub proof fn lemma_compute_tags_repeats(
    input: &Input,
    first: Result<String, VersionError>,
    second: Result<String, VersionError>,
)
    requires
        call_ensures(compute_tags, (input,), first),
        call_ensures(compute_tags, (input,), second),
    ensures
        tags_outcome(first) == tags_outcome(second),
{
}

} // verus!
