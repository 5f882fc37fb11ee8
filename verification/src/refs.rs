//! Classification of a source-control reference: tag references carry a
//! version candidate, the main branches stand for the newest build.

use vstd::prelude::*;
use vstd::string::*;
use crate::text::{find_digit, is_digit, is_first_digit, same_text, starts_with};

verus! {

/// What every tag reference begins with.
pub open spec fn tag_marker() -> Seq<char> {
    "refs/tags/"@
}

/// What every branch reference begins with.
pub open spec fn branch_marker() -> Seq<char> {
    "refs/heads/"@
}

/// Whether `reference` names a tag.
pub open spec fn is_tag_ref(reference: Seq<char>) -> bool {
    tag_marker().is_prefix_of(reference)
}

/// The name of the tag that the tag reference `reference` points to.
pub open spec fn tag_name(reference: Seq<char>) -> Seq<char>
    recommends
        is_tag_ref(reference),
{
    reference.skip(tag_marker().len() as int)
}

/// Whether `reference` is one of the two main-branch references, letter for
/// letter.
pub open spec fn is_main_branch(reference: Seq<char>) -> bool {
    reference == "refs/heads/main"@ || reference == "refs/heads/master"@
}

/// The part of `s` that starts at its first digit; nothing if `s` has no
/// digit.
pub open spec fn from_first_digit(s: Seq<char>) -> Option<Seq<char>>
    decreases s.len(),
{
    if s.len() == 0 {
        None
    } else if is_digit(s[0]) {
        Some(s)
    } else {
        from_first_digit(s.skip(1))
    }
}

/// The version candidate of a reference: for a tag reference, its tag name
/// from the first digit on; nothing for any other reference and for a tag
/// name without a digit.
pub open spec fn version_candidate(reference: Seq<char>) -> Option<Seq<char>> {
    if is_tag_ref(reference) {
        from_first_digit(tag_name(reference))
    } else {
        None
    }
}

/// What `extract_version` returned, as a plain sequence.
pub open spec fn candidate_text(version: Option<&str>) -> Option<Seq<char>> {
    match version {
        Some(text) => Some(text@),
        None => None,
    }
}

/// `from_first_digit` cuts at the least index that holds a digit, and yields
/// nothing exactly when no index holds one.
pub proof fn lemma_from_first_digit(s: Seq<char>)
    ensures
        forall|at: int| is_first_digit(s, at) ==> from_first_digit(s) == Some(s.skip(at)),
        (forall|j: int| 0 <= j < s.len() ==> !is_digit(s[j])) ==> from_first_digit(s) is None,
        from_first_digit(s) matches Some(v) ==> exists|at: int|
            is_first_digit(s, at) && v == s.skip(at),
    decreases s.len(),
{
    if s.len() == 0 {
    } else if is_digit(s[0]) {
        assert(s.skip(0) =~= s);
        assert(is_first_digit(s, 0));
        assert forall|at: int| is_first_digit(s, at) implies from_first_digit(s) == Some(
            s.skip(at),
        ) by {
            assert(at == 0);
        }
    } else {
        let t = s.skip(1);
        lemma_from_first_digit(t);
        assert forall|at: int| is_first_digit(s, at) implies from_first_digit(s) == Some(
            s.skip(at),
        ) by {
            assert(is_first_digit(t, at - 1)) by {
                assert forall|j: int| 0 <= j < at - 1 implies !is_digit(t[j]) by {
                    assert(t[j] == s[j + 1]);
                }
            }
            assert(t.skip(at - 1) =~= s.skip(at));
        }
        if forall|j: int| 0 <= j < s.len() ==> !is_digit(s[j]) {
            assert forall|j: int| 0 <= j < t.len() implies !is_digit(t[j]) by {
                assert(t[j] == s[j + 1]);
            }
        }
        if from_first_digit(s) is Some {
            let v = from_first_digit(s)->0;
            let at = choose|at: int| is_first_digit(t, at) && v == t.skip(at);
            assert(is_first_digit(s, at + 1)) by {
                assert forall|j: int| 0 <= j < at + 1 implies !is_digit(s[j]) by {
                    if j > 0 {
                        assert(s[j] == t[j - 1]);
                    }
                }
            }
            assert(s.skip(at + 1) =~= t.skip(at));
        }
    }
}

/// Extracts the version candidate of a reference.
///
/// A reference that does not begin with `refs/tags/` has none. Otherwise the
/// candidate is the tag name from its first ASCII digit on, which drops a
/// leading `v` and any other letters before the number; a tag name without a
/// digit has none.
pub fn extract_version(git_ref: &str) -> (version: Option<&str>)
    ensures
        candidate_text(version) == version_candidate(git_ref@),
{
    let marker = "refs/tags/";
    if !starts_with(git_ref, marker) {
        return None;
    }
    let name = git_ref.substring_char(marker.unicode_len(), git_ref.unicode_len());
    proof {
        lemma_from_first_digit(name@);
    }
    match find_digit(name) {
        Some(at) => {
            let version = name.substring_char(at, name.unicode_len());
            assert(version@ =~= name@.skip(at as int));
            Some(version)
        },
        None => None,
    }
}

/// Two runs of `extract_version` on one reference return the same candidate.
pub proof fn lemma_extract_version_repeats(
    git_ref: &str,
    first: Option<&str>,
    second: Option<&str>,
)
    requires
        call_ensures(extract_version, (git_ref,), first),
        call_ensures(extract_version, (git_ref,), second),
    ensures
        candidate_text(first) == candidate_text(second),
{
}

/// Tells whether `git_ref` is `refs/heads/main` or `refs/heads/master`.
pub fn is_main_branch_ref(git_ref: &str) -> (main: bool)
    ensures
        main == is_main_branch(git_ref@),
{
    same_text(git_ref, "refs/heads/main") || same_text(git_ref, "refs/heads/master")
}

} // verus!
