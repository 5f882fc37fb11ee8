//! Composition of the tag string: every registry crossed with every version
//! label, under one repository name.

use vstd::prelude::*;
use vstd::string::*;
use crate::text::{
    all_filled, comma_join, lemma_comma_join_empty, lemma_comma_join_push, texts,
};

verus! {

/// The image that `repository` names in `registry`.
pub open spec fn image_name(registry: Seq<char>, repository: Seq<char>) -> Seq<char> {
    registry + seq!['/'] + repository
}

/// One tag: the image, a colon, the version label.
pub open spec fn tag_entry(image: Seq<char>, version: Seq<char>) -> Seq<char> {
    image + seq![':'] + version
}

/// The tags of one image, one per version label, in the labels' order.
pub open spec fn image_tags(image: Seq<char>, versions: Seq<Seq<char>>) -> Seq<Seq<char>> {
    Seq::new(versions.len(), |i: int| tag_entry(image, versions[i]))
}

/// The tags of `repository` in each of `registries`: those of the first
/// registry, then those of the second, and so on.
pub open spec fn registry_tags(
    registries: Seq<Seq<char>>,
    repository: Seq<char>,
    versions: Seq<Seq<char>>,
) -> Seq<Seq<char>>
    decreases registries.len(),
{
    if registries.len() == 0 {
        Seq::empty()
    } else {
        registry_tags(registries.drop_last(), repository, versions) + image_tags(
            image_name(registries.last(), repository),
            versions,
        )
    }
}

/// All tags to publish. Without a registry the repository name alone is the
/// image; otherwise every registry contributes its tags.
pub open spec fn tag_entries(
    repository: Seq<char>,
    versions: Seq<Seq<char>>,
    registries: Seq<Seq<char>>,
) -> Seq<Seq<char>> {
    if registries.len() == 0 {
        image_tags(repository, versions)
    } else {
        registry_tags(registries, repository, versions)
    }
}

/// The tag string: all tags, joined by commas.
pub open spec fn tag_string(
    repository: Seq<char>,
    versions: Seq<Seq<char>>,
    registries: Seq<Seq<char>>,
) -> Seq<char> {
    comma_join(tag_entries(repository, versions, registries))
}

/// Where the tag of registry number `registry` and label number `version`
/// stands among the tags of all registries, with `count` labels.
pub open spec fn tag_position(registry: int, version: int, count: int) -> int {
    registry * count + version
}

/// Registry-major order: there is one tag for each pair of a registry and a
/// version label, no tag is empty, and the tag of registry `r` and label `v`
/// stands at `r * versions.len() + v`, so both input orders are kept.
pub proof fn lemma_registry_tags_index(
    registries: Seq<Seq<char>>,
    repository: Seq<char>,
    versions: Seq<Seq<char>>,
)
    ensures
        registry_tags(registries, repository, versions).len() == registries.len()
            * versions.len(),
        all_filled(registry_tags(registries, repository, versions)),
        forall|r: int, v: int|
            0 <= r < registries.len() && 0 <= v < versions.len() ==> ({
                let at = #[trigger] tag_position(r, v, versions.len() as int);
                &&& 0 <= at < registries.len() * versions.len()
                &&& registry_tags(registries, repository, versions)[at] == tag_entry(
                    image_name(registries[r], repository),
                    versions[v],
                )
            }),
    decreases registries.len(),
{
    let count = versions.len() as int;
    if registries.len() == 0 {
        assert(registries.len() * versions.len() == 0) by (nonlinear_arith)
            requires
                registries.len() == 0,
        ;
    } else {
        let front = registries.drop_last();
        let head = registry_tags(front, repository, versions);
        let tail = image_tags(image_name(registries.last(), repository), versions);
        let all = registry_tags(registries, repository, versions);
        lemma_registry_tags_index(front, repository, versions);
        assert(registries.len() * count == front.len() * count + count) by (nonlinear_arith)
            requires
                registries.len() == front.len() + 1,
        ;
        assert forall|r: int, v: int|
            0 <= r < registries.len() && 0 <= v < versions.len() implies {
            let at = #[trigger] tag_position(r, v, count);
            &&& 0 <= at < registries.len() * versions.len()
            &&& all[at] == tag_entry(image_name(registries[r], repository), versions[v])
        } by {
            let at = tag_position(r, v, count);
            if r < front.len() {
                assert(0 <= r * count + v < front.len() * count) by (nonlinear_arith)
                    requires
                        0 <= r < front.len(),
                        0 <= v < count,
                ;
                assert(all[at] == head[at]);
            } else {
                assert(all[head.len() + v] == tail[v]);
            }
        }
    }
}

/// Without a version label the tag string is empty, whatever the registries.
pub proof fn lemma_no_versions_no_tags(
    repository: Seq<char>,
    versions: Seq<Seq<char>>,
    registries: Seq<Seq<char>>,
)
    requires
        versions.len() == 0,
    ensures
        tag_entries(repository, versions, registries).len() == 0,
        tag_string(repository, versions, registries).len() == 0,
{
    lemma_registry_tags_index(registries, repository, versions);
    assert(registries.len() * versions.len() == 0) by (nonlinear_arith)
        requires
            versions.len() == 0,
    ;
}

/// Appends the tags of one image to a tag string.
fn append_image_tags(
    tags: &mut String,
    image: &str,
    versions: &Vec<String>,
    Ghost(before): Ghost<Seq<Seq<char>>>,
)
    requires
        old(tags)@ == comma_join(before),
        all_filled(before),
    ensures
        final(tags)@ == comma_join(before + image_tags(image@, texts(versions@))),
{
    proof {
        reveal_strlit(",");
        reveal_strlit(":");
    }
    let ghost added = image_tags(image@, texts(versions@));
    let mut i: usize = 0;
    while i < versions.len()
        invariant
            i <= versions.len(),
            added == image_tags(image@, texts(versions@)),
            all_filled(before),
            tags@ == comma_join(before + added.take(i as int)),
            ","@ == seq![','],
            ":"@ == seq![':'],
        decreases versions.len() - i,
    {
        let ghost done = before + added.take(i as int);
        proof {
            lemma_comma_join_empty(done);
            lemma_comma_join_push(done, added[i as int]);
            assert(done.push(added[i as int]) =~= before + added.take(i + 1));
        }
        if !tags.as_str().is_empty() {
            tags.append(",");
        }
        tags.append(image);
        tags.append(":");
        tags.append(versions[i].as_str());
        i = i + 1;
    }
    assert(added.take(i as int) =~= added);
}

/// Generates the tag string for a repository.
///
/// Every registry is crossed with every version label, registries outermost,
/// both in the order given. A pair is written `registry/repository:version`;
/// without any registry each label is written `repository:version`. The
/// entries are joined by single commas, and no label gives the empty string.
pub fn generate_tags(repository: &str, versions: Vec<String>, registries: &[String]) -> (tags:
    String)
    ensures
        tags@ == tag_string(repository@, texts(versions@), texts(registries@)),
        versions@.len() == 0 ==> tags@.len() == 0,
{
    proof {
        if versions@.len() == 0 {
            lemma_no_versions_no_tags(repository@, texts(versions@), texts(registries@));
        }
    }
    let mut tags = String::new();
    if registries.len() == 0 {
        assert(Seq::<Seq<char>>::empty() + image_tags(repository@, texts(versions@))
            =~= image_tags(repository@, texts(versions@)));
        append_image_tags(&mut tags, repository, &versions, Ghost(Seq::empty()));
        return tags;
    }
    proof {
        reveal_strlit("/");
    }
    let mut r: usize = 0;
    while r < registries.len()
        invariant
            r <= registries.len(),
            tags@ == comma_join(
                registry_tags(texts(registries@).take(r as int), repository@, texts(versions@)),
            ),
            "/"@ == seq!['/'],
        decreases registries.len() - r,
    {
        let ghost front = texts(registries@).take(r as int);
        let mut image = registries[r].clone();
        image.append("/");
        image.append(repository);
        proof {
            lemma_registry_tags_index(front, repository@, texts(versions@));
            assert(texts(registries@).take(r + 1).drop_last() =~= front);
        }
        append_image_tags(
            &mut tags,
            image.as_str(),
            &versions,
            Ghost(registry_tags(front, repository@, texts(versions@))),
        );
        r = r + 1;
    }
    assert(texts(registries@).take(r as int) =~= texts(registries@));
    tags
}

/// Two runs of `generate_tags` on the same inputs return the same string.
pub proof fn lemma_generate_tags_repeats(
    repository: &str,
    versions: Vec<String>,
    registries: &[String],
    first: String,
    second: String,
)
    requires
        call_ensures(generate_tags, (repository, versions, registries), first),
        call_ensures(generate_tags, (repository, versions, registries), second),
    ensures
        first@ == second@,
{
}

} // verus!
