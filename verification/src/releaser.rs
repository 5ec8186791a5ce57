use vstd::hash_set::StringHashSet;
use vstd::prelude::*;

use crate::artifact::{Artifact, ArtifactView};
use crate::gitlabreleases::{Release, ReleaseView, Tag, TagView};

verus! {

/// Where an artifact stands with respect to the releases and tags of the
/// project.
#[derive(Debug, Clone, Copy, PartialEq, Eq, Structural)]
pub enum Disposition {
    /// A release of the artifact's version exists: nothing is left to do.
    AlreadyReleased,
    /// Neither a release nor a tag of the artifact's version exists: there is
    /// nothing to publish it against.
    NoMatchingTag,
    /// A tag of the artifact's version exists, but no release: the artifact is
    /// to be published.
    PublishCandidate,
}

/// The tags that the releases in `releases` were made from.
pub open spec fn release_tags(releases: Seq<ReleaseView>) -> Set<Seq<char>> {
    Set::new(
        |tag: Seq<char>|
            exists|i: int| 0 <= i < releases.len() && (#[trigger] releases[i]).tag_name == tag,
    )
}

/// The names of the tags in `tags`.
pub open spec fn tag_names(tags: Seq<TagView>) -> Set<Seq<char>> {
    Set::new(
        |name: Seq<char>| exists|i: int| 0 <= i < tags.len() && (#[trigger] tags[i]).name == name,
    )
}

/// The disposition of an artifact of `version`, given the tags that have a
/// release and the tags that exist. A release decides first, whether or not
/// the tag is known; then the lack of a tag.
pub open spec fn disposition_of(
    version: Seq<char>,
    released: Set<Seq<char>>,
    tagged: Set<Seq<char>>,
) -> Disposition {
    if released.contains(version) {
        Disposition::AlreadyReleased
    } else if !tagged.contains(version) {
        Disposition::NoMatchingTag
    } else {
        Disposition::PublishCandidate
    }
}

/// The dispositions of `artifacts`, one for each, in their order.
pub open spec fn dispositions_of(
    artifacts: Seq<ArtifactView>,
    released: Set<Seq<char>>,
    tagged: Set<Seq<char>>,
) -> Seq<Disposition> {
    Seq::new(artifacts.len(), |i: int| disposition_of(artifacts[i].version, released, tagged))
}

/// The artifacts among `artifacts` that are to be published, in their order.
pub open spec fn candidates_of(
    artifacts: Seq<ArtifactView>,
    released: Set<Seq<char>>,
    tagged: Set<Seq<char>>,
) -> Seq<ArtifactView>
    decreases artifacts.len(),
{
    if artifacts.len() == 0 {
        Seq::empty()
    } else {
        let earlier = candidates_of(artifacts.drop_last(), released, tagged);
        if disposition_of(artifacts.last().version, released, tagged) is PublishCandidate {
            earlier.push(artifacts.last())
        } else {
            earlier
        }
    }
}

/// The versions of `artifacts`.
pub open spec fn versions_of(artifacts: Seq<ArtifactView>) -> Set<Seq<char>> {
    Set::new(
        |version: Seq<char>|
            exists|i: int| 0 <= i < artifacts.len() && (#[trigger] artifacts[i]).version == version,
    )
}

/// Reconciliation has no memory: whatever two passes over the same artifacts,
/// releases and tags give, it is the same, one disposition for each artifact.
pub proof fn lemma_classification_is_repeatable(
    artifacts: Seq<ArtifactView>,
    released: Set<Seq<char>>,
    tagged: Set<Seq<char>>,
    first: Seq<Disposition>,
    second: Seq<Disposition>,
)
    requires
        first == dispositions_of(artifacts, released, tagged),
        second == dispositions_of(artifacts, released, tagged),
    ensures
        first == second,
        first.len() == artifacts.len(),
{
}

/// The candidates are the artifacts whose disposition is
/// [`Disposition::PublishCandidate`]: each candidate is such an artifact, and
/// each such artifact is a candidate.
pub proof fn lemma_candidates_are_the_publishable(
    artifacts: Seq<ArtifactView>,
    released: Set<Seq<char>>,
    tagged: Set<Seq<char>>,
)
    ensures
        forall|j: int|
            0 <= j < candidates_of(artifacts, released, tagged).len() ==> {
                let candidate = #[trigger] candidates_of(artifacts, released, tagged)[j];
                &&& artifacts.contains(candidate)
                &&& disposition_of(candidate.version, released, tagged) is PublishCandidate
            },
        forall|i: int|
            0 <= i < artifacts.len() && disposition_of(
                (#[trigger] artifacts[i]).version,
                released,
                tagged,
            ) is PublishCandidate ==> candidates_of(artifacts, released, tagged).contains(
                artifacts[i],
            ),
    decreases artifacts.len(),
{
    if artifacts.len() > 0 {
        let earlier = artifacts.drop_last();
        let chosen = candidates_of(earlier, released, tagged);
        let all = candidates_of(artifacts, released, tagged);
        let last_counts = disposition_of(artifacts.last().version, released, tagged)
            is PublishCandidate;
        lemma_candidates_are_the_publishable(earlier, released, tagged);
        assert(artifacts[artifacts.len() - 1] == artifacts.last());
        assert forall|j: int| 0 <= j < all.len() implies {
            let candidate = #[trigger] all[j];
            &&& artifacts.contains(candidate)
            &&& disposition_of(candidate.version, released, tagged) is PublishCandidate
        } by {
            if j < chosen.len() {
                assert(all[j] == chosen[j]);
                let at = choose|at: int| 0 <= at < earlier.len() && earlier[at] == chosen[j];
                assert(artifacts[at] == chosen[j]);
            }
        }
        assert forall|i: int|
            0 <= i < artifacts.len() && disposition_of(
                (#[trigger] artifacts[i]).version,
                released,
                tagged,
            ) is PublishCandidate implies all.contains(artifacts[i]) by {
            if i < earlier.len() {
                assert(earlier[i] == artifacts[i]);
                let at = choose|at: int| 0 <= at < chosen.len() && chosen[at] == earlier[i];
                assert(all[at] == artifacts[i]);
            } else {
                assert(all[all.len() - 1] == artifacts[i]);
            }
        }
    }
}

/// A pass that published all its candidates leaves nothing to publish: with
/// the releases of the candidates added to those that existed, a pass over
/// the same artifacts and tags has no candidate.
pub proof fn lemma_second_pass_publishes_nothing(
    artifacts: Seq<ArtifactView>,
    released: Set<Seq<char>>,
    tagged: Set<Seq<char>>,
)
    ensures
        candidates_of(
            artifacts,
            released.union(versions_of(candidates_of(artifacts, released, tagged))),
            tagged,
        ) == Seq::<ArtifactView>::empty(),
{
    let published = versions_of(candidates_of(artifacts, released, tagged));
    let afterwards = released.union(published);
    let left = candidates_of(artifacts, afterwards, tagged);
    lemma_candidates_are_the_publishable(artifacts, released, tagged);
    lemma_candidates_are_the_publishable(artifacts, afterwards, tagged);
    if left.len() > 0 {
        let candidate = left[0];
        let at = choose|at: int| 0 <= at < artifacts.len() && artifacts[at] == candidate;
        assert(disposition_of(artifacts[at].version, released, tagged) is PublishCandidate);
        let first = choose|first: int|
            0 <= first < candidates_of(artifacts, released, tagged).len() && candidates_of(
                artifacts,
                released,
                tagged,
            )[first] == artifacts[at];
        assert(candidates_of(artifacts, released, tagged)[first].version == candidate.version);
        assert(published.contains(candidate.version));
    }
}

/// The set of the tags that have a release, whatever the releases are called
/// and however often a tag comes up.
pub fn existing_releases(releases: &Vec<Release>) -> (released: StringHashSet)
    ensures
        released@ == release_tags(releases.deep_view()),
{
    let mut released = StringHashSet::new();
    let mut i: usize = 0;
    proof {
        assert(released@ =~= release_tags(releases.deep_view().take(0)));
    }
    while i < releases.len()
        invariant
            i <= releases.len(),
            released@ == release_tags(releases.deep_view().take(i as int)),
        decreases releases.len() - i,
    {
        let ghost before = releases.deep_view().take(i as int);
        let ghost after = releases.deep_view().take(i + 1);
        released.insert(releases[i].tag_name.clone());
        proof {
            let tag = releases[i as int]@.tag_name;
            assert(after[i as int].tag_name == tag);
            assert forall|other: Seq<char>| release_tags(before).insert(tag).contains(
                other,
            ) implies release_tags(after).contains(other) by {
                if other != tag {
                    let at = choose|at: int| 0 <= at < before.len() && before[at].tag_name == other;
                    assert(after[at].tag_name == other);
                }
            }
            assert forall|other: Seq<char>| release_tags(after).contains(
                other,
            ) implies release_tags(before).insert(tag).contains(other) by {
                let at = choose|at: int| 0 <= at < after.len() && after[at].tag_name == other;
                if at < i {
                    assert(before[at].tag_name == other);
                }
            }
            assert(released@ =~= release_tags(after));
        }
        i = i + 1;
    }
    proof {
        assert(releases.deep_view().take(releases.len() as int) == releases.deep_view());
    }
    released
}

/// The set of the names of the tags of the project.
pub fn existing_tags(tags: &Vec<Tag>) -> (tagged: StringHashSet)
    ensures
        tagged@ == tag_names(tags.deep_view()),
{
    let mut tagged = StringHashSet::new();
    let mut i: usize = 0;
    proof {
        assert(tagged@ =~= tag_names(tags.deep_view().take(0)));
    }
    while i < tags.len()
        invariant
            i <= tags.len(),
            tagged@ == tag_names(tags.deep_view().take(i as int)),
        decreases tags.len() - i,
    {
        let ghost before = tags.deep_view().take(i as int);
        let ghost after = tags.deep_view().take(i + 1);
        tagged.insert(tags[i].name.clone());
        proof {
            let name = tags[i as int]@.name;
            assert(after[i as int].name == name);
            assert forall|other: Seq<char>| tag_names(before).insert(name).contains(
                other,
            ) implies tag_names(after).contains(other) by {
                if other != name {
                    let at = choose|at: int| 0 <= at < before.len() && before[at].name == other;
                    assert(after[at].name == other);
                }
            }
            assert forall|other: Seq<char>| tag_names(after).contains(other) implies tag_names(
                before,
            ).insert(name).contains(other) by {
                let at = choose|at: int| 0 <= at < after.len() && after[at].name == other;
                if at < i {
                    assert(before[at].name == other);
                }
            }
            assert(tagged@ =~= tag_names(after));
        }
        i = i + 1;
    }
    proof {
        assert(tags.deep_view().take(tags.len() as int) == tags.deep_view());
    }
    tagged
}

/// The disposition of one artifact.
pub fn disposition(artifact: &Artifact, released: &StringHashSet, tagged: &StringHashSet) -> (d:
    Disposition)
    ensures
        d == disposition_of(artifact@.version, released@, tagged@),
{
    let release_exists = released.contains(artifact.version.as_str());
    let tag_exists = tagged.contains(artifact.version.as_str());
    if release_exists {
        Disposition::AlreadyReleased
    } else if !tag_exists {
        Disposition::NoMatchingTag
    } else {
        Disposition::PublishCandidate
    }
}

/// The dispositions of all artifacts, one for each, in their order.
pub fn classify(artifacts: &Vec<Artifact>, released: &StringHashSet, tagged: &StringHashSet) -> (r:
    Vec<Disposition>)
    ensures
        r@ == dispositions_of(artifacts.deep_view(), released@, tagged@),
{
    let mut dispositions: Vec<Disposition> = Vec::new();
    let mut i: usize = 0;
    while i < artifacts.len()
        invariant
            i <= artifacts.len(),
            dispositions@ == dispositions_of(
                artifacts.deep_view().take(i as int),
                released@,
                tagged@,
            ),
        decreases artifacts.len() - i,
    {
        dispositions.push(disposition(&artifacts[i], released, tagged));
        i = i + 1;
    }
    proof {
        assert(artifacts.deep_view().take(artifacts.len() as int) == artifacts.deep_view());
    }
    dispositions
}

/// The artifacts that are to be published, in the order in which they were
/// discovered.
pub fn publish_candidates(
    artifacts: &Vec<Artifact>,
    released: &StringHashSet,
    tagged: &StringHashSet,
) -> (candidates: Vec<Artifact>)
    ensures
        candidates.deep_view() == candidates_of(artifacts.deep_view(), released@, tagged@),
{
    let mut candidates: Vec<Artifact> = Vec::new();
    let mut i: usize = 0;
    proof {
        assert(artifacts.deep_view().take(0) == Seq::<ArtifactView>::empty());
        assert(candidates.deep_view() == Seq::<ArtifactView>::empty());
    }
    while i < artifacts.len()
        invariant
            i <= artifacts.len(),
            candidates.deep_view() == candidates_of(
                artifacts.deep_view().take(i as int),
                released@,
                tagged@,
            ),
        decreases artifacts.len() - i,
    {
        let ghost chosen = candidates.deep_view();
        proof {
            let seen = artifacts.deep_view().take(i + 1);
            assert(seen.drop_last() == artifacts.deep_view().take(i as int));
            assert(seen.last() == artifacts[i as int]@);
        }
        let artifact = &artifacts[i];
        match disposition(artifact, released, tagged) {
            Disposition::PublishCandidate => {
                candidates.push(
                    Artifact {
                        s3_path: artifact.s3_path.clone(),
                        version: artifact.version.clone(),
                    },
                );
                proof {
                    assert(candidates.deep_view() == chosen.push(artifact@));
                }
            },
            _ => {},
        }
        i = i + 1;
    }
    proof {
        assert(artifacts.deep_view().take(artifacts.len() as int) == artifacts.deep_view());
    }
    candidates
}

} // verus!
