use regex::Regex;
use vstd::prelude::*;

use crate::artifact::{has_path, Artifact, ArtifactView, Version};
use crate::error::ReleaserError;

verus! {

/// `regex::Regex`, a compiled regular expression. Proofs see nothing of what
/// is inside; they speak of it through [`pattern_source`] and
/// [`named_capture`].
#[verifier::external_type_specification]
#[verifier::external_body]
pub struct ExRegex(regex::Regex);

/// `regex::Error`, the reason why a pattern did not compile. Proofs see
/// nothing of what is inside.
#[verifier::external_type_specification]
#[verifier::external_body]
pub struct ExRegexError(regex::Error);

/// Whether `regex::Regex::new` accepts `pattern`: whether it is a regular
/// expression in the syntax of the engine that stays within the engine's
/// limits on size.
pub uninterp spec fn pattern_compiles(pattern: Seq<char>) -> bool;

/// The pattern text that a compiled regular expression was made from: what
/// `regex::Regex::as_str` returns for it.
pub uninterp spec fn pattern_source(regex: Regex) -> Seq<char>;

/// What `regex::Regex::captures` finds in `haystack`, and in it
/// `regex::Captures::name` for `group`: `None` where the expression matches
/// nowhere in the haystack, `Some(None)` where it matches but has no group of
/// that name or the group took no part in the match, `Some(Some(text))` where
/// the group captured `text`.
pub uninterp spec fn named_capture(regex: Regex, haystack: Seq<char>, group: Seq<char>) -> Option<
    Option<Seq<char>>,
>;

/// Whether `piece` is a run of consecutive characters of `whole`.
pub open spec fn is_part_of(piece: Seq<char>, whole: Seq<char>) -> bool {
    exists|from: int, to: int|
        0 <= from <= to <= whole.len() && piece == #[trigger] whole.subrange(from, to)
}

/// Calls `regex::Regex::new`. The contract gives a name to whether the
/// pattern compiles, which depends on the pattern text alone, and claims of
/// an expression that did compile that it remembers the pattern text it was
/// given, which is what `Regex::as_str` hands out.
#[verifier::external_body]
fn compile(pattern: &str) -> (r: Result<Regex, regex::Error>)
    ensures
        r is Ok <==> pattern_compiles(pattern@),
        r matches Ok(regex) ==> pattern_source(regex) == pattern@,
{
    Regex::new(pattern)
}

/// Calls `regex::Regex::captures`, then `regex::Captures::name` and
/// `regex::Match::as_str` on what was found. The contract gives the outcome its
/// name and claims that a captured text is a piece of the haystack, as a
/// `Match` is a slice of the haystack that was searched.
#[verifier::external_body]
fn capture_group(regex: &Regex, haystack: &str, group: &str) -> (r: Option<Option<String>>)
    ensures
        r.deep_view() == named_capture(*regex, haystack@, group@),
        r matches Some(Some(text)) ==> is_part_of(text@, haystack@),
{
    match regex.captures(haystack) {
        None => None,
        Some(captures) => match captures.name(group) {
            None => Some(None),
            Some(found) => Some(Some(found.as_str().to_string())),
        },
    }
}

/// What applying the path template to one object key gives.
#[derive(Debug, Clone, PartialEq, Eq)]
pub enum Extraction {
    /// The template does not match the key.
    Unmatched,
    /// The template matches the key, but it has no `version` group or the
    /// group took no part in the match.
    Unversioned,
    /// The template matches and its `version` group captured this text.
    Versioned(Version),
}

/// The mathematical value of an [`Extraction`].
pub enum ExtractionView {
    Unmatched,
    Unversioned,
    Versioned(Seq<char>),
}

impl View for Extraction {
    type V = ExtractionView;

    open spec fn view(&self) -> ExtractionView {
        match self {
            Extraction::Unmatched => ExtractionView::Unmatched,
            Extraction::Unversioned => ExtractionView::Unversioned,
            Extraction::Versioned(version) => ExtractionView::Versioned(version@),
        }
    }
}

/// The name of the capture group that holds the version.
pub open spec fn version_group() -> Seq<char> {
    "version"@
}

/// How many objects a listing request asks the object store for at a time.
pub const LISTING_PAGE_SIZE: i32 = 10;

/// Finds the artifacts among the keys of a bucket.
pub struct S3Indexer {
    bucket: String,
    path_template_regex: Regex,
}

/// What a pass over the keys of a bucket found.
#[derive(Debug, PartialEq, Eq)]
pub struct Listing {
    /// The artifacts, in the order of their keys.
    pub artifacts: Vec<Artifact>,
    /// The keys that the template matched without capturing a version, in the
    /// order in which they came. Each one calls for a warning.
    pub unversioned: Vec<String>,
}

/// The keys among the entries of a listing page, in their order. Entries
/// without a key are left out.
pub open spec fn present_keys(page: Seq<Option<Seq<char>>>) -> Seq<Seq<char>>
    decreases page.len(),
{
    if page.len() == 0 {
        Seq::empty()
    } else {
        match page.last() {
            Some(key) => present_keys(page.drop_last()).push(key),
            None => present_keys(page.drop_last()),
        }
    }
}

/// How often `key` occurs in `keys`.
pub open spec fn occurrences(keys: Seq<Seq<char>>, key: Seq<char>) -> nat
    decreases keys.len(),
{
    if keys.len() == 0 {
        0
    } else {
        occurrences(keys.drop_last(), key) + if keys.last() == key {
            1nat
        } else {
            0nat
        }
    }
}

impl S3Indexer {
    /// The name of the bucket whose keys are indexed.
    pub closed spec fn bucket_name(&self) -> Seq<char> {
        self.bucket@
    }

    /// The text of the path template.
    pub closed spec fn template(&self) -> Seq<char> {
        pattern_source(self.path_template_regex)
    }

    /// What the path template finds in `key` for the `version` group.
    pub closed spec fn capture(&self, key: Seq<char>) -> Option<Option<Seq<char>>> {
        named_capture(self.path_template_regex, key, version_group())
    }

    /// What applying the path template to `key` gives.
    pub open spec fn extraction(&self, key: Seq<char>) -> ExtractionView {
        match self.capture(key) {
            None => ExtractionView::Unmatched,
            Some(None) => ExtractionView::Unversioned,
            Some(Some(version)) => ExtractionView::Versioned(version),
        }
    }

    /// The artifacts among `keys`: for each key from which the template
    /// captures a version, in the order of the keys, the key with that version.
    pub open spec fn discovered(&self, keys: Seq<Seq<char>>) -> Seq<ArtifactView>
        decreases keys.len(),
    {
        if keys.len() == 0 {
            Seq::empty()
        } else {
            match self.extraction(keys.last()) {
                ExtractionView::Versioned(version) => self.discovered(keys.drop_last()).push(
                    ArtifactView { path: keys.last(), version },
                ),
                _ => self.discovered(keys.drop_last()),
            }
        }
    }

    /// The keys among `keys` that the template matches without capturing a
    /// version, in their order.
    pub open spec fn unversioned(&self, keys: Seq<Seq<char>>) -> Seq<Seq<char>>
        decreases keys.len(),
    {
        if keys.len() == 0 {
            Seq::empty()
        } else {
            match self.extraction(keys.last()) {
                ExtractionView::Unversioned => self.unversioned(keys.drop_last()).push(keys.last()),
                _ => self.unversioned(keys.drop_last()),
            }
        }
    }

    /// Every discovered artifact stems from a key of the input: its path is
    /// one of the keys, and its version is what the template captures there.
    pub proof fn lemma_discovered_stems_from_keys(&self, keys: Seq<Seq<char>>)
        ensures
            forall|i: int|
                0 <= i < self.discovered(keys).len() ==> {
                    let artifact = #[trigger] self.discovered(keys)[i];
                    &&& keys.contains(artifact.path)
                    &&& self.extraction(artifact.path) == ExtractionView::Versioned(
                        artifact.version,
                    )
                },
            self.discovered(keys).len() <= keys.len(),
        decreases keys.len(),
    {
        if keys.len() > 0 {
            let earlier = keys.drop_last();
            self.lemma_discovered_stems_from_keys(earlier);
            assert(keys.last() == keys[keys.len() - 1]);
            assert forall|i: int| 0 <= i < self.discovered(keys).len() implies {
                let artifact = #[trigger] self.discovered(keys)[i];
                &&& keys.contains(artifact.path)
                &&& self.extraction(artifact.path) == ExtractionView::Versioned(artifact.version)
            } by {
                if i < self.discovered(earlier).len() {
                    let artifact = self.discovered(earlier)[i];
                    assert(self.discovered(keys)[i] == artifact);
                    let at = choose|at: int| 0 <= at < earlier.len() && earlier[at] == artifact.path;
                    assert(keys[at] == artifact.path);
                }
            }
        }
    }

    /// A warning is due once for each time a key comes up that the template
    /// matches without capturing a version, and for no other key.
    pub proof fn lemma_warnings_count(&self, keys: Seq<Seq<char>>, key: Seq<char>)
        ensures
            occurrences(self.unversioned(keys), key) == if self.extraction(key) is Unversioned {
                occurrences(keys, key)
            } else {
                0
            },
        decreases keys.len(),
    {
        if keys.len() > 0 {
            self.lemma_warnings_count(keys.drop_last(), key);
            if self.extraction(keys.last()) is Unversioned {
                let warned = self.unversioned(keys.drop_last());
                assert(warned.push(keys.last()).drop_last() == warned);
            }
        }
    }

    /// A key that the path template does not match is dropped without a
    /// trace: no artifact is discovered for it, and it calls for no warning.
    pub proof fn lemma_unmatched_key_is_dropped(&self, keys: Seq<Seq<char>>, key: Seq<char>)
        requires
            self.extraction(key) is Unmatched,
        ensures
            !has_path(self.discovered(keys), key),
            occurrences(self.unversioned(keys), key) == 0,
    {
        self.lemma_discovered_stems_from_keys(keys);
        self.lemma_warnings_count(keys, key);
    }

    /// A key that the path template matches without capturing a version is
    /// left out of the artifacts, and calls for exactly one warning each time
    /// it comes up.
    pub proof fn lemma_unversioned_key_warns_once(&self, keys: Seq<Seq<char>>, key: Seq<char>)
        requires
            self.extraction(key) is Unversioned,
        ensures
            !has_path(self.discovered(keys), key),
            occurrences(self.unversioned(keys), key) == occurrences(keys, key),
    {
        self.lemma_discovered_stems_from_keys(keys);
        self.lemma_warnings_count(keys, key);
    }

    /// An indexer for `bucket` around the outcome of compiling a path
    /// template: the compiled expression is taken over, a failure to compile
    /// becomes [`ReleaserError::InvalidPattern`].
    pub fn from_compiled(bucket: String, compiled: Result<Regex, regex::Error>) -> (r: Result<
        S3Indexer,
        ReleaserError,
    >)
        ensures
            match compiled {
                Ok(regex) => r matches Ok(indexer) && indexer.bucket_name() == bucket@
                    && indexer.template() == pattern_source(regex) && forall|key: Seq<char>|
                    #[trigger] indexer.capture(key) == named_capture(regex, key, version_group()),
                Err(_) => r matches Err(ReleaserError::InvalidPattern(_)),
            },
    {
        match compiled {
            Ok(regex) => Ok(S3Indexer { bucket, path_template_regex: regex }),
            Err(error) => Err(ReleaserError::InvalidPattern(error.to_string())),
        }
    }

    /// An indexer for `bucket` whose path template is `path_template`. It
    /// succeeds exactly where the template compiles, and fails with
    /// [`ReleaserError::InvalidPattern`] where it does not.
    pub fn new(bucket: String, path_template: String) -> (r: Result<S3Indexer, ReleaserError>)
        ensures
            r is Ok <==> pattern_compiles(path_template@),
            r matches Ok(indexer) ==> indexer.bucket_name() == bucket@ && indexer.template()
                == path_template@,
            r matches Err(error) ==> error is InvalidPattern,
    {
        S3Indexer::from_compiled(bucket, compile(path_template.as_str()))
    }

    /// The name of the bucket whose keys are indexed.
    pub fn bucket(&self) -> (name: &String)
        ensures
            name@ == self.bucket_name(),
    {
        &self.bucket
    }

    /// Applies the path template to one key.
    pub fn extract(&self, path: &str) -> (r: Extraction)
        ensures
            r@ == self.extraction(path@),
            r matches Extraction::Versioned(version) ==> is_part_of(version@, path@),
    {
        proof {
            reveal_strlit("version");
        }
        match capture_group(&self.path_template_regex, path, "version") {
            None => Extraction::Unmatched,
            Some(None) => Extraction::Unversioned,
            Some(Some(version)) => Extraction::Versioned(version),
        }
    }

    /// The version that the path template reads from `path`, if any.
    pub fn matcher(&self, path: &str) -> (r: Option<Version>)
        ensures
            match self.extraction(path@) {
                ExtractionView::Versioned(version) => r matches Some(found) && found@ == version,
                _ => r is None,
            },
            r matches Some(found) ==> is_part_of(found@, path@),
    {
        match self.extract(path) {
            Extraction::Versioned(version) => Some(version),
            _ => None,
        }
    }

    /// Adds the keys of one page of a listing to `paths`, in the order of the
    /// page, and returns how many entries of the page had no key.
    pub fn append_page(paths: &mut Vec<String>, page: &Vec<Option<String>>) -> (keyless: usize)
        ensures
            final(paths).deep_view() == old(paths).deep_view() + present_keys(page.deep_view()),
            keyless == page.len() - present_keys(page.deep_view()).len(),
    {
        let mut keyless: usize = 0;
        let mut i: usize = 0;
        proof {
            assert(page.deep_view().take(0) == Seq::<Option<Seq<char>>>::empty());
            assert(paths.deep_view() == old(paths).deep_view() + present_keys(
                page.deep_view().take(0),
            ));
        }
        while i < page.len()
            invariant
                i <= page.len(),
                paths.deep_view() == old(paths).deep_view() + present_keys(
                    page.deep_view().take(i as int),
                ),
                keyless == i - present_keys(page.deep_view().take(i as int)).len(),
            decreases page.len() - i,
        {
            let ghost before = paths.deep_view();
            proof {
                let seen = page.deep_view().take(i + 1);
                assert(seen.drop_last() == page.deep_view().take(i as int));
                assert(seen.last() == page[i as int].deep_view());
            }
            match &page[i] {
                Some(key) => {
                    paths.push(key.clone());
                    proof {
                        assert(paths.deep_view() == before.push(key@));
                    }
                },
                None => {
                    keyless = keyless + 1;
                },
            }
            i = i + 1;
        }
        proof {
            assert(page.deep_view().take(page.len() as int) == page.deep_view());
        }
        keyless
    }

    /// Goes through the keys of the bucket in their order and sorts out which
    /// name an artifact and which call for a warning.
    pub fn list(&self, objects: &Vec<String>) -> (listing: Listing)
        ensures
            listing.artifacts.deep_view() == self.discovered(objects.deep_view()),
            listing.unversioned.deep_view() == self.unversioned(objects.deep_view()),
            forall|i: int|
                0 <= i < listing.artifacts.len() ==> is_part_of(
                    (#[trigger] listing.artifacts[i]).version@,
                    listing.artifacts[i].s3_path@,
                ),
            forall|key: Seq<char>|
                #![trigger self.extraction(key)]
                self.extraction(key) is Unmatched ==> !has_path(listing.artifacts.deep_view(), key)
                    && occurrences(listing.unversioned.deep_view(), key) == 0,
            forall|key: Seq<char>|
                #![trigger self.extraction(key)]
                self.extraction(key) is Unversioned ==> !has_path(
                    listing.artifacts.deep_view(),
                    key,
                ) && occurrences(listing.unversioned.deep_view(), key) == occurrences(
                    objects.deep_view(),
                    key,
                ),
    {
        let mut artifacts: Vec<Artifact> = Vec::new();
        let mut unversioned: Vec<String> = Vec::new();
        let mut i: usize = 0;
        proof {
            assert(objects.deep_view().take(0) == Seq::<Seq<char>>::empty());
            assert(artifacts.deep_view() == Seq::<ArtifactView>::empty());
            assert(unversioned.deep_view() == Seq::<Seq<char>>::empty());
        }
        while i < objects.len()
            invariant
                i <= objects.len(),
                artifacts.deep_view() == self.discovered(objects.deep_view().take(i as int)),
                unversioned.deep_view() == self.unversioned(objects.deep_view().take(i as int)),
                forall|j: int|
                    0 <= j < artifacts.len() ==> is_part_of(
                        (#[trigger] artifacts[j]).version@,
                        artifacts[j].s3_path@,
                    ),
            decreases objects.len() - i,
        {
            let ghost found = artifacts.deep_view();
            let ghost warned = unversioned.deep_view();
            proof {
                let seen = objects.deep_view().take(i + 1);
                assert(seen.drop_last() == objects.deep_view().take(i as int));
                assert(seen.last() == objects[i as int]@);
            }
            let key = &objects[i];
            match self.extract(key.as_str()) {
                Extraction::Versioned(version) => {
                    let artifact = Artifact { s3_path: key.clone(), version };
                    artifacts.push(artifact);
                    proof {
                        assert(artifacts.deep_view() == found.push(artifact@));
                    }
                },
                Extraction::Unversioned => {
                    unversioned.push(key.clone());
                    proof {
                        assert(unversioned.deep_view() == warned.push(key@));
                    }
                },
                Extraction::Unmatched => {},
            }
            i = i + 1;
        }
        proof {
            let keys = objects.deep_view();
            assert(keys.take(objects.len() as int) == keys);
            assert forall|key: Seq<char>| #![trigger self.extraction(key)]
            self.extraction(key) is Unmatched implies !has_path(
                self.discovered(keys),
                key,
            ) && occurrences(self.unversioned(keys), key) == 0 by {
                self.lemma_unmatched_key_is_dropped(keys, key);
            }
            assert forall|key: Seq<char>| #![trigger self.extraction(key)]
            self.extraction(key) is Unversioned implies !has_path(
                self.discovered(keys),
                key,
            ) && occurrences(self.unversioned(keys), key) == occurrences(keys, key) by {
                self.lemma_unversioned_key_warns_once(keys, key);
            }
        }
        Listing { artifacts, unversioned }
    }
}

} // verus!
