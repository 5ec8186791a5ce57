use vstd::prelude::*;

use crate::error::ReleaserError;

verus! {

/// A version as it is read from an object key: any text, taken as it stands.
pub type Version = String;

/// A build output found in the object store, with the version read from its key.
#[derive(Debug, Clone, PartialEq, Eq)]
pub struct Artifact {
    pub s3_path: String,
    pub version: Version,
}

/// The mathematical value of an [`Artifact`].
pub struct ArtifactView {
    pub path: Seq<char>,
    pub version: Seq<char>,
}

impl View for Artifact {
    type V = ArtifactView;

    open spec fn view(&self) -> ArtifactView {
        ArtifactView { path: self.s3_path@, version: self.version@ }
    }
}

impl DeepView for Artifact {
    type V = ArtifactView;

    open spec fn deep_view(&self) -> ArtifactView {
        self@
    }
}

/// Whether one of `artifacts` was found under the key `path`.
pub open spec fn has_path(artifacts: Seq<ArtifactView>, path: Seq<char>) -> bool {
    exists|i: int| 0 <= i < artifacts.len() && (#[trigger] artifacts[i]).path == path
}

/// The character that separates the segments of an object key.
pub open spec fn is_separator(c: char) -> bool {
    c == '/'
}

/// Whether `path` ends in a segment that consists of a single dot.
pub open spec fn ends_with_dot_segment(path: Seq<char>) -> bool {
    &&& path.len() >= 1
    &&& path.last() == '.'
    &&& (path.len() == 1 || is_separator(path[path.len() - 2]))
}

/// `path` without the separators and single-dot segments at its end.
pub open spec fn trim_path(path: Seq<char>) -> Seq<char>
    decreases path.len(),
{
    if path.len() > 0 && (is_separator(path.last()) || ends_with_dot_segment(path)) {
        trim_path(path.drop_last())
    } else {
        path
    }
}

/// The index at which the last segment of `path` begins: just behind the last
/// separator, or 0 where there is none.
pub open spec fn last_segment_start(path: Seq<char>) -> int
    decreases path.len(),
{
    if path.len() == 0 || is_separator(path.last()) {
        path.len() as int
    } else {
        last_segment_start(path.drop_last())
    }
}

/// The file name of an object key: its last segment, where empty segments and
/// single-dot segments at the end do not count. A key without such a segment,
/// or whose last segment is `..`, has no file name.
pub open spec fn file_name_of(path: Seq<char>) -> Option<Seq<char>> {
    let trimmed = trim_path(path);
    let name = trimmed.subrange(last_segment_start(trimmed), trimmed.len() as int);
    if trimmed.len() == 0 || name == seq!['.', '.'] {
        None
    } else {
        Some(name)
    }
}

proof fn lemma_last_segment_start_bounds(path: Seq<char>)
    ensures
        0 <= last_segment_start(path) <= path.len(),
        last_segment_start(path) > 0 ==> is_separator(path[last_segment_start(path) - 1]),
        forall|i: int| last_segment_start(path) <= i < path.len() ==> !is_separator(path[i]),
    decreases path.len(),
{
    if path.len() == 0 || is_separator(path.last()) {
    } else {
        let shorter = path.drop_last();
        lemma_last_segment_start_bounds(shorter);
        assert forall|i: int| last_segment_start(path) <= i < path.len() implies !is_separator(
            path[i],
        ) by {
            if i < shorter.len() {
                assert(path[i] == shorter[i]);
            }
        }
    }
}

proof fn lemma_trim_path_is_prefix(path: Seq<char>)
    ensures
        trim_path(path).len() <= path.len(),
        trim_path(path) == path.take(trim_path(path).len() as int),
        trim_path(path).len() > 0 ==> !is_separator(trim_path(path).last()),
        !ends_with_dot_segment(trim_path(path)),
    decreases path.len(),
{
    if path.len() > 0 && (is_separator(path.last()) || ends_with_dot_segment(path)) {
        lemma_trim_path_is_prefix(path.drop_last());
        let n = trim_path(path).len() as int;
        assert(path.drop_last().take(n) == path.take(n));
    } else {
        assert(path.take(path.len() as int) == path);
    }
}

/// A file name is a piece of the key it was taken from. It is not empty, holds
/// no separator, and is neither `.` nor `..`.
pub proof fn lemma_file_name_is_segment(path: Seq<char>)
    requires
        file_name_of(path) is Some,
    ensures
        file_name_of(path)->0.len() > 0,
        forall|i: int|
            0 <= i < file_name_of(path)->0.len() ==> !is_separator(
                #[trigger] file_name_of(path)->0[i],
            ),
        file_name_of(path)->0 != seq!['.'],
        file_name_of(path)->0 != seq!['.', '.'],
        exists|from: int, to: int|
            0 <= from < to <= path.len() && file_name_of(path)->0 == path.subrange(from, to),
{
    let trimmed = trim_path(path);
    let start = last_segment_start(trimmed);
    let name = file_name_of(path)->0;
    lemma_trim_path_is_prefix(path);
    lemma_last_segment_start_bounds(trimmed);
    assert(start < trimmed.len()) by {
        if start == trimmed.len() {
            assert(is_separator(trimmed[start - 1]));
        }
    }
    assert(name == path.subrange(start, trimmed.len() as int));
    if name == seq!['.'] {
        assert(name.len() == 1);
        assert(trimmed.last() == name[0]);
        assert(ends_with_dot_segment(trimmed));
    }
}

/// Whether the first `end` characters of `chars` end in a separator or in a
/// single-dot segment.
fn ends_in_padding(chars: &Vec<char>, end: usize) -> (r: bool)
    requires
        0 < end <= chars.len(),
    ensures
        r == (is_separator(chars@.take(end as int).last()) || ends_with_dot_segment(
            chars@.take(end as int),
        )),
{
    let last = chars[end - 1];
    if last == '/' {
        true
    } else if last == '.' {
        end == 1 || chars[end - 2] == '/'
    } else {
        false
    }
}

/// The characters of `text`, one by one.
fn characters(text: &str) -> (chars: Vec<char>)
    ensures
        chars@ == text@,
{
    let mut chars: Vec<char> = Vec::new();
    for c in it: text.chars()
        invariant
            chars@ == it.seq().take(it.index() as int),
    {
        chars.push(c);
    }
    chars
}

impl Artifact {
    /// The name under which the artifact is uploaded: the file name of its key.
    pub fn file_name(&self) -> (r: Result<String, ReleaserError>)
        ensures
            match file_name_of(self@.path) {
                Some(name) => r matches Ok(found) && found@ == name,
                None => r == Err::<String, ReleaserError>(ReleaserError::NoFileName),
            },
    {
        let chars = characters(self.s3_path.as_str());
        let mut end: usize = chars.len();
        proof {
            assert(chars@.take(end as int) == chars@);
        }
        while end > 0 && ends_in_padding(&chars, end)
            invariant
                end <= chars.len(),
                trim_path(chars@) == trim_path(chars@.take(end as int)),
            decreases end,
        {
            proof {
                assert(chars@.take(end as int).drop_last() == chars@.take(end - 1));
            }
            end = end - 1;
        }
        if end == 0 {
            return Err(ReleaserError::NoFileName);
        }
        let mut start: usize = end;
        while start > 0 && chars[start - 1] != '/'
            invariant
                start <= end <= chars.len(),
                last_segment_start(chars@.take(end as int)) == last_segment_start(
                    chars@.take(start as int),
                ),
            decreases start,
        {
            proof {
                assert(chars@.take(start as int).drop_last() == chars@.take(start - 1));
            }
            start = start - 1;
        }
        if end - start == 2 && chars[start] == '.' && chars[start + 1] == '.' {
            proof {
                assert(chars@.take(end as int).subrange(start as int, end as int) == seq!['.', '.']);
            }
            return Err(ReleaserError::NoFileName);
        }
        let name = self.s3_path.as_str().substring_char(start, end);
        proof {
            assert(chars@.take(end as int).subrange(start as int, end as int) == chars@.subrange(
                start as int,
                end as int,
            ));
        }
        Ok(name.to_owned())
    }
}

} // verus!
