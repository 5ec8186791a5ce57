use vstd::prelude::*;
use vstd::string::*;

verus! {

/// What can go wrong inside the library itself.
#[derive(Debug, Clone, PartialEq, Eq)]
pub enum ReleaserError {
    /// The path template is not a regular expression that can be compiled.
    /// The text is the diagnostic of the regular expression engine.
    InvalidPattern(String),
    /// The object key has no last segment that could serve as a file name.
    NoFileName,
}

impl ReleaserError {
    /// The error in words.
    pub open spec fn description(self) -> Seq<char> {
        match self {
            ReleaserError::InvalidPattern(diagnostic) => "Cannot parse regex: "@ + diagnostic@,
            ReleaserError::NoFileName => "Cannot parse S3 path"@,
        }
    }

    /// The error in words, for a log or a report.
    pub fn message(&self) -> (text: String)
        ensures
            text@ == self.description(),
    {
        match self {
            ReleaserError::InvalidPattern(diagnostic) => {
                let mut text = String::from_str("Cannot parse regex: ");
                text.append(diagnostic.as_str());
                text
            },
            ReleaserError::NoFileName => String::from_str("Cannot parse S3 path"),
        }
    }
}

} // verus!
