//! The failures that a pipeline stage reports to its caller.

use vstd::prelude::*;
use vstd::string::StringExecFns;

verus! {

/// Why a pipeline stage refused its input. No stage panics and none repairs
/// an input silently.
#[derive(Debug, Clone, PartialEq, Eq)]
pub enum PipelineError {
    /// A width or height of zero, a resize whose result would have no area,
    /// or a result too large for a pixel buffer.
    InvalidDimensions,
    /// The name is not in the filter catalog.
    UnknownFilter(String),
    /// An image of zero width was handed to stitching.
    EmptyImage,
}

impl PipelineError {
    /// The failure in words, for the caller to hand on.
    pub open spec fn text(self) -> Seq<char> {
        match self {
            PipelineError::InvalidDimensions => "invalid dimensions"@,
            PipelineError::UnknownFilter(name) => "no such filter: "@ + name@,
            PipelineError::EmptyImage => "empty image"@,
        }
    }

    /// The failure in words, for the caller to hand on.
    pub fn message(&self) -> (words: String)
        ensures
            words@ == self.text(),
    {
        match self {
            PipelineError::InvalidDimensions => "invalid dimensions".to_owned(),
            PipelineError::UnknownFilter(name) => "no such filter: ".to_owned().concat(
                name.as_str(),
            ),
            PipelineError::EmptyImage => "empty image".to_owned(),
        }
    }
}

} // verus!
