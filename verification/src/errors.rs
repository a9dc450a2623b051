//! The pipeline's error taxonomy. Every stage surfaces failures upward
//! immediately; there is no retry and no partial recovery.

use vstd::prelude::*;

verus! {

/// Why a pipeline run failed.
#[derive(Clone, Copy, Debug, PartialEq, Eq, Structural)]
pub enum PipelineError {
    /// A file could not be opened or read.
    Io,
    /// The audio container's header could not be parsed.
    Format,
    /// A declared tensor shape has no elements.
    Shape,
    /// The framed tensor disagrees with the engine's configured input shape.
    ShapeMismatch,
    /// The audio declares a channel count other than mono or stereo.
    UnsupportedChannelLayout,
}

impl PipelineError {
    /// A short diagnostic phrase for this error.
    pub fn message(&self) -> (r: &'static str)
        ensures
            r@ == self.spec_message(),
    {
        match self {
            PipelineError::Io => "cannot open or read file",
            PipelineError::Format => "cannot parse audio container",
            PipelineError::Shape => "declared tensor shape has no elements",
            PipelineError::ShapeMismatch => "tensor shape disagrees with the engine input",
            PipelineError::UnsupportedChannelLayout => "channel count is neither mono nor stereo",
        }
    }

    /// What `message` returns, as a sequence of characters.
    pub open spec fn spec_message(&self) -> Seq<char> {
        match self {
            PipelineError::Io => "cannot open or read file"@,
            PipelineError::Format => "cannot parse audio container"@,
            PipelineError::Shape => "declared tensor shape has no elements"@,
            PipelineError::ShapeMismatch => "tensor shape disagrees with the engine input"@,
            PipelineError::UnsupportedChannelLayout => "channel count is neither mono nor stereo"@,
        }
    }
}

} // verus!
