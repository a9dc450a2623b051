//! The pipeline driver's verifiable half: sequencing channel reduction and
//! framing, and describing a whole run's configuration.
//!
//! The inference engine between the framed tensor and the score tensor is
//! an external collaborator; the caller runs it and hands its scores, under
//! any order-preserving integer encoding, to the ranking stage.

use vstd::prelude::*;

use crate::audio::MonoBuffer;
use crate::audio::SampleBuffer;
use crate::errors::PipelineError;
use crate::frame::FramedTensor;
use crate::frame::FramingPolicy;
use crate::frame::frame;
use crate::frame::framed;

verus! {

/// Everything one classification run is parameterized by.
pub struct PipelineConfig {
    /// Where the serialized inference graph lives.
    pub model_path: String,
    /// Where the label catalog lives, one class name per line.
    pub label_path: String,
    /// How the mono samples are framed for the engine.
    pub policy: FramingPolicy,
    /// How many of the best classes to report.
    pub top_k: usize,
}

/// Folds the decoded samples to mono and frames them for the engine: the
/// whole preprocessing between decoding and inference. Fails with
/// `UnsupportedChannelLayout` on a channel count other than mono or
/// stereo, and with `Shape` on a framing grid with no elements.
pub fn preprocess(buf: SampleBuffer, policy: FramingPolicy) -> (r: Result<
    FramedTensor,
    PipelineError,
>)
    requires
        buf.wf(),
        buf.channels == 2 ==> buf.scale <= i64::MAX / 2,
        policy matches FramingPolicy::Fixed2D { height, width } ==> height * width <= usize::MAX,
    ensures
        match r {
            Ok(t) => t.wf() && exists|m: MonoBuffer|
                #[trigger] buf.reduced(m) && m.wf() && framed(m, policy, t),
            Err(e) => {
                ||| {
                    &&& e == PipelineError::UnsupportedChannelLayout
                    &&& buf.channels != 1
                    &&& buf.channels != 2
                }
                ||| {
                    &&& e == PipelineError::Shape
                    &&& (buf.channels == 1 || buf.channels == 2)
                    &&& policy matches FramingPolicy::Fixed2D { height, width } && (height == 0
                        || width == 0)
                }
            },
        },
{
    let mono = match buf.reduce_channels() {
        Ok(m) => m,
        Err(e) => {
            return Err(e);
        },
    };
    let ghost m = mono;
    match frame(mono, policy) {
        Ok(t) => {
            proof {
                assert(buf.reduced(m) && m.wf() && framed(m, policy, t));
            }
            Ok(t)
        },
        Err(e) => Err(e),
    }
}

} // verus!
