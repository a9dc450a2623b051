//! Tensor framing: mapping a mono sample sequence onto the fixed-shape
//! numeric buffer the inference engine expects.
//!
//! Two policies exist. The fixed two-dimensional frame copies samples into a
//! zero-filled `height * width` grid, truncating what does not fit — a
//! deliberately simple fixed-window policy that does not tile or stride over
//! long inputs, so audio longer than the window is lossy by design. The flat
//! frame wraps the mono buffer verbatim into a rank-1 tensor of its own
//! length.

use vstd::prelude::*;

use crate::audio::MonoBuffer;
use crate::audio::wf_amplitudes;
use crate::errors::PipelineError;

verus! {

/// How a mono buffer is mapped onto the engine's input tensor.
#[derive(Clone, Copy, Debug, PartialEq, Eq, Structural)]
pub enum FramingPolicy {
    /// Pad or truncate into a `(1, 1, height, width)` grid.
    Fixed2D { height: usize, width: usize },
    /// Wrap the buffer verbatim into a rank-1 tensor of its own length.
    Flat,
}

/// A fixed-rank numeric buffer with a declared shape, ready for the engine.
#[derive(Debug)]
pub struct FramedTensor {
    /// Amplitude numerators in row-major order.
    pub data: Vec<i64>,
    /// Declared dimensions; their product equals `data.len()`.
    pub shape: Vec<usize>,
    /// Amplitude denominator, carried over from the mono buffer.
    pub scale: i64,
}

/// The element count a shape declares: the product of its dimensions.
pub open spec fn shape_elements(s: Seq<usize>) -> int
    decreases s.len(),
{
    if s.len() == 0 {
        1
    } else {
        s[0] * shape_elements(s.drop_first())
    }
}

impl FramedTensor {
    /// The declared shape accounts for every element, and every amplitude
    /// lies in `[-1, +1]`.
    pub open spec fn wf(self) -> bool {
        &&& shape_elements(self.shape@) == self.data@.len()
        &&& wf_amplitudes(self.data@, self.scale as int)
    }
}

/// What fixed-frame data looks like: the samples that fit, in order, then
/// zeros up to the frame's capacity.
pub open spec fn fixed_frame_of(samples: Seq<i64>, capacity: int, data: Seq<i64>) -> bool {
    &&& data.len() == capacity
    &&& forall|i: int|
        0 <= i < capacity ==> #[trigger] data[i] == if i < samples.len() {
            samples[i]
        } else {
            0
        }
}

/// Frames a mono buffer into a zero-filled `(1, 1, height, width)` grid:
/// the first `min(samples, height * width)` samples are copied in order,
/// samples beyond the capacity are discarded, and capacity beyond the
/// samples stays zero. A shape with no elements is rejected.
pub fn frame_fixed(mono: MonoBuffer, height: usize, width: usize) -> (r: Result<
    FramedTensor,
    PipelineError,
>)
    requires
        mono.wf(),
        height * width <= usize::MAX,
    ensures
        match r {
            Ok(t) => {
                &&& height > 0
                &&& width > 0
                &&& t.shape@ == seq![1usize, 1usize, height, width]
                &&& t.scale == mono.scale
                &&& fixed_frame_of(mono.samples@, height * width, t.data@)
                &&& t.wf()
            },
            Err(e) => e == PipelineError::Shape && (height == 0 || width == 0),
        },
{
    if height == 0 || width == 0 {
        return Err(PipelineError::Shape);
    }
    let capacity: usize = height * width;
    let mut data: Vec<i64> = Vec::new();
    let mut i: usize = 0;
    while i < capacity
        invariant
            mono.wf(),
            i <= capacity,
            data@.len() == i,
            forall|j: int|
                0 <= j < i ==> #[trigger] data@[j] == if j < mono.samples@.len() {
                    mono.samples@[j]
                } else {
                    0
                },
        decreases capacity - i,
    {
        if i < mono.samples.len() {
            let s = mono.samples[i];
            data.push(s);
        } else {
            data.push(0);
        }
        i += 1;
    }
    let mut shape: Vec<usize> = Vec::new();
    shape.push(1);
    shape.push(1);
    shape.push(height);
    shape.push(width);
    let t = FramedTensor { data, shape, scale: mono.scale };
    proof {
        assert(t.shape@ =~= seq![1usize, 1usize, height, width]);
        assert(shape_elements(t.shape@) == height * width) by {
            reveal_with_fuel(shape_elements, 6);
            assert(t.shape@.drop_first() =~= seq![1usize, height, width]);
            assert(t.shape@.drop_first().drop_first() =~= seq![height, width]);
            assert(t.shape@.drop_first().drop_first().drop_first() =~= seq![width]);
            assert(t.shape@.drop_first().drop_first().drop_first().drop_first()
                =~= Seq::<usize>::empty());
        }
    }
    Ok(t)
}

/// Wraps a mono buffer verbatim into a rank-1 tensor whose single dimension
/// is the buffer's length; no padding or truncation occurs.
pub fn frame_flat(mono: MonoBuffer) -> (t: FramedTensor)
    requires
        mono.wf(),
    ensures
        t.data@ == mono.samples@,
        t.shape@ == seq![mono.samples@.len() as usize],
        t.scale == mono.scale,
        t.wf(),
{
    let len: usize = mono.samples.len();
    let mut shape: Vec<usize> = Vec::new();
    shape.push(len);
    let t = FramedTensor { data: mono.samples, shape, scale: mono.scale };
    proof {
        assert(t.shape@ =~= seq![len]);
        assert(shape_elements(t.shape@) == len) by {
            reveal_with_fuel(shape_elements, 3);
            assert(t.shape@.drop_first() =~= Seq::<usize>::empty());
        }
    }
    t
}

/// What a successful framing of `mono` under `policy` yields.
pub open spec fn framed(mono: MonoBuffer, policy: FramingPolicy, t: FramedTensor) -> bool {
    match policy {
        FramingPolicy::Fixed2D { height, width } => {
            &&& height > 0
            &&& width > 0
            &&& t.shape@ == seq![1usize, 1usize, height, width]
            &&& t.scale == mono.scale
            &&& fixed_frame_of(mono.samples@, height * width, t.data@)
        },
        FramingPolicy::Flat => {
            &&& t.data@ == mono.samples@
            &&& t.shape@ == seq![mono.samples@.len() as usize]
            &&& t.scale == mono.scale
        },
    }
}

/// Frames a mono buffer under the given policy.
pub fn frame(mono: MonoBuffer, policy: FramingPolicy) -> (r: Result<FramedTensor, PipelineError>)
    requires
        mono.wf(),
        policy matches FramingPolicy::Fixed2D { height, width } ==> height * width <= usize::MAX,
    ensures
        match r {
            Ok(t) => framed(mono, policy, t) && t.wf(),
            Err(e) => {
                &&& e == PipelineError::Shape
                &&& policy matches FramingPolicy::Fixed2D { height, width } && (height == 0
                    || width == 0)
            },
        },
{
    match policy {
        FramingPolicy::Fixed2D { height, width } => frame_fixed(mono, height, width),
        FramingPolicy::Flat => Ok(frame_flat(mono)),
    }
}

/// Confirms at configuration time that the framed tensor's declared shape
/// matches the engine's expected input shape exactly.
pub fn check_engine_shape(t: &FramedTensor, expected: &Vec<usize>) -> (r: Result<
    (),
    PipelineError,
>)
    ensures
        r is Ok <==> t.shape@ == expected@,
        r is Err ==> r->Err_0 == PipelineError::ShapeMismatch,
{
    if t.shape.len() != expected.len() {
        proof {
            assert(t.shape@ != expected@);
        }
        return Err(PipelineError::ShapeMismatch);
    }
    let mut i: usize = 0;
    while i < t.shape.len()
        invariant
            t.shape@.len() == expected@.len(),
            i <= t.shape@.len(),
            forall|j: int| 0 <= j < i ==> #[trigger] t.shape@[j] == expected@[j],
        decreases t.shape@.len() - i,
    {
        if t.shape[i] != expected[i] {
            proof {
                assert(t.shape@ != expected@);
            }
            return Err(PipelineError::ShapeMismatch);
        }
        i += 1;
    }
    proof {
        assert(t.shape@ =~= expected@);
    }
    Ok(())
}

} // verus!
