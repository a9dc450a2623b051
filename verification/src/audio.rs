//! Audio sample buffers.
//!
//! An amplitude is stored as an exact rational: an integer numerator over the
//! buffer's `scale` denominator, so that a numerator `v` stands for the
//! amplitude `v / scale` in the closed range `[-1, +1]`. PCM sources with
//! 16-bit samples use the symmetric scale `32768`, which maps the full
//! integer dynamic range into `[-1, +1]`. Keeping amplitudes as integers
//! makes every arithmetic step of the pipeline exact and verifiable;
//! conversion to floating point is left to the engine boundary outside this
//! crate.

use vstd::prelude::*;

use crate::errors::PipelineError;

verus! {

/// The denominator that maps 16-bit PCM samples onto `[-1, +1]`: a stored
/// sample `v` stands for the amplitude `v / 32768`.
pub const PCM16_SCALE: i64 = 32768;

/// Every numerator stays within the denominator, so every amplitude lies in
/// the closed range `[-1, +1]`.
pub open spec fn wf_amplitudes(s: Seq<i64>, scale: int) -> bool {
    &&& 1 <= scale
    &&& forall|i: int| 0 <= i < s.len() ==> -scale <= #[trigger] s[i] <= scale
}

/// Interleaved samples as decoded from an audio container, tagged with the
/// declared channel count and sample rate.
#[derive(Debug)]
pub struct SampleBuffer {
    /// Amplitude numerators, channel-interleaved.
    pub samples: Vec<i64>,
    /// Declared channel count.
    pub channels: u16,
    /// Samples per second.
    pub sample_rate: u32,
    /// Amplitude denominator.
    pub scale: i64,
}

/// A single-channel sample sequence, ready for framing.
#[derive(Debug)]
pub struct MonoBuffer {
    /// Amplitude numerators.
    pub samples: Vec<i64>,
    /// Amplitude denominator.
    pub scale: i64,
}

impl SampleBuffer {
    /// All amplitudes lie in `[-1, +1]`.
    pub open spec fn wf(self) -> bool {
        wf_amplitudes(self.samples@, self.scale as int)
    }

    /// What a successful channel reduction of `self` yields.
    ///
    /// Mono input passes through unchanged. Stereo input is folded pairwise:
    /// each output numerator is the sum of an interleaved (left, right) pair
    /// while the denominator doubles, so each output amplitude is exactly
    /// the arithmetic mean of its pair; a trailing unpaired sample is
    /// dropped. Any other channel count has no successful reduction.
    pub open spec fn reduced(self, m: MonoBuffer) -> bool {
        if self.channels == 1 {
            m.samples@ == self.samples@ && m.scale == self.scale
        } else if self.channels == 2 {
            &&& m.scale == 2 * self.scale
            &&& m.samples@.len() == self.samples@.len() / 2
            &&& forall|i: int|
                0 <= i < m.samples@.len() ==> #[trigger] m.samples@[i] == self.samples@[2 * i]
                    + self.samples@[2 * i + 1]
        } else {
            false
        }
    }

    /// Folds the interleaved samples into one mono channel: mono passes
    /// through, stereo pairs are averaged exactly, and any other declared
    /// layout is rejected.
    pub fn reduce_channels(self) -> (r: Result<MonoBuffer, PipelineError>)
        requires
            self.wf(),
            self.channels == 2 ==> self.scale <= i64::MAX / 2,
        ensures
            match r {
                Ok(m) => self.reduced(m) && m.wf(),
                Err(e) => {
                    &&& e == PipelineError::UnsupportedChannelLayout
                    &&& self.channels != 1
                    &&& self.channels != 2
                },
            },
    {
        if self.channels == 1 {
            Ok(MonoBuffer { samples: self.samples, scale: self.scale })
        } else if self.channels == 2 {
            let len: usize = self.samples.len();
            let n: usize = len / 2;
            let mut out: Vec<i64> = Vec::new();
            let mut i: usize = 0;
            while i < n
                invariant
                    self.wf(),
                    self.scale <= i64::MAX / 2,
                    len == self.samples@.len(),
                    n == self.samples@.len() / 2,
                    i <= n,
                    out@.len() == i,
                    forall|j: int|
                        0 <= j < i ==> #[trigger] out@[j] == self.samples@[2 * j]
                            + self.samples@[2 * j + 1],
                decreases n - i,
            {
                proof {
                    assert(2 * i + 1 < self.samples@.len());
                }
                let left = self.samples[2 * i];
                let right = self.samples[2 * i + 1];
                out.push(left + right);
                i += 1;
            }
            Ok(MonoBuffer { samples: out, scale: 2 * self.scale })
        } else {
            Err(PipelineError::UnsupportedChannelLayout)
        }
    }
}

impl MonoBuffer {
    /// All amplitudes lie in `[-1, +1]`.
    pub open spec fn wf(self) -> bool {
        wf_amplitudes(self.samples@, self.scale as int)
    }
}

/// Builds a sample buffer from raw 16-bit PCM samples under the symmetric
/// scale `32768`, so each stored sample `v` stands for the amplitude
/// `v / 32768`.
pub fn from_pcm16(samples: &Vec<i16>, channels: u16, sample_rate: u32) -> (r: SampleBuffer)
    ensures
        r.samples@.len() == samples@.len(),
        forall|i: int| 0 <= i < samples@.len() ==> #[trigger] r.samples@[i] == samples@[i] as int,
        r.channels == channels,
        r.sample_rate == sample_rate,
        r.scale == PCM16_SCALE,
        r.wf(),
{
    let mut out: Vec<i64> = Vec::new();
    let mut i: usize = 0;
    while i < samples.len()
        invariant
            i <= samples@.len(),
            out@.len() == i,
            forall|j: int| 0 <= j < i ==> #[trigger] out@[j] == samples@[j] as int,
        decreases samples@.len() - i,
    {
        out.push(samples[i] as i64);
        i += 1;
    }
    SampleBuffer { samples: out, channels, sample_rate, scale: PCM16_SCALE }
}

/// Law: reducing an already-mono buffer is the identity on samples and
/// scale.
pub proof fn lemma_reduce_mono_identity(buf: SampleBuffer, m: MonoBuffer)
    requires
        buf.channels == 1,
        buf.reduced(m),
    ensures
        m.samples@ == buf.samples@,
        m.scale == buf.scale,
{
}

/// Law: channel reduction is deterministic — the description of a
/// successful reduction pins the mono buffer exactly, so results are
/// reproducible across runs.
pub proof fn lemma_reduced_unique(buf: SampleBuffer, m1: MonoBuffer, m2: MonoBuffer)
    requires
        buf.reduced(m1),
        buf.reduced(m2),
    ensures
        m1.samples@ == m2.samples@,
        m1.scale == m2.scale,
{
    if buf.channels == 2 {
        assert(m1.samples@ =~= m2.samples@);
    }
}

/// Law: a stereo reduction halves the length (rounding down, so a trailing
/// unpaired sample is dropped) and each output amplitude is exactly the
/// arithmetic mean of its input pair. With amplitudes read as rationals,
/// `m.samples[i] / m.scale == (buf.samples[2i] + buf.samples[2i+1]) / (2 * buf.scale)`,
/// stated here with the denominators cleared.
pub proof fn lemma_reduce_stereo_mean(buf: SampleBuffer, m: MonoBuffer)
    requires
        buf.channels == 2,
        buf.reduced(m),
    ensures
        m.samples@.len() == buf.samples@.len() / 2,
        forall|i: int|
            0 <= i < m.samples@.len() ==> #[trigger] (m.samples@[i] * (2 * buf.scale)) == (
            buf.samples@[2 * i] + buf.samples@[2 * i + 1]) * m.scale,
{
    assert forall|i: int| 0 <= i < m.samples@.len() implies #[trigger] (m.samples@[i] * (2
        * buf.scale)) == (buf.samples@[2 * i] + buf.samples@[2 * i + 1]) * m.scale by {
        assert(m.samples@[i] == buf.samples@[2 * i] + buf.samples@[2 * i + 1]);
        assert(m.scale == 2 * buf.scale);
    }
}

} // verus!
