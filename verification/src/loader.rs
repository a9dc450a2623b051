//! Decoding a WAVE container, held in memory, into a sample buffer.
//!
//! Opening and reading the file itself is left to the caller outside this
//! crate; the decoding of the bytes is a pure function of the bytes and is
//! done here, through `hound`.

use vstd::prelude::*;

use crate::audio::PCM16_SCALE;
use crate::audio::SampleBuffer;
use crate::audio::from_pcm16;
use crate::errors::PipelineError;

verus! {

/// What `hound` decodes from a WAVE container held in the given bytes:
/// nothing when the header cannot be parsed, else the declared channel
/// count, the declared sample rate, and the 16-bit samples in file order
/// (with any sample that fails to decode dropped).
pub uninterp spec fn wav_decode_of(b: Seq<u8>) -> Option<(u16, u32, Seq<i16>)>;

/// Relies on `hound::WavReader::new` to parse the RIFF/WAVE header and on
/// `WavReader::samples::<i16>` to decode the samples. Both read from an
/// in-memory cursor, so the result depends on the bytes alone. A sample
/// that fails to decode is dropped rather than surfaced, as
/// `wav_decode_of` already accounts for.
#[verifier::external_body]
fn decode_wav_bytes(bytes: &Vec<u8>) -> (r: Option<(u16, u32, Vec<i16>)>)
    ensures
        match r {
            Some(t) => wav_decode_of(bytes@) == Some((t.0, t.1, t.2@)),
            None => wav_decode_of(bytes@) is None,
        },
{
    match hound::WavReader::new(std::io::Cursor::new(bytes.as_slice())) {
        Ok(mut reader) => {
            let spec = reader.spec();
            let samples: Vec<i16> = reader.samples::<i16>().filter_map(Result::ok).collect();
            Some((spec.channels, spec.sample_rate, samples))
        },
        Err(_) => None,
    }
}

/// Decodes a WAVE container into a sample buffer under the symmetric
/// 16-bit PCM scale, so every amplitude lies in `[-1, +1]`. Fails with
/// `Format` exactly when the container's header cannot be parsed.
pub fn load_wav(bytes: &Vec<u8>) -> (r: Result<SampleBuffer, PipelineError>)
    ensures
        match r {
            Ok(buf) => {
                &&& buf.scale == PCM16_SCALE
                &&& buf.wf()
                &&& wav_decode_of(bytes@) matches Some(t) && buf.channels == t.0
                    && buf.sample_rate == t.1 && buf.samples@.len() == t.2.len() && (forall|i: int|
                    0 <= i < t.2.len() ==> #[trigger] buf.samples@[i] == t.2[i] as int)
            },
            Err(e) => e == PipelineError::Format && wav_decode_of(bytes@) is None,
        },
{
    match decode_wav_bytes(bytes) {
        Some((channels, sample_rate, samples)) => Ok(
            from_pcm16(&samples, channels, sample_rate),
        ),
        None => Err(PipelineError::Format),
    }
}

} // verus!
