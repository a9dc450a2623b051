use soundrank::from_pcm16;
use soundrank::PipelineError;
use soundrank::SampleBuffer;
use soundrank::PCM16_SCALE;

#[test]
fn pcm16_widening_keeps_samples_and_metadata() {
    let raw: Vec<i16> = vec![0, 1, -1, i16::MAX, i16::MIN];
    let buf = from_pcm16(&raw, 1, 16000);
    assert_eq!(buf.samples, vec![0i64, 1, -1, 32767, -32768]);
    assert_eq!(buf.channels, 1);
    assert_eq!(buf.sample_rate, 16000);
    assert_eq!(buf.scale, PCM16_SCALE);
    assert_eq!(buf.scale, 32768);
}

#[test]
fn mono_buffer_reduces_to_itself() {
    let raw: Vec<i16> = vec![3, -5, 7];
    let buf = from_pcm16(&raw, 1, 16000);
    let mono = buf.reduce_channels().unwrap();
    assert_eq!(mono.samples, vec![3i64, -5, 7]);
    assert_eq!(mono.scale, 32768);
}

#[test]
fn stereo_pairs_average_exactly() {
    // Numerators over scale 10: pairs (2,4), (6,8) have means 3/10 and
    // 7/10, stored exactly as 6/20 and 14/20.
    let buf = SampleBuffer { samples: vec![2, 4, 6, 8], channels: 2, sample_rate: 8000, scale: 10 };
    let mono = buf.reduce_channels().unwrap();
    assert_eq!(mono.samples, vec![6i64, 14]);
    assert_eq!(mono.scale, 20);
}

#[test]
fn stereo_odd_trailing_sample_is_dropped() {
    let buf = SampleBuffer {
        samples: vec![2, 4, 6, 8, 5],
        channels: 2,
        sample_rate: 8000,
        scale: 10,
    };
    let mono = buf.reduce_channels().unwrap();
    assert_eq!(mono.samples, vec![6i64, 14]);
    assert_eq!(mono.scale, 20);
}

#[test]
fn stereo_halves_reduce_to_half_amplitudes() {
    // The spec scenario: stereo amplitudes [1.0, 0.0, 0.0, 1.0, 0.5, 0.5]
    // reduce to mono [0.5, 0.5, 0.5]. Amplitudes are carried as numerators
    // over a scale of 4.
    let amps: [f32; 6] = [1.0, 0.0, 0.0, 1.0, 0.5, 0.5];
    let scale: i64 = 4;
    let samples: Vec<i64> = amps.iter().map(|a| (a * scale as f32) as i64).collect();
    let buf = SampleBuffer { samples, channels: 2, sample_rate: 16000, scale };
    let mono = buf.reduce_channels().unwrap();
    assert_eq!(mono.samples.len(), 3);
    for v in mono.samples.iter() {
        assert_eq!(*v as f32 / mono.scale as f32, 0.5f32);
    }
    assert_eq!(mono.samples, vec![4i64, 4, 4]);
    assert_eq!(mono.scale, 8);
}

#[test]
fn five_point_one_layout_is_rejected() {
    let buf = SampleBuffer {
        samples: vec![1, 2, 3, 4, 5, 6],
        channels: 6,
        sample_rate: 48000,
        scale: 10,
    };
    let err = buf.reduce_channels().unwrap_err();
    assert_eq!(err, PipelineError::UnsupportedChannelLayout);
}

#[test]
fn zero_channel_layout_is_rejected() {
    let buf = SampleBuffer { samples: vec![], channels: 0, sample_rate: 48000, scale: 10 };
    let err = buf.reduce_channels().unwrap_err();
    assert_eq!(err, PipelineError::UnsupportedChannelLayout);
}

#[test]
fn error_messages_name_the_failure() {
    assert_eq!(PipelineError::Io.message(), "cannot open or read file");
    assert_eq!(PipelineError::Format.message(), "cannot parse audio container");
    assert_eq!(PipelineError::Shape.message(), "declared tensor shape has no elements");
    assert_eq!(
        PipelineError::ShapeMismatch.message(),
        "tensor shape disagrees with the engine input"
    );
    assert_eq!(
        PipelineError::UnsupportedChannelLayout.message(),
        "channel count is neither mono nor stereo"
    );
}
