//! A small sound-classification pipeline: decode PCM audio into scaled
//! integer amplitudes, fold stereo down to mono, frame the samples into a
//! fixed-shape tensor for an inference engine, and rank the engine's class
//! scores against an ordered label catalog.
//!
//! Amplitudes are kept as exact integer numerators over a per-buffer scale
//! denominator, so every arithmetic step of the pipeline is exact and
//! verified; conversion to floating point happens only at the engine
//! boundary, outside this crate.

mod audio;
mod errors;
mod frame;
mod loader;
mod pipeline;
mod rank;

pub use audio::MonoBuffer;
pub use audio::SampleBuffer;
pub use audio::PCM16_SCALE;
pub use audio::from_pcm16;
pub use audio::lemma_reduce_mono_identity;
pub use audio::lemma_reduced_unique;
pub use audio::lemma_reduce_stereo_mean;
pub use audio::wf_amplitudes;
pub use errors::PipelineError;
pub use frame::FramedTensor;
pub use frame::FramingPolicy;
pub use frame::check_engine_shape;
pub use frame::fixed_frame_of;
pub use frame::frame;
pub use frame::frame_fixed;
pub use frame::frame_flat;
pub use frame::framed;
pub use frame::shape_elements;
pub use loader::load_wav;
pub use loader::wav_decode_of;
pub use pipeline::PipelineConfig;
pub use pipeline::preprocess;
pub use rank::ScoredIndex;
pub use rank::analyze_output;
pub use rank::contains_index;
pub use rank::distinct_indices;
pub use rank::entries_of;
pub use rank::full_ranking;
pub use rank::lemma_full_catalog_resolves;
pub use rank::lemma_top_k_dominates;
pub use rank::lemma_top_k_unique;
pub use rank::precedes;
pub use rank::rank_top_k;
pub use rank::resolve_labels;
pub use rank::sorted_ranking;
pub use rank::spec_label;
pub use rank::top_k_of;
