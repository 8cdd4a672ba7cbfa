//! A streaming sample-rate conversion library.
//!
//! The engine takes buffers of audio samples at one rate and produces
//! buffers resampled to another rate.  It supports packed (interleaved)
//! and planar (per-channel) layouts, a fixed channel count chosen at
//! construction, flushing of buffered history at end of stream, and
//! run-time changes of the conversion ratio with a configurable slew.

mod data_type;
mod error;
mod specs;
mod sxor;

pub use data_type::DataType;
pub use error::Error;
pub use specs::IOSpec;
pub use specs::QualityFlags;
pub use specs::QualityRecipe;
pub use specs::QualitySpec;
pub use specs::RuntimeSpec;
pub use error::input_mismatch_msg;
pub use error::invalid_channels_msg;
pub use error::invalid_quality_msg;
pub use error::invalid_rate_msg;
pub use error::invalid_ratio_msg;
pub use error::output_mismatch_msg;
pub use error::packed_misaligned_msg;
pub use error::planar_unequal_msg;
pub use error::unsupported_data_type_msg;
pub use sxor::DynamicSample;
pub use sxor::EngineState;
pub use sxor::FRAC_ONE;
pub use sxor::Packed;
pub use sxor::Planar;
pub use sxor::STEP_MAX;
pub use sxor::Sample;
pub use sxor::SampleBuffer;
pub use sxor::SampleBufferMut;
pub use sxor::Soxr;
pub use sxor::dyn_input_mismatch;
pub use sxor::dyn_output_mismatch;
pub use sxor::engine_name;
pub use sxor::lemma_flush_drains;
pub use sxor::lemma_flush_stuck_noop;
pub use sxor::lemma_interp_zero;
pub use sxor::lemma_silence_preserved;
pub use sxor::merged_state;
pub use sxor::opt_all_zero;
pub use sxor::opt_channels_ok;
pub use sxor::opt_in_frames;
pub use sxor::opt_is_planar;
pub use sxor::opt_lengths_ok;
pub use sxor::process_args_ok;
pub use sxor::process_ok_post;
pub use sxor::spec_interp;
pub use sxor::spec_step;
pub use sxor::step_between;
pub use sxor::version_name;
