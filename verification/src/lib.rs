//! Real-time audio transport and fixed-point filtering.
//!
//! The crate moves interleaved PCM samples between a capture side and a
//! playback side through a bounded ring buffer, and shapes 16-bit streams
//! with biquad-based filters (high-pass of order one to eight, notch and
//! peaking). Every function states what it returns and changes, and the
//! statements are proved by Verus.

pub mod base;
pub mod filters;
pub mod frames;
pub mod ring_buffers;
pub mod transport;

pub use base::Error;
pub use base::Format;
pub use base::MAX_CHANNELS;
pub use base::MAX_FILTER_ORDER;
pub use filters::biquad_filtering::Biquad;
pub use filters::biquad_filtering::BiquadCoefficients;
pub use filters::biquad_filtering::BiquadConfig;
pub use filters::high_pass_filtering::HPFCoefficients;
pub use filters::high_pass_filtering::HPFConfig;
pub use filters::high_pass_filtering::HPF1Config;
pub use filters::high_pass_filtering::HPF2Config;
pub use filters::high_pass_filtering::HPF;
pub use filters::high_pass_filtering::HPF1;
pub use filters::high_pass_filtering::HPF2;
pub use filters::notching_filter::Notch2;
pub use filters::notching_filter::Notch2Config;
pub use filters::peaking_eq_filter::Peak2;
pub use filters::peaking_eq_filter::Peak2Config;
pub use filters::Filter;
pub use frames::Frames;
pub use frames::FramesMut;
pub use ring_buffers::ring_buffer;
pub use ring_buffers::RingBuffer;
pub use ring_buffers::RingBufferRecv;
pub use ring_buffers::RingBufferSend;
pub use transport::capture_callback;
pub use transport::fill_silence;
pub use transport::playback_callback;
pub use transport::playback_from;
pub use transport::Transfer;
pub use transport::DEFAULT_ATTEMPTS;
