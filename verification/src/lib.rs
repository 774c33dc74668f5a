//! Synchronous multi-channel audio on top of stream callbacks: the control
//! state of the streams, the buffers handed between callers and callbacks,
//! and the alignment of a recording to a loopback timing signal.

pub mod audio_class;
pub mod channels;
pub mod methods;
pub mod missing_device_error;
pub mod sample_formats;
pub mod sample_rates;
pub mod stream_controller;
pub mod time_align;
