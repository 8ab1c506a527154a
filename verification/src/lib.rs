//! Core of a streaming microphone client: the connection state machine,
//! the wire-stream decoding and smoothing, the bounded sample buffer
//! bridging the network and audio contexts, and the control-channel glue.

pub mod audio;
pub mod buffer;
pub mod codec;
pub mod common;
pub mod event_loop;
pub mod gui;
pub mod seeker;
pub mod socket;
