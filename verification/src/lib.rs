//! Shared playback for a group of peers.

use vstd::prelude::*;

pub mod app;
pub mod audio;
pub mod audio_output;
pub mod base32;
pub mod clock;
pub mod decoder;
pub mod digest;
pub mod frame_cache;
pub mod message;
pub mod mpv;
pub mod node;
pub mod peers;
pub mod ticket;
pub mod video;
pub mod wire;

verus! {

/// A path in the file system, as the standard library holds it.
#[verifier::external_type_specification]
#[verifier::external_body]
pub struct ExPathBuf(std::path::PathBuf);

/// The command line.
#[derive(Debug, PartialEq, Eq)]
pub struct Cli {
    pub command: Command,
}

/// What the program is asked to do.
#[derive(Debug, PartialEq, Eq)]
pub enum Command {
    Create { video: std::path::PathBuf },
    Join { ticket: String },
}

/// What the window reacts to.
#[derive(Debug, PartialEq, Eq)]
pub enum Event {
    PeerEvent(message::Event),
    RedrawRequested(core::time::Duration),
    VideoFrame(video::VideoFrame),
}

/// A frame as it comes from the decoder.
#[derive(Debug, PartialEq, Eq)]
pub enum FfmpegFrame<T> {
    Video(std::sync::Arc<T>),
}

} // verus!
