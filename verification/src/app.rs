//! The window in which the video is shown.

use crate::frame_cache::{due, first_frame, FrameCache};
use crate::FfmpegFrame;
use std::sync::Arc;
use vstd::prelude::*;

verus! {

/// The number of frames from which on no more are taken from the decoder.
pub const CACHED_FRAMES: usize = 10;

/// What is kept from one redraw to the next.
pub struct App<T> {
    frame_cache: FrameCache<T>,
    has_texture: bool,
}

/// What to do at a redraw.
pub struct Update<T> {
    /// Whether the texture has to be made first.
    pub load_texture: bool,
    /// The frame to show.
    pub frame: Option<Arc<T>>,
    /// Whether to take the frames that the decoder has ready.
    pub take_frames: bool,
}

impl<T> View for App<T> {
    type V = Seq<(i64, Arc<T>)>;

    /// The frames that wait to be shown, each with its time stamp in ticks.
    closed spec fn view(&self) -> Seq<(i64, Arc<T>)> {
        self.frame_cache@
    }
}

impl<T> App<T> {
    /// Whether the texture has been made.
    pub closed spec fn textured(&self) -> bool {
        self.has_texture
    }

    #[verifier::type_invariant]
    spec fn well_formed(self) -> bool {
        self.frame_cache.limit() == CACHED_FRAMES
    }

    /// A window that shows nothing yet.
    pub fn new() -> (app: App<T>)
        ensures
            app@ == Seq::<(i64, Arc<T>)>::empty(),
            !app.textured(),
    {
        App { frame_cache: FrameCache::new(CACHED_FRAMES), has_texture: false }
    }

    /// What to do at a redraw when playback has come to the time `timestamp`,
    /// in ticks. Frames whose time is over are dropped.
    pub fn update(&mut self, timestamp: i64) -> (update: Update<T>)
        ensures
            final(self)@ == due(old(self)@, timestamp),
            final(self).textured(),
            update.load_texture == !old(self).textured(),
            update.frame == first_frame(final(self)@),
            final(self)@.len() > 0 ==> update.frame == Some(final(self)@[0].1),
            final(self)@.len() == 0 ==> update.frame is None,
            update.take_frames == (final(self)@.len() < CACHED_FRAMES),
            update.take_frames == (final(self)@.len() < 10),
    {
        proof {
            use_type_invariant(&*self);
        }
        let load_texture = !self.has_texture;
        self.has_texture = true;
        let mut cache = FrameCache::new(CACHED_FRAMES);
        std::mem::swap(&mut cache, &mut self.frame_cache);
        let frame = cache.get_and_evict(timestamp);
        let take_frames = !cache.is_full();
        self.frame_cache = cache;
        Update { load_texture, frame, take_frames }
    }

    /// Keeps a frame from the decoder until its time has come.
    pub fn receive(&mut self, timestamp: i64, frame: FfmpegFrame<T>)
        ensures
            final(self)@ == old(self)@.push(
                (
                    timestamp,
                    match frame {
                        FfmpegFrame::Video(frame) => frame,
                    },
                ),
            ),
            final(self).textured() == old(self).textured(),
    {
        proof {
            use_type_invariant(&*self);
        }
        let mut cache = FrameCache::new(CACHED_FRAMES);
        std::mem::swap(&mut cache, &mut self.frame_cache);
        match frame {
            FfmpegFrame::Video(frame) => cache.insert(timestamp, frame),
        }
        self.frame_cache = cache;
    }
}

} // verus!
