//! The workers that turn a file into frames and samples.
//!
//! A file with sound has three workers: one reads packets, one decodes sound
//! and one decodes pictures. A file without has one that does all. Each worker
//! performs an action, reports what came of it, and is told the next action.

use crate::audio::{
    pop_step, ChannelLayout, SampleFormat, AudioConfig, AudioDecoder, AudioError, PopStep, Rational, Received, ResamplerTarget,
};
use crate::video::PixelFormat;
use vstd::prelude::*;

verus! {

/// The video stream of a file.
#[derive(Clone, Copy, Debug, PartialEq, Eq, Structural)]
pub struct VideoStream {
    pub index: usize,
    pub time_base: Rational,
    pub width: u32,
    pub height: u32,
}

/// The workers of a file, with the streams that they decode.
#[derive(Clone, Copy, Debug, PartialEq, Eq, Structural)]
pub enum Workers {
    /// One worker for pictures alone.
    VideoOnly { video: usize },
    /// A worker for packets, one for sound and one for pictures.
    AudioAndVideo { video: usize, audio: usize },
}

/// How a file is decoded.
#[derive(Clone, Copy, Debug, PartialEq, Eq, Structural)]
pub struct DecoderPlan {
    /// The duration of a tick of the frames' time stamps.
    pub time_base: Rational,
    pub width: u32,
    pub height: u32,
    pub workers: Workers,
}

/// Why a file cannot be decoded.
#[derive(Clone, Copy, Debug, PartialEq, Eq, Structural)]
pub enum DecoderError {
    NoVideoStream,
}

impl DecoderError {
    /// The message for the user.
    pub fn message(&self) -> (text: String)
        ensures
            text@ == "No video stream"@,
    {
        "No video stream".to_owned()
    }
}

/// How the file is decoded whose best streams these are.
///
/// Fails exactly where there is no video stream.
pub fn spawn_decoder(video: Option<VideoStream>, audio: Option<usize>) -> (plan: Result<
    DecoderPlan,
    DecoderError,
>)
    ensures
        match video {
            None => plan == Err::<DecoderPlan, DecoderError>(DecoderError::NoVideoStream),
            Some(video) => plan matches Ok(plan) && {
                &&& plan.time_base == video.time_base
                &&& plan.width == video.width
                &&& plan.height == video.height
                &&& plan.workers == match audio {
                    Some(audio) => Workers::AudioAndVideo { video: video.index, audio },
                    None => Workers::VideoOnly { video: video.index },
                }
            },
        },
{
    let video = match video {
        Some(video) => video,
        None => return Err(DecoderError::NoVideoStream),
    };
    let workers = match audio {
        Some(audio) => Workers::AudioAndVideo { video: video.index, audio },
        None => Workers::VideoOnly { video: video.index },
    };
    Ok(
        DecoderPlan {
            time_base: video.time_base,
            width: video.width,
            height: video.height,
            workers,
        },
    )
}

/// What the worker for packets reports.
#[derive(Clone, Copy, Debug, PartialEq, Eq, Structural)]
pub enum DemuxEvent {
    /// The user wants to go to this time stamp.
    Seek(i64),
    /// The user can no longer want anything.
    SeekClosed,
    /// The user wants nothing for now.
    NoSeek,
    /// The file was moved to the time stamp, or could not be.
    Sought(bool),
    /// A packet of the stream with this index was read.
    Packet(usize),
    /// There are no more packets.
    NoPacket,
    /// The packet was handed to the worker for pictures, or could not be.
    VideoSent(bool),
    /// The packet was handed to the worker for sound, or could not be.
    AudioSent(bool),
}

/// What the worker for packets does next.
#[derive(Clone, Copy, Debug, PartialEq, Eq, Structural)]
pub enum DemuxAction {
    /// Look whether the user wants to go somewhere.
    Poll,
    /// Move the file to this time stamp or behind it.
    Seek(i64),
    /// Read a packet.
    Read,
    SendVideo,
    SendAudio,
    Stop,
}

/// What the worker for packets does after an event, where `video` and `audio`
/// are the indices of the two streams.
///
/// A packet that no worker takes is dropped. A worker for pictures that is gone
/// is no reason to stop, one for sound is.
pub open spec fn demux_step(video: usize, audio: usize, event: DemuxEvent) -> DemuxAction {
    match event {
        DemuxEvent::Seek(timestamp) => DemuxAction::Seek(timestamp),
        DemuxEvent::SeekClosed => DemuxAction::Poll,
        DemuxEvent::NoSeek => DemuxAction::Read,
        DemuxEvent::Sought(true) => DemuxAction::Poll,
        DemuxEvent::Sought(false) => DemuxAction::Stop,
        DemuxEvent::Packet(index) => if index == video {
            DemuxAction::SendVideo
        } else if index == audio {
            DemuxAction::SendAudio
        } else {
            DemuxAction::Read
        },
        DemuxEvent::NoPacket => DemuxAction::Poll,
        DemuxEvent::VideoSent(_) => DemuxAction::Read,
        DemuxEvent::AudioSent(true) => DemuxAction::Read,
        DemuxEvent::AudioSent(false) => DemuxAction::Stop,
    }
}

/// What the worker for packets does after an event, where `video` and `audio`
/// are the indices of the two streams. It begins with [`DemuxAction::Poll`].
pub fn demux(video: usize, audio: usize, event: DemuxEvent) -> (action: DemuxAction)
    ensures
        action == demux_step(video, audio, event),
        event matches DemuxEvent::Seek(timestamp) ==> action == DemuxAction::Seek(timestamp),
        event matches DemuxEvent::Packet(index) ==> {
            &&& index == video ==> action == DemuxAction::SendVideo
            &&& index != video && index == audio ==> action == DemuxAction::SendAudio
            &&& index != video && index != audio ==> action == DemuxAction::Read
        },
{
    match event {
        DemuxEvent::Seek(timestamp) => DemuxAction::Seek(timestamp),
        DemuxEvent::SeekClosed => DemuxAction::Poll,
        DemuxEvent::NoSeek => DemuxAction::Read,
        DemuxEvent::Sought(done) => {
            if done {
                DemuxAction::Poll
            } else {
                DemuxAction::Stop
            }
        },
        DemuxEvent::Packet(index) => {
            if index == video {
                DemuxAction::SendVideo
            } else if index == audio {
                DemuxAction::SendAudio
            } else {
                DemuxAction::Read
            }
        },
        DemuxEvent::NoPacket => DemuxAction::Poll,
        DemuxEvent::VideoSent(_) => DemuxAction::Read,
        DemuxEvent::AudioSent(done) => {
            if done {
                DemuxAction::Read
            } else {
                DemuxAction::Stop
            }
        },
    }
}

/// What the worker for sound reports.
#[derive(Clone, Copy, Debug, PartialEq, Eq, Structural)]
pub enum AudioEvent {
    /// The user wants to go somewhere, or can no longer want anything.
    Seek,
    /// The decoder was flushed, and the packets that waited are gone.
    Drained,
    /// There is a packet.
    Packet,
    /// There will be no more packets.
    PacketsClosed,
    /// The packet was given to the decoder, or could not be.
    Pushed(bool),
    /// This is what the decoder gave.
    Received(Received),
    /// The resampler was made, or could not be.
    ResamplerMade(bool),
    /// The samples of the frame are in the ring.
    Played,
}

/// What the worker for sound does next.
#[derive(Clone, Copy, Debug, PartialEq, Eq, Structural)]
pub enum AudioAction {
    /// Wait for a packet, or for the user.
    Wait,
    /// Flush the decoder and drop all packets that wait.
    FlushAndDrain,
    /// Give the packet to the decoder.
    Push,
    /// Ask the decoder for a frame.
    Pop,
    MakeResampler(ResamplerTarget),
    /// Resample the frame and put its samples into the ring.
    Play,
    /// Note the error, and wait for a packet or for the user.
    Report(AudioError),
    Stop,
}

/// What the worker for sound does after an event, where `resampler` is the
/// resampler that was made for an earlier frame.
pub open spec fn audio_step(
    config: AudioConfig,
    resampler: Option<ResamplerTarget>,
    event: AudioEvent,
) -> AudioAction {
    match event {
        AudioEvent::Seek => AudioAction::FlushAndDrain,
        AudioEvent::Drained => AudioAction::Wait,
        AudioEvent::Packet => AudioAction::Push,
        AudioEvent::PacketsClosed => AudioAction::Stop,
        AudioEvent::Pushed(true) => AudioAction::Pop,
        AudioEvent::Pushed(false) => AudioAction::Wait,
        AudioEvent::Received(received) => match pop_step(config, resampler, received) {
            PopStep::Empty => AudioAction::Wait,
            PopStep::Resample { .. } => AudioAction::Play,
            PopStep::MakeResampler { target, .. } => AudioAction::MakeResampler(target),
            PopStep::Fail(error) => AudioAction::Report(error),
        },
        AudioEvent::ResamplerMade(true) => AudioAction::Play,
        AudioEvent::ResamplerMade(false) => AudioAction::Wait,
        AudioEvent::Played => AudioAction::Pop,
    }
}

/// The resampler after an event.
pub open spec fn resampler_after(
    config: AudioConfig,
    resampler: Option<ResamplerTarget>,
    event: AudioEvent,
) -> Option<ResamplerTarget> {
    if event == AudioEvent::ResamplerMade(true) {
        config.target_model()
    } else {
        resampler
    }
}

impl AudioDecoder {
    /// What the worker for sound does after an event. It begins with
    /// [`AudioAction::Wait`].
    pub fn step(&mut self, event: AudioEvent) -> (action: AudioAction)
        ensures
            action == audio_step(old(self).spec_config(), old(self).spec_resampler(), event),
            final(self).spec_config() == old(self).spec_config(),
            final(self).spec_time_base() == old(self).spec_time_base(),
            final(self).spec_resampler() == resampler_after(
                old(self).spec_config(),
                old(self).spec_resampler(),
                event,
            ),
    {
        match event {
            AudioEvent::Seek => AudioAction::FlushAndDrain,
            AudioEvent::Drained => AudioAction::Wait,
            AudioEvent::Packet => AudioAction::Push,
            AudioEvent::PacketsClosed => AudioAction::Stop,
            AudioEvent::Pushed(done) => {
                if done {
                    AudioAction::Pop
                } else {
                    AudioAction::Wait
                }
            },
            AudioEvent::Received(received) => match self.pop_frame(received) {
                PopStep::Empty => AudioAction::Wait,
                PopStep::Resample { .. } => AudioAction::Play,
                PopStep::MakeResampler { target, .. } => AudioAction::MakeResampler(target),
                PopStep::Fail(error) => AudioAction::Report(error),
            },
            AudioEvent::ResamplerMade(done) => {
                if done {
                    self.resampler_made();
                    AudioAction::Play
                } else {
                    AudioAction::Wait
                }
            },
            AudioEvent::Played => AudioAction::Pop,
        }
    }
}

/// A decoded picture, as far as its conversion depends on it.
#[derive(Clone, Copy, Debug, PartialEq, Eq, Structural)]
pub struct DecodedFrame {
    /// The number of the pixel format.
    pub format: i32,
    pub width: u32,
    pub height: u32,
    pub timestamp: Option<i64>,
}

/// What a scaler takes.
#[derive(Clone, Copy, Debug, PartialEq, Eq, Structural)]
pub struct ScalerSource {
    pub format: i32,
    pub width: u32,
    pub height: u32,
}

/// How a scaler makes up pixels.
#[derive(Clone, Copy, Debug, PartialEq, Eq, Structural)]
pub enum Interpolation {
    Bilinear,
}

/// What a scaler gives.
#[derive(Clone, Copy, Debug, PartialEq, Eq, Structural)]
pub struct ScalerTarget {
    pub pixel_format: PixelFormat,
    pub width: u32,
    pub height: u32,
    pub interpolation: Interpolation,
}

impl ScalerSource {
    /// What the scaler for such pictures gives: pictures in RGBA of the same
    /// size, by bilinear interpolation.
    pub open spec fn target_model(self) -> ScalerTarget {
        ScalerTarget {
            pixel_format: PixelFormat::Rgba,
            width: self.width,
            height: self.height,
            interpolation: Interpolation::Bilinear,
        }
    }

    /// What the scaler for such pictures gives.
    pub fn target(&self) -> (target: ScalerTarget)
        ensures
            target == self.target_model(),
            target.pixel_format == PixelFormat::Rgba,
            target.width == self.width,
            target.height == self.height,
            target.interpolation == Interpolation::Bilinear,
    {
        ScalerTarget {
            pixel_format: PixelFormat::Rgba,
            width: self.width,
            height: self.height,
            interpolation: Interpolation::Bilinear,
        }
    }
}

impl DecodedFrame {
    /// The form of the picture.
    pub open spec fn source_model(self) -> ScalerSource {
        ScalerSource { format: self.format, width: self.width, height: self.height }
    }

    /// The time stamp under which the picture is delivered.
    pub open spec fn pts_model(self) -> i64 {
        match self.timestamp {
            Some(timestamp) => timestamp,
            None => 0,
        }
    }

    /// The form of the picture.
    fn source(&self) -> (source: ScalerSource)
        ensures
            source == self.source_model(),
            source.format == self.format,
            source.width == self.width,
            source.height == self.height,
    {
        ScalerSource { format: self.format, width: self.width, height: self.height }
    }

    /// The time stamp under which the picture is delivered.
    fn pts(&self) -> (pts: i64)
        ensures
            pts == self.pts_model(),
            self.timestamp matches Some(timestamp) ==> pts == timestamp,
            self.timestamp is None ==> pts == 0,
    {
        match self.timestamp {
            Some(timestamp) => timestamp,
            None => 0,
        }
    }
}

/// What a worker for pictures reports of a packet.
#[derive(Clone, Copy, Debug, PartialEq, Eq, Structural)]
pub enum FrameEvent {
    /// The packet was given to the decoder, or could not be.
    Sent(bool),
    /// The decoder gave a picture.
    Frame(DecodedFrame),
    /// The decoder gave none.
    NoFrame,
    /// The scaler was made, or could not be.
    ScalerMade(bool),
    /// The picture was converted, or could not be.
    Scaled(bool),
    /// The picture was delivered, or could not be.
    Delivered(bool),
}

/// What a worker for pictures does next with a packet.
#[derive(Clone, Copy, Debug, PartialEq, Eq, Structural)]
pub enum FrameAction {
    /// Go on to the next packet.
    NextPacket,
    /// Ask the decoder for a picture.
    Receive,
    MakeScaler(ScalerSource),
    /// Convert the picture.
    Scale,
    /// Deliver the converted picture, which has this form, under this time
    /// stamp.
    Deliver { pts: i64, picture: ScalerTarget },
    Stop,
}

/// The conversion of the pictures of a stream: the latest picture that was
/// taken, and the scaler, which is made for the first picture and kept.
#[derive(Clone, Copy, Debug, PartialEq, Eq, Structural)]
pub struct FrameLoop {
    pub frame: Option<DecodedFrame>,
    pub scaler: Option<ScalerSource>,
}

/// What to do after an event, and what is then known.
///
/// The scaler converts pictures of the form that it was made for and no others:
/// a picture of another form is an error. Only a picture that was taken and a
/// scaler that was made give something to deliver.
pub open spec fn frame_step(state: FrameLoop, event: FrameEvent) -> (FrameLoop, FrameAction) {
    match event {
        FrameEvent::Sent(true) => (state, FrameAction::Receive),
        FrameEvent::Sent(false) => (state, FrameAction::NextPacket),
        FrameEvent::Frame(frame) => match state.scaler {
            Some(scaler) => if scaler == frame.source_model() {
                (FrameLoop { frame: Some(frame), scaler: state.scaler }, FrameAction::Scale)
            } else {
                (state, FrameAction::Stop)
            },
            None => (
                FrameLoop { frame: Some(frame), scaler: None },
                FrameAction::MakeScaler(frame.source_model()),
            ),
        },
        FrameEvent::NoFrame => (state, FrameAction::NextPacket),
        FrameEvent::ScalerMade(true) => (
            FrameLoop {
                frame: state.frame,
                scaler: match (state.scaler, state.frame) {
                    (None, Some(frame)) => Some(frame.source_model()),
                    _ => state.scaler,
                },
            },
            FrameAction::Scale,
        ),
        FrameEvent::ScalerMade(false) => (state, FrameAction::Stop),
        FrameEvent::Scaled(true) => (
            state,
            match (state.frame, state.scaler) {
                (Some(frame), Some(scaler)) => FrameAction::Deliver {
                    pts: frame.pts_model(),
                    picture: scaler.target_model(),
                },
                _ => FrameAction::Stop,
            },
        ),
        FrameEvent::Scaled(false) => (state, FrameAction::Stop),
        FrameEvent::Delivered(true) => (state, FrameAction::Receive),
        FrameEvent::Delivered(false) => (state, FrameAction::Stop),
    }
}

impl FrameLoop {
    /// No picture and no scaler.
    pub fn new() -> (state: FrameLoop)
        ensures
            state.frame is None,
            state.scaler is None,
    {
        FrameLoop { frame: None, scaler: None }
    }

    /// What to do after an event.
    pub fn step(&mut self, event: FrameEvent) -> (action: FrameAction)
        ensures
            (*final(self), action) == frame_step(*old(self), event),
            event == FrameEvent::Scaled(true) && old(self).scaler is Some ==> {
                &&& old(self).frame matches Some(DecodedFrame { timestamp: Some(timestamp), .. })
                    ==> action matches FrameAction::Deliver { pts, .. } && pts == timestamp
                &&& old(self).frame matches Some(DecodedFrame { timestamp: None, .. }) ==> action
                    matches FrameAction::Deliver { pts, .. } && pts == 0
            },
    {
        match event {
            FrameEvent::Sent(done) => {
                if done {
                    FrameAction::Receive
                } else {
                    FrameAction::NextPacket
                }
            },
            FrameEvent::Frame(frame) => {
                let source = frame.source();
                match self.scaler {
                    Some(scaler) => {
                        if scaler != source {
                            return FrameAction::Stop;
                        }
                        self.frame = Some(frame);
                        FrameAction::Scale
                    },
                    None => {
                        self.frame = Some(frame);
                        FrameAction::MakeScaler(source)
                    },
                }
            },
            FrameEvent::NoFrame => FrameAction::NextPacket,
            FrameEvent::ScalerMade(done) => {
                if !done {
                    return FrameAction::Stop;
                }
                if self.scaler.is_none() {
                    if let Some(frame) = self.frame {
                        self.scaler = Some(frame.source());
                    }
                }
                FrameAction::Scale
            },
            FrameEvent::Scaled(done) => {
                if !done {
                    return FrameAction::Stop;
                }
                match (self.frame, self.scaler) {
                    (Some(frame), Some(scaler)) => FrameAction::Deliver {
                        pts: frame.pts(),
                        picture: scaler.target(),
                    },
                    _ => FrameAction::Stop,
                }
            },
            FrameEvent::Delivered(done) => {
                if done {
                    FrameAction::Receive
                } else {
                    FrameAction::Stop
                }
            },
        }
    }
}

/// What the worker for pictures beside one for packets reports.
#[derive(Clone, Copy, Debug, PartialEq, Eq, Structural)]
pub enum VideoEvent {
    /// There is a packet.
    Packet,
    /// There will be no more packets.
    PacketsClosed,
    Frames(FrameEvent),
}

/// What the worker for pictures beside one for packets does next.
#[derive(Clone, Copy, Debug, PartialEq, Eq, Structural)]
pub enum VideoAction {
    /// Wait for a packet.
    Wait,
    /// Give the packet to the decoder.
    Send,
    Frames(FrameAction),
    Stop,
}

/// What the worker for pictures beside one for packets does after an event.
pub open spec fn video_step(state: FrameLoop, event: VideoEvent) -> (FrameLoop, VideoAction) {
    match event {
        VideoEvent::Packet => (state, VideoAction::Send),
        VideoEvent::PacketsClosed => (state, VideoAction::Stop),
        VideoEvent::Frames(event) => {
            let (next, action) = frame_step(state, event);
            (
                next,
                match action {
                    FrameAction::NextPacket => VideoAction::Wait,
                    FrameAction::Stop => VideoAction::Stop,
                    action => VideoAction::Frames(action),
                },
            )
        },
    }
}

/// What the worker for a file without sound reports.
#[derive(Clone, Copy, Debug, PartialEq, Eq, Structural)]
pub enum SoloEvent {
    /// The user wants to go to this time stamp.
    Seek(i64),
    /// The user can no longer want anything.
    SeekClosed,
    /// The user wants nothing for now.
    NoSeek,
    /// The file was moved to the time stamp, or could not be.
    Sought(bool),
    /// The decoder was flushed.
    Flushed,
    /// A packet of the stream with this index was read.
    Packet(usize),
    /// There are no more packets.
    NoPacket,
    Frames(FrameEvent),
}

/// What the worker for a file without sound does next.
#[derive(Clone, Copy, Debug, PartialEq, Eq, Structural)]
pub enum SoloAction {
    /// Look whether the user wants to go somewhere.
    Poll,
    /// Move the file to this time stamp or behind it.
    Seek(i64),
    /// Flush the decoder.
    Flush,
    /// Read a packet.
    Read,
    /// Give the packet to the decoder.
    Send,
    /// Have the delivered picture shown, and ask the decoder for another.
    RepaintAndReceive,
    Frames(FrameAction),
    Stop,
}

/// What the worker for a file without sound does after an event, where `video`
/// is the index of the video stream.
pub open spec fn solo_step(video: usize, state: FrameLoop, event: SoloEvent) -> (
    FrameLoop,
    SoloAction,
) {
    match event {
        SoloEvent::Seek(timestamp) => (state, SoloAction::Seek(timestamp)),
        SoloEvent::SeekClosed => (state, SoloAction::Poll),
        SoloEvent::NoSeek => (state, SoloAction::Read),
        SoloEvent::Sought(true) => (state, SoloAction::Flush),
        SoloEvent::Sought(false) => (state, SoloAction::Stop),
        SoloEvent::Flushed => (state, SoloAction::Poll),
        SoloEvent::Packet(index) => (
            state,
            if index == video {
                SoloAction::Send
            } else {
                SoloAction::Poll
            },
        ),
        SoloEvent::NoPacket => (state, SoloAction::Stop),
        SoloEvent::Frames(FrameEvent::Delivered(true)) => (state, SoloAction::RepaintAndReceive),
        SoloEvent::Frames(event) => {
            let (next, action) = frame_step(state, event);
            (
                next,
                match action {
                    FrameAction::NextPacket => SoloAction::Poll,
                    FrameAction::Stop => SoloAction::Stop,
                    action => SoloAction::Frames(action),
                },
            )
        },
    }
}

impl FrameLoop {
    /// What the worker for pictures beside one for packets does after an event.
    /// It begins with [`VideoAction::Wait`].
    pub fn video(&mut self, event: VideoEvent) -> (action: VideoAction)
        ensures
            (*final(self), action) == video_step(*old(self), event),
    {
        match event {
            VideoEvent::Packet => VideoAction::Send,
            VideoEvent::PacketsClosed => VideoAction::Stop,
            VideoEvent::Frames(event) => match self.step(event) {
                FrameAction::NextPacket => VideoAction::Wait,
                FrameAction::Stop => VideoAction::Stop,
                action => VideoAction::Frames(action),
            },
        }
    }

    /// What the worker for a file without sound does after an event, where
    /// `video` is the index of the video stream. It begins with
    /// [`SoloAction::Poll`].
    pub fn solo(&mut self, video: usize, event: SoloEvent) -> (action: SoloAction)
        ensures
            (*final(self), action) == solo_step(video, *old(self), event),
            event matches SoloEvent::Packet(index) ==> {
                &&& index == video ==> action == SoloAction::Send
                &&& index != video ==> action == SoloAction::Poll
            },
            event matches SoloEvent::Seek(timestamp) ==> action == SoloAction::Seek(timestamp),
    {
        match event {
            SoloEvent::Seek(timestamp) => SoloAction::Seek(timestamp),
            SoloEvent::SeekClosed => SoloAction::Poll,
            SoloEvent::NoSeek => SoloAction::Read,
            SoloEvent::Sought(done) => {
                if done {
                    SoloAction::Flush
                } else {
                    SoloAction::Stop
                }
            },
            SoloEvent::Flushed => SoloAction::Poll,
            SoloEvent::Packet(index) => {
                if index == video {
                    SoloAction::Send
                } else {
                    SoloAction::Poll
                }
            },
            SoloEvent::NoPacket => SoloAction::Stop,
            SoloEvent::Frames(event) => match self.step(event) {
                FrameAction::NextPacket => SoloAction::Poll,
                FrameAction::Receive => {
                    if matches!(event, FrameEvent::Delivered(_)) {
                        SoloAction::RepaintAndReceive
                    } else {
                        SoloAction::Frames(FrameAction::Receive)
                    }
                },
                FrameAction::Stop => SoloAction::Stop,
                action => SoloAction::Frames(action),
            },
        }
    }
}

/// A packet goes to one worker at most, and one that both could take to the
/// worker for pictures. The user is asked before and after a pass through the
/// file, never during it. The worker ends only where the file could not be
/// moved or the worker for sound is gone.
pub proof fn lemma_demux(video: usize, audio: usize, event: DemuxEvent)
    ensures
        demux_step(video, audio, event) == DemuxAction::SendVideo <==> event == DemuxEvent::Packet(
            video,
        ),
        demux_step(video, audio, event) == DemuxAction::SendAudio <==> event == DemuxEvent::Packet(
            audio,
        ) && audio != video,
        demux_step(video, audio, event) == DemuxAction::Poll <==> {
            ||| event == DemuxEvent::SeekClosed
            ||| event == DemuxEvent::Sought(true)
            ||| event == DemuxEvent::NoPacket
        },
        demux_step(video, audio, event) == DemuxAction::Stop <==> {
            ||| event == DemuxEvent::Sought(false)
            ||| event == DemuxEvent::AudioSent(false)
        },
{
}

/// The resampler after some events.
pub open spec fn resampler_after_all(
    config: AudioConfig,
    resampler: Option<ResamplerTarget>,
    events: Seq<AudioEvent>,
) -> Option<ResamplerTarget>
    decreases events.len(),
{
    if events.len() == 0 {
        resampler
    } else {
        resampler_after(
            config,
            resampler_after_all(config, resampler, events.drop_last()),
            events.last(),
        )
    }
}

/// A resampler that gives what the output device takes is kept whatever
/// happens, and no other is asked for.
pub proof fn lemma_resampler_kept(config: AudioConfig, events: Seq<AudioEvent>, event: AudioEvent)
    requires
        config.target_model() is Some,
    ensures
        resampler_after_all(config, config.target_model(), events) == config.target_model(),
        !(audio_step(
            config,
            resampler_after_all(config, config.target_model(), events),
            event,
        ) is MakeResampler),
    decreases events.len(),
{
    if events.len() > 0 {
        lemma_resampler_kept(config, events.drop_last(), event);
    }
}

/// What is known of the pictures after some events.
pub open spec fn frames_after(state: FrameLoop, events: Seq<FrameEvent>) -> FrameLoop
    decreases events.len(),
{
    if events.len() == 0 {
        state
    } else {
        frame_step(frames_after(state, events.drop_last()), events.last()).0
    }
}

/// A scaler is kept whatever happens, and no other is asked for.
pub proof fn lemma_scaler_kept(state: FrameLoop, events: Seq<FrameEvent>, event: FrameEvent)
    requires
        state.scaler is Some,
    ensures
        frames_after(state, events).scaler == state.scaler,
        !(frame_step(frames_after(state, events), event).1 is MakeScaler),
    decreases events.len(),
{
    if events.len() > 0 {
        lemma_scaler_kept(state, events.drop_last(), event);
    }
}

/// The latest picture that the decoder gave.
pub open spec fn latest_frame(events: Seq<FrameEvent>) -> Option<DecodedFrame>
    decreases events.len(),
{
    if events.len() == 0 {
        None
    } else {
        match events.last() {
            FrameEvent::Frame(frame) => Some(frame),
            _ => latest_frame(events.drop_last()),
        }
    }
}

/// Whether nothing in some events stops the worker.
pub open spec fn goes_on(state: FrameLoop, events: Seq<FrameEvent>) -> bool
    decreases events.len(),
{
    events.len() > 0 ==> {
        &&& goes_on(state, events.drop_last())
        &&& frame_step(frames_after(state, events.drop_last()), events.last()).1
            != FrameAction::Stop
    }
}

/// What is known of the pictures at first.
pub open spec fn no_frames() -> FrameLoop {
    FrameLoop { frame: None, scaler: None }
}

/// While the worker goes on, it holds the latest picture, and its scaler is one
/// for pictures of that form.
proof fn lemma_latest_frame(events: Seq<FrameEvent>)
    requires
        goes_on(no_frames(), events),
    ensures
        frames_after(no_frames(), events).frame == latest_frame(events),
        frames_after(no_frames(), events).scaler is Some ==> {
            &&& latest_frame(events) matches Some(frame)
            &&& frames_after(no_frames(), events).scaler == Some(frame.source_model())
        },
    decreases events.len(),
{
    if events.len() > 0 {
        lemma_latest_frame(events.drop_last());
    }
}

/// Whatever a worker for pictures delivers is the latest picture that the
/// decoder gave, in RGBA and of the same width and height, under its own time
/// stamp, or under zero where it has none.
pub proof fn lemma_delivered_picture(
    events: Seq<FrameEvent>,
    event: FrameEvent,
    pts: i64,
    picture: ScalerTarget,
)
    requires
        goes_on(no_frames(), events),
        frame_step(frames_after(no_frames(), events), event).1 == (FrameAction::Deliver {
            pts,
            picture,
        }),
    ensures
        latest_frame(events) matches Some(frame) && {
            &&& frame.timestamp matches Some(timestamp) ==> pts == timestamp
            &&& frame.timestamp is None ==> pts == 0
            &&& picture.pixel_format == PixelFormat::Rgba
            &&& picture.width == frame.width
            &&& picture.height == frame.height
            &&& picture.interpolation == Interpolation::Bilinear
        },
{
    lemma_latest_frame(events);
}

/// Whether an event can come of an action with a packet.
pub open spec fn frame_answers(action: FrameAction, event: FrameEvent) -> bool {
    match action {
        FrameAction::NextPacket => event is Sent,
        FrameAction::Receive => event is Frame || event is NoFrame,
        FrameAction::MakeScaler(_) => event is ScalerMade,
        FrameAction::Scale => event is Scaled,
        FrameAction::Deliver { .. } => event is Delivered,
        FrameAction::Stop => false,
    }
}

/// What to do after some events.
pub open spec fn frame_action_after(events: Seq<FrameEvent>) -> FrameAction {
    if events.len() == 0 {
        FrameAction::NextPacket
    } else {
        frame_step(frames_after(no_frames(), events.drop_last()), events.last()).1
    }
}

/// Whether events are those of a run: each comes of the action before it.
pub open spec fn frame_run(events: Seq<FrameEvent>) -> bool
    decreases events.len(),
{
    events.len() > 0 ==> {
        &&& frame_run(events.drop_last())
        &&& frame_answers(frame_action_after(events.drop_last()), events.last())
    }
}

/// The pictures that the decoder gave, in their order.
pub open spec fn decoded_frames(events: Seq<FrameEvent>) -> Seq<DecodedFrame>
    decreases events.len(),
{
    if events.len() == 0 {
        Seq::empty()
    } else {
        match events.last() {
            FrameEvent::Frame(frame) => decoded_frames(events.drop_last()).push(frame),
            _ => decoded_frames(events.drop_last()),
        }
    }
}

/// The deliveries that were asked for, in their order.
pub open spec fn deliveries(events: Seq<FrameEvent>) -> Seq<FrameAction>
    decreases events.len(),
{
    if events.len() == 0 {
        Seq::empty()
    } else if frame_action_after(events) is Deliver {
        deliveries(events.drop_last()).push(frame_action_after(events))
    } else {
        deliveries(events.drop_last())
    }
}

/// The delivery of a picture: in RGBA, of the same size, under its own time
/// stamp, or under zero where it has none.
pub open spec fn delivery_of(frame: DecodedFrame) -> FrameAction {
    FrameAction::Deliver { pts: frame.pts_model(), picture: frame.source_model().target_model() }
}

/// The deliveries of some pictures, in their order.
pub open spec fn deliveries_of(frames: Seq<DecodedFrame>) -> Seq<FrameAction> {
    frames.map_values(|frame: DecodedFrame| delivery_of(frame))
}

/// Of the pictures that the decoder gave, those whose delivery is due when
/// `action` is next: all but the one that is still being converted.
pub open spec fn due_frames(frames: Seq<DecodedFrame>, action: FrameAction) -> Seq<DecodedFrame> {
    if action is MakeScaler || action is Scale {
        frames.drop_last()
    } else {
        frames
    }
}

/// In every run that has not ended, each picture that the decoder gave was
/// delivered once, in the order in which they came and under its own time
/// stamp, but for the one that is still being converted.
pub proof fn lemma_deliveries(events: Seq<FrameEvent>)
    requires
        frame_run(events),
        goes_on(no_frames(), events),
    ensures
        deliveries(events) == deliveries_of(
            due_frames(decoded_frames(events), frame_action_after(events)),
        ),
        frame_action_after(events) is MakeScaler || frame_action_after(events) is Scale ==> {
            &&& decoded_frames(events).len() > 0
            &&& latest_frame(events) == Some(decoded_frames(events).last())
        },
        frame_action_after(events) is Scale ==> frames_after(no_frames(), events).scaler is Some,
    decreases events.len(),
{
    if events.len() == 0 {
        assert(deliveries(events) =~= deliveries_of(decoded_frames(events)));
    } else {
        let before = events.drop_last();
        lemma_deliveries(before);
        lemma_latest_frame(before);
        lemma_latest_frame(events);
        let frames = decoded_frames(before);
        match events.last() {
            FrameEvent::Frame(frame) => {
                assert(frames.push(frame).drop_last() =~= frames);
            },
            FrameEvent::Scaled(_) => {
                assert(deliveries_of(frames) =~= deliveries_of(frames.drop_last()).push(
                    delivery_of(frames.last()),
                ));
            },
            _ => {},
        }
    }
}

/// Whether an event can come of an action of the worker for pictures beside one
/// for packets.
pub open spec fn video_answers(action: VideoAction, event: VideoEvent) -> bool {
    match action {
        VideoAction::Wait => event is Packet || event is PacketsClosed,
        VideoAction::Send => event matches VideoEvent::Frames(event) && event is Sent,
        VideoAction::Frames(action) => event matches VideoEvent::Frames(event) && frame_answers(
            action,
            event,
        ),
        VideoAction::Stop => false,
    }
}

/// What is known after some events, and what the worker for pictures beside one
/// for packets does next.
pub open spec fn video_after(events: Seq<VideoEvent>) -> (FrameLoop, VideoAction)
    decreases events.len(),
{
    if events.len() == 0 {
        (no_frames(), VideoAction::Wait)
    } else {
        video_step(video_after(events.drop_last()).0, events.last())
    }
}

/// Whether events are those of a run that has not ended.
pub open spec fn video_run(events: Seq<VideoEvent>) -> bool
    decreases events.len(),
{
    events.len() > 0 ==> {
        &&& video_run(events.drop_last())
        &&& video_answers(video_after(events.drop_last()).1, events.last())
        &&& video_after(events).1 != VideoAction::Stop
    }
}

/// The events that concern pictures.
pub open spec fn video_frame_events(events: Seq<VideoEvent>) -> Seq<FrameEvent>
    decreases events.len(),
{
    if events.len() == 0 {
        Seq::empty()
    } else {
        match events.last() {
            VideoEvent::Frames(event) => video_frame_events(events.drop_last()).push(event),
            _ => video_frame_events(events.drop_last()),
        }
    }
}

/// The deliveries that were asked for, in their order.
pub open spec fn video_deliveries(events: Seq<VideoEvent>) -> Seq<FrameAction>
    decreases events.len(),
{
    if events.len() == 0 {
        Seq::empty()
    } else {
        match video_after(events).1 {
            VideoAction::Frames(action) if action is Deliver => video_deliveries(
                events.drop_last(),
            ).push(action),
            _ => video_deliveries(events.drop_last()),
        }
    }
}

/// What an action of the worker is for the pictures: waiting for a packet and
/// giving it to the decoder is going on to the next one.
pub open spec fn video_frame_action(action: VideoAction) -> FrameAction {
    match action {
        VideoAction::Wait | VideoAction::Send => FrameAction::NextPacket,
        VideoAction::Frames(action) => action,
        VideoAction::Stop => FrameAction::Stop,
    }
}

/// A run of the worker for pictures beside one for packets is a run with the
/// pictures, with packets in between.
proof fn lemma_video_run(events: Seq<VideoEvent>)
    requires
        video_run(events),
    ensures
        frame_run(video_frame_events(events)),
        goes_on(no_frames(), video_frame_events(events)),
        video_after(events).0 == frames_after(no_frames(), video_frame_events(events)),
        video_frame_action(video_after(events).1) == frame_action_after(
            video_frame_events(events),
        ),
        video_deliveries(events) == deliveries(video_frame_events(events)),
    decreases events.len(),
{
    if events.len() > 0 {
        let before = events.drop_last();
        lemma_video_run(before);
        if let VideoEvent::Frames(event) = events.last() {
            let frames = video_frame_events(before);
            assert(frames.push(event).drop_last() =~= frames);
        }
    }
}

/// The worker for pictures beside one for packets delivers every picture that
/// the decoder gives, once, in the order in which they come, in RGBA and of the
/// same size, under its own time stamp or under zero where it has none. It does
/// so over any packets, also such as the decoder refuses or makes no picture
/// of. A picture that is still being converted is yet to come.
pub proof fn lemma_video_deliveries(events: Seq<VideoEvent>)
    requires
        video_run(events),
    ensures
        video_deliveries(events) == deliveries_of(
            due_frames(
                decoded_frames(video_frame_events(events)),
                video_frame_action(video_after(events).1),
            ),
        ),
{
    lemma_video_run(events);
    lemma_deliveries(video_frame_events(events));
}

/// Whether an event can come of an action of the worker for a file without
/// sound.
pub open spec fn solo_answers(action: SoloAction, event: SoloEvent) -> bool {
    match action {
        SoloAction::Poll => event is Seek || event is SeekClosed || event is NoSeek,
        SoloAction::Seek(_) => event is Sought,
        SoloAction::Flush => event is Flushed,
        SoloAction::Read => event is Packet || event is NoPacket,
        SoloAction::Send => event matches SoloEvent::Frames(event) && event is Sent,
        SoloAction::RepaintAndReceive => event matches SoloEvent::Frames(event) && frame_answers(
            FrameAction::Receive,
            event,
        ),
        SoloAction::Frames(action) => event matches SoloEvent::Frames(event) && frame_answers(
            action,
            event,
        ),
        SoloAction::Stop => false,
    }
}

/// What is known after some events, and what the worker for a file without sound
/// does next.
pub open spec fn solo_after(video: usize, events: Seq<SoloEvent>) -> (FrameLoop, SoloAction)
    decreases events.len(),
{
    if events.len() == 0 {
        (no_frames(), SoloAction::Poll)
    } else {
        solo_step(video, solo_after(video, events.drop_last()).0, events.last())
    }
}

/// Whether events are those of a run that has not ended.
pub open spec fn solo_run(video: usize, events: Seq<SoloEvent>) -> bool
    decreases events.len(),
{
    events.len() > 0 ==> {
        &&& solo_run(video, events.drop_last())
        &&& solo_answers(solo_after(video, events.drop_last()).1, events.last())
        &&& solo_after(video, events).1 != SoloAction::Stop
    }
}

/// The events that concern pictures.
pub open spec fn solo_frame_events(events: Seq<SoloEvent>) -> Seq<FrameEvent>
    decreases events.len(),
{
    if events.len() == 0 {
        Seq::empty()
    } else {
        match events.last() {
            SoloEvent::Frames(event) => solo_frame_events(events.drop_last()).push(event),
            _ => solo_frame_events(events.drop_last()),
        }
    }
}

/// The deliveries that were asked for, in their order.
pub open spec fn solo_deliveries(video: usize, events: Seq<SoloEvent>) -> Seq<FrameAction>
    decreases events.len(),
{
    if events.len() == 0 {
        Seq::empty()
    } else {
        match solo_after(video, events).1 {
            SoloAction::Frames(action) if action is Deliver => solo_deliveries(
                video,
                events.drop_last(),
            ).push(action),
            _ => solo_deliveries(video, events.drop_last()),
        }
    }
}

/// What an action of the worker is for the pictures: all that concerns the user
/// and packets is going on to the next packet.
pub open spec fn solo_frame_action(action: SoloAction) -> FrameAction {
    match action {
        SoloAction::Poll | SoloAction::Seek(_) | SoloAction::Flush | SoloAction::Read
        | SoloAction::Send => FrameAction::NextPacket,
        SoloAction::RepaintAndReceive => FrameAction::Receive,
        SoloAction::Frames(action) => action,
        SoloAction::Stop => FrameAction::Stop,
    }
}

/// A run of the worker for a file without sound is a run with the pictures, with
/// packets, seeks and flushes in between.
proof fn lemma_solo_run(video: usize, events: Seq<SoloEvent>)
    requires
        solo_run(video, events),
    ensures
        frame_run(solo_frame_events(events)),
        goes_on(no_frames(), solo_frame_events(events)),
        solo_after(video, events).0 == frames_after(no_frames(), solo_frame_events(events)),
        solo_frame_action(solo_after(video, events).1) == frame_action_after(
            solo_frame_events(events),
        ),
        solo_deliveries(video, events) == deliveries(solo_frame_events(events)),
    decreases events.len(),
{
    if events.len() > 0 {
        let before = events.drop_last();
        lemma_solo_run(video, before);
        if let SoloEvent::Frames(event) = events.last() {
            let frames = solo_frame_events(before);
            assert(frames.push(event).drop_last() =~= frames);
        }
    }
}

/// The worker for a file without sound delivers every picture that the decoder
/// gives, once, in the order in which they come, in RGBA and of the same size,
/// under its own time stamp or under zero where it has none. It does so over any
/// packets, seeks and flushes. A picture that is still being converted is yet to
/// come.
pub proof fn lemma_solo_deliveries(video: usize, events: Seq<SoloEvent>)
    requires
        solo_run(video, events),
    ensures
        solo_deliveries(video, events) == deliveries_of(
            due_frames(
                decoded_frames(solo_frame_events(events)),
                solo_frame_action(solo_after(video, events).1),
            ),
        ),
{
    lemma_solo_run(video, events);
    lemma_deliveries(solo_frame_events(events));
}

/// The worker for sound flushes exactly where the user wants to go somewhere,
/// and stops exactly where there will be no more packets. It plays exactly the
/// frames for which there is a resampler, and has one made exactly where there
/// is none and the output device can be served. It asks the decoder for frames
/// behind every packet that the decoder took and behind every frame that was
/// played.
pub proof fn lemma_audio(
    config: AudioConfig,
    resampler: Option<ResamplerTarget>,
    event: AudioEvent,
    target: ResamplerTarget,
)
    ensures
        audio_step(config, resampler, event) == AudioAction::FlushAndDrain <==> event
            == AudioEvent::Seek,
        audio_step(config, resampler, event) == AudioAction::Stop <==> event
            == AudioEvent::PacketsClosed,
        audio_step(config, resampler, event) == AudioAction::Push <==> event == AudioEvent::Packet,
        audio_step(config, resampler, event) == AudioAction::Pop <==> {
            ||| event == AudioEvent::Pushed(true)
            ||| event == AudioEvent::Played
        },
        audio_step(config, resampler, event) == AudioAction::Play <==> {
            ||| event == AudioEvent::ResamplerMade(true)
            ||| event matches AudioEvent::Received(Received::Frame { .. }) && resampler is Some
        },
        audio_step(config, resampler, event) == AudioAction::MakeResampler(target) <==> {
            &&& event matches AudioEvent::Received(Received::Frame { .. })
            &&& resampler is None
            &&& config.target_model() == Some(target)
        },
{
}

/// Whether an event can come of an action of the worker for sound.
pub open spec fn audio_answers(action: AudioAction, event: AudioEvent) -> bool {
    match action {
        AudioAction::Wait | AudioAction::Report(_) => event is Seek || event is Packet || event
            is PacketsClosed,
        AudioAction::FlushAndDrain => event is Drained,
        AudioAction::Push => event is Pushed,
        AudioAction::Pop => event is Received,
        AudioAction::MakeResampler(_) => event is ResamplerMade,
        AudioAction::Play => event is Played,
        AudioAction::Stop => false,
    }
}

/// What the worker for sound does after some events.
pub open spec fn audio_action_after(config: AudioConfig, events: Seq<AudioEvent>) -> AudioAction {
    if events.len() == 0 {
        AudioAction::Wait
    } else {
        audio_step(
            config,
            resampler_after_all(config, None, events.drop_last()),
            events.last(),
        )
    }
}

/// Whether events are those of a run: each comes of the action before it.
pub open spec fn audio_run(config: AudioConfig, events: Seq<AudioEvent>) -> bool
    decreases events.len(),
{
    events.len() > 0 ==> {
        &&& audio_run(config, events.drop_last())
        &&& audio_answers(audio_action_after(config, events.drop_last()), events.last())
    }
}

/// Whether the decoder gave a frame in the event at position `at`.
pub open spec fn gives_frame(events: Seq<AudioEvent>, at: int) -> bool {
    0 <= at < events.len() && events[at] matches AudioEvent::Received(Received::Frame { .. })
}

/// The position of the event in which the decoder gave the latest frame, or -1
/// where it gave none.
pub open spec fn latest_sound(events: Seq<AudioEvent>) -> int
    decreases events.len(),
{
    if events.len() == 0 {
        -1
    } else if gives_frame(events, events.len() - 1) {
        events.len() - 1
    } else {
        latest_sound(events.drop_last())
    }
}

/// The frames that were played, in their order, each as the position of the
/// event in which the decoder gave it. What is played is the latest frame.
pub open spec fn plays(config: AudioConfig, events: Seq<AudioEvent>) -> Seq<int>
    decreases events.len(),
{
    if events.len() == 0 {
        Seq::empty()
    } else if audio_action_after(config, events) == AudioAction::Play {
        plays(config, events.drop_last()).push(latest_sound(events))
    } else {
        plays(config, events.drop_last())
    }
}

/// Whether the frame that was given at position `at` is refused: for the
/// channels of the output device, or for want of a resampler.
pub open spec fn refused(config: AudioConfig, events: Seq<AudioEvent>, at: int) -> bool {
    ||| config.target_model() is None
    ||| at + 1 < events.len() && events[at + 1] == AudioEvent::ResamplerMade(false)
}

/// Whether the frame that was given at position `at` still waits for its
/// resampler.
pub open spec fn waits(config: AudioConfig, events: Seq<AudioEvent>, at: int) -> bool {
    at == events.len() - 1 && audio_action_after(config, events) is MakeResampler
}

/// In a run there is only the resampler that serves the output device, and one
/// is asked for only for the frame that was just given, where there is none.
proof fn lemma_audio_run(config: AudioConfig, events: Seq<AudioEvent>)
    requires
        audio_run(config, events),
    ensures
        resampler_after_all(config, None, events) is Some ==> config.target_model() is Some,
        audio_action_after(config, events) is MakeResampler ==> {
            &&& gives_frame(events, events.len() - 1)
            &&& config.target_model() is Some
        },
    decreases events.len(),
{
    if events.len() > 0 {
        lemma_audio_run(config, events.drop_last());
    }
}

/// In every run of the worker for sound, the frames that are played are those
/// that the decoder gave, each once and in the order in which they came, but for
/// those that are refused for the channels of the output device or for want of a
/// resampler, and for one that still waits for its resampler.
pub proof fn lemma_plays(config: AudioConfig, events: Seq<AudioEvent>)
    requires
        audio_run(config, events),
    ensures
        forall|i: int, j: int|
            0 <= i < j < plays(config, events).len() ==> plays(config, events)[i] < plays(
                config,
                events,
            )[j],
        forall|at: int| #[trigger]
            plays(config, events).contains(at) <==> {
                &&& gives_frame(events, at)
                &&& !refused(config, events, at)
                &&& !waits(config, events, at)
            },
    decreases events.len(),
{
    if events.len() > 0 {
        let before = events.drop_last();
        let n = events.len() as int;
        lemma_plays(config, before);
        lemma_audio_run(config, before);
        lemma_audio_run(config, events);
        let old_plays = plays(config, before);
        let new_plays = plays(config, events);
        assert forall|at: int| at < n - 1 implies gives_frame(events, at) == gives_frame(
            before,
            at,
        ) by {}
        assert forall|i: int| 0 <= i < old_plays.len() implies #[trigger] old_plays[i] < n - 1 by {
            assert(old_plays.contains(old_plays[i]));
        }
        if audio_action_after(config, events) == AudioAction::Play {
            let latest = latest_sound(events);
            if events.last() == AudioEvent::ResamplerMade(true) {
                assert(gives_frame(before, n - 2));
                assert(latest_sound(before) == n - 2);
                assert(waits(config, before, n - 2));
                assert(!old_plays.contains(n - 2));
                assert forall|i: int| 0 <= i < old_plays.len() implies #[trigger] old_plays[i] < n
                    - 2 by {
                    assert(old_plays.contains(old_plays[i]));
                }
            } else {
                assert(latest == n - 1);
            }
            assert(new_plays == old_plays.push(latest));
            assert forall|at: int| #[trigger] new_plays.contains(at) <==> old_plays.contains(at)
                || at == latest by {
                if new_plays.contains(at) {
                    let i = choose|i: int| 0 <= i < new_plays.len() && new_plays[i] == at;
                    if i < old_plays.len() {
                        assert(old_plays[i] == at);
                    }
                }
                if old_plays.contains(at) {
                    let i = choose|i: int| 0 <= i < old_plays.len() && old_plays[i] == at;
                    assert(new_plays[i] == at);
                }
                assert(new_plays[old_plays.len() as int] == latest);
            }
        }
        assert forall|at: int| #[trigger] new_plays.contains(at) <==> {
            &&& gives_frame(events, at)
            &&& !refused(config, events, at)
            &&& !waits(config, events, at)
        } by {
            assert(old_plays.contains(at) <==> {
                &&& gives_frame(before, at)
                &&& !refused(config, before, at)
                &&& !waits(config, before, at)
            });
        }
    }
}

/// The worker for a file without sound asks the user before every packet, and
/// shows every picture that it delivered. It ends only at the end of the file
/// or where something failed other than giving a packet to the decoder.
pub proof fn lemma_solo(video: usize, state: FrameLoop, event: SoloEvent)
    ensures
        solo_step(video, state, event).1 == SoloAction::Read <==> event == SoloEvent::NoSeek,
        solo_step(video, state, event).1 == SoloAction::RepaintAndReceive <==> event
            == SoloEvent::Frames(FrameEvent::Delivered(true)),
        solo_step(video, state, event).1 == SoloAction::Stop <==> {
            ||| event == SoloEvent::NoPacket
            ||| event == SoloEvent::Sought(false)
            ||| event == SoloEvent::Frames(FrameEvent::ScalerMade(false))
            ||| event == SoloEvent::Frames(FrameEvent::Scaled(false))
            ||| event == SoloEvent::Frames(FrameEvent::Delivered(false))
            ||| event matches SoloEvent::Frames(FrameEvent::Frame(frame)) && state.scaler is Some
                && state.scaler != Some(frame.source_model())
            ||| event == SoloEvent::Frames(FrameEvent::Scaled(true)) && (state.frame is None
                || state.scaler is None)
        },
{
}

/// The file is moved to exactly the time stamp that was asked for, and only
/// where one was.
pub proof fn lemma_demux_seeks(video: usize, audio: usize, event: DemuxEvent, timestamp: i64)
    ensures
        demux_step(video, audio, event) == DemuxAction::Seek(timestamp) <==> event
            == DemuxEvent::Seek(timestamp),
{
}

/// A packet is read where the user wants nothing, behind every packet that was
/// handed over, and behind every packet of a stream that is not decoded. That the
/// worker for pictures is gone does not matter.
pub proof fn lemma_demux_reads(video: usize, audio: usize, event: DemuxEvent)
    ensures
        demux_step(video, audio, event) == DemuxAction::Read <==> {
            ||| event == DemuxEvent::NoSeek
            ||| event is VideoSent
            ||| event == DemuxEvent::AudioSent(true)
            ||| event matches DemuxEvent::Packet(index) && index != video && index != audio
        },
{
}

/// The worker for sound waits behind a flush, behind a packet that the decoder
/// did not take, where the decoder gives no frame for now, and where no
/// resampler could be made. It notes every other error of the decoder as the
/// error that it was, and a device that cannot be served by its channels.
pub proof fn lemma_audio_waits(
    config: AudioConfig,
    resampler: Option<ResamplerTarget>,
    event: AudioEvent,
    number: i32,
    channels: u16,
)
    ensures
        audio_step(config, resampler, event) == AudioAction::Wait <==> {
            ||| event == AudioEvent::Drained
            ||| event == AudioEvent::Pushed(false)
            ||| event == AudioEvent::ResamplerMade(false)
            ||| event == AudioEvent::Received(Received::Eof)
            ||| event == AudioEvent::Received(Received::Errno(11))
        },
        audio_step(config, resampler, event) == AudioAction::Report(AudioError::Errno(number))
            <==> event == AudioEvent::Received(Received::Errno(number)) && number != 11,
        audio_step(config, resampler, event) == AudioAction::Report(AudioError::Decoder(number))
            <==> event == AudioEvent::Received(Received::Failed(number)),
        audio_step(config, resampler, event) == AudioAction::Report(
            AudioError::UnsupportedChannels(channels),
        ) <==> {
            &&& event matches AudioEvent::Received(Received::Frame { .. })
            &&& resampler is None
            &&& channels == config.channels
            &&& channels != 1
            &&& channels != 2
        },
{
}

/// A resampler comes of nothing but making one. It is then one for the channels
/// and the rate of the output device.
pub proof fn lemma_resampler_made(
    config: AudioConfig,
    resampler: Option<ResamplerTarget>,
    event: AudioEvent,
)
    ensures
        event != AudioEvent::ResamplerMade(true) ==> resampler_after(config, resampler, event)
            == resampler,
        event == AudioEvent::ResamplerMade(true) && (config.channels == 1 || config.channels == 2)
            ==> {
            &&& resampler_after(config, resampler, event) matches Some(target)
            &&& target.sample_rate == config.sample_rate
            &&& target.format == SampleFormat::PackedSingle
            &&& target.layout == ChannelLayout::Mono <==> config.channels == 1
            &&& target.layout == ChannelLayout::Stereo <==> config.channels == 2
        },
{
}

/// A picture is delivered under exactly its own time stamp, whatever it is, and
/// under zero where it has none. It is delivered in RGBA and in its own size. Two
/// pictures with different time stamps are delivered under different ones.
pub proof fn lemma_own_time_stamp(frame: DecodedFrame, other: DecodedFrame)
    ensures
        delivery_of(frame) matches FrameAction::Deliver { pts, picture } && {
            &&& frame.timestamp matches Some(timestamp) ==> pts == timestamp
            &&& frame.timestamp is None ==> pts == 0
            &&& picture.pixel_format == PixelFormat::Rgba
            &&& picture.width == frame.width
            &&& picture.height == frame.height
            &&& picture.interpolation == Interpolation::Bilinear
        },
        frame.timestamp is Some && other.timestamp is Some && frame.timestamp != other.timestamp
            ==> delivery_of(frame) != delivery_of(other),
{
}

/// A picture is taken where there is no scaler, or where the scaler is one for
/// pictures of its format, width and height. Nothing else changes the latest
/// picture.
pub proof fn lemma_frame_taken(state: FrameLoop, event: FrameEvent, frame: DecodedFrame)
    ensures
        event == FrameEvent::Frame(frame) ==> {
            let fits = state.scaler matches Some(scaler) ==> {
                &&& scaler.format == frame.format
                &&& scaler.width == frame.width
                &&& scaler.height == frame.height
            };
            frame_step(state, event).0.frame == if fits {
                Some(frame)
            } else {
                state.frame
            }
        },
        !(event is Frame) ==> frame_step(state, event).0.frame == state.frame,
{
}

/// A scaler comes of nothing but making one where there is none, and is then one
/// for the format, the width and the height of the latest picture.
pub proof fn lemma_scaler_made(state: FrameLoop, event: FrameEvent)
    ensures
        event != FrameEvent::ScalerMade(true) || state.scaler is Some || state.frame is None
            ==> frame_step(state, event).0.scaler == state.scaler,
        event == FrameEvent::ScalerMade(true) && state.scaler is None && state.frame is Some ==> {
            &&& frame_step(state, event).0.scaler matches Some(scaler)
            &&& scaler.format == state.frame->0.format
            &&& scaler.width == state.frame->0.width
            &&& scaler.height == state.frame->0.height
        },
{
}

/// When each action with a packet is asked for.
///
/// A scaler is asked for exactly where a picture comes and there is none, for
/// pictures of that form. A picture is converted exactly where the scaler takes
/// its form, or where its scaler was just made. It is delivered exactly where it
/// was converted, under its own time stamp.
pub proof fn lemma_frame_actions(
    state: FrameLoop,
    event: FrameEvent,
    source: ScalerSource,
    pts: i64,
    picture: ScalerTarget,
)
    ensures
        frame_step(state, event).1 == FrameAction::NextPacket <==> event == FrameEvent::Sent(false)
            || event == FrameEvent::NoFrame,
        frame_step(state, event).1 == FrameAction::Receive <==> event == FrameEvent::Sent(true)
            || event == FrameEvent::Delivered(true),
        frame_step(state, event).1 == FrameAction::MakeScaler(source) <==> {
            &&& event matches FrameEvent::Frame(frame)
            &&& state.scaler is None
            &&& source.format == frame.format
            &&& source.width == frame.width
            &&& source.height == frame.height
        },
        frame_step(state, event).1 == FrameAction::Scale <==> {
            ||| event == FrameEvent::ScalerMade(true)
            ||| {
                &&& event matches FrameEvent::Frame(frame)
                &&& state.scaler matches Some(scaler)
                &&& scaler.format == frame.format
                &&& scaler.width == frame.width
                &&& scaler.height == frame.height
            }
        },
        frame_step(state, event).1 == (FrameAction::Deliver { pts, picture }) <==> {
            &&& event == FrameEvent::Scaled(true)
            &&& state.frame matches Some(frame)
            &&& state.scaler matches Some(scaler)
            &&& frame.timestamp matches Some(timestamp) ==> pts == timestamp
            &&& frame.timestamp is None ==> pts == 0
            &&& picture.pixel_format == PixelFormat::Rgba
            &&& picture.width == scaler.width
            &&& picture.height == scaler.height
            &&& picture.interpolation == Interpolation::Bilinear
        },
{
    if let FrameEvent::Frame(frame) = event {
        if let Some(scaler) = state.scaler {
            assert(scaler == frame.source_model() <==> scaler.format == frame.format
                && scaler.width == frame.width && scaler.height == frame.height);
        }
    }
}

/// The worker for pictures beside one for packets gives every packet to the
/// decoder, waits for another where the decoder takes none or gives no picture,
/// and ends exactly where there are no more or something failed. All else it
/// does as its pictures ask.
pub proof fn lemma_video(state: FrameLoop, event: VideoEvent, action: FrameAction)
    ensures
        video_step(state, event).1 == VideoAction::Send <==> event == VideoEvent::Packet,
        video_step(state, event).1 == VideoAction::Wait <==> {
            ||| event == VideoEvent::Frames(FrameEvent::Sent(false))
            ||| event == VideoEvent::Frames(FrameEvent::NoFrame)
        },
        video_step(state, event).1 == VideoAction::Stop <==> {
            ||| event == VideoEvent::PacketsClosed
            ||| event == VideoEvent::Frames(FrameEvent::ScalerMade(false))
            ||| event == VideoEvent::Frames(FrameEvent::Scaled(false))
            ||| event == VideoEvent::Frames(FrameEvent::Delivered(false))
            ||| event matches VideoEvent::Frames(FrameEvent::Frame(frame)) && state.scaler is Some
                && !({
                &&& state.scaler->0.format == frame.format
                &&& state.scaler->0.width == frame.width
                &&& state.scaler->0.height == frame.height
            })
            ||| event == VideoEvent::Frames(FrameEvent::Scaled(true)) && (state.frame is None
                || state.scaler is None)
        },
        video_step(state, event).1 == VideoAction::Frames(action) <==> {
            &&& event matches VideoEvent::Frames(event)
            &&& frame_step(state, event).1 == action
            &&& action != FrameAction::NextPacket
            &&& action != FrameAction::Stop
        },
        event matches VideoEvent::Frames(event) ==> video_step(
            state,
            VideoEvent::Frames(event),
        ).0 == frame_step(state, event).0,
        !(event is Frames) ==> video_step(state, event).0 == state,
{
    if let VideoEvent::Frames(FrameEvent::Frame(frame)) = event {
        if let Some(scaler) = state.scaler {
            assert(scaler == frame.source_model() <==> scaler.format == frame.format
                && scaler.width == frame.width && scaler.height == frame.height);
        }
    }
}

/// The worker for a file without sound gives exactly the packets of the video
/// stream to the decoder, whatever the index of that stream is, and goes on
/// where a packet is of another stream. It moves the file to exactly the time
/// stamp that was asked for, and flushes the decoder exactly behind that. All
/// else it does as its pictures ask.
pub proof fn lemma_solo_packets(
    video: usize,
    state: FrameLoop,
    event: SoloEvent,
    index: usize,
    timestamp: i64,
    action: FrameAction,
)
    ensures
        solo_step(video, state, event).1 == SoloAction::Send <==> event == SoloEvent::Packet(video),
        index != video ==> solo_step(video, state, SoloEvent::Packet(index)).1 == SoloAction::Poll,
        solo_step(video, state, event).1 == SoloAction::Seek(timestamp) <==> event
            == SoloEvent::Seek(timestamp),
        solo_step(video, state, event).1 == SoloAction::Flush <==> event == SoloEvent::Sought(true),
        solo_step(video, state, event).1 == SoloAction::Poll <==> {
            ||| event == SoloEvent::SeekClosed
            ||| event == SoloEvent::Flushed
            ||| event matches SoloEvent::Packet(other) && other != video
            ||| event == SoloEvent::Frames(FrameEvent::Sent(false))
            ||| event == SoloEvent::Frames(FrameEvent::NoFrame)
        },
        solo_step(video, state, event).1 == SoloAction::Frames(action) <==> {
            &&& event matches SoloEvent::Frames(event)
            &&& event != FrameEvent::Delivered(true)
            &&& frame_step(state, event).1 == action
            &&& action != FrameAction::NextPacket
            &&& action != FrameAction::Stop
        },
        event matches SoloEvent::Frames(event) ==> solo_step(
            video,
            state,
            SoloEvent::Frames(event),
        ).0 == frame_step(state, event).0,
        !(event is Frames) ==> solo_step(video, state, event).0 == state,
{
}

} // verus!
