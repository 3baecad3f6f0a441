use peerwatch::audio::Rational;
use peerwatch::decoder::{
    demux, spawn_decoder, DecodedFrame, DecoderError, DecoderPlan, DemuxAction, DemuxEvent,
    FrameAction, FrameEvent, FrameLoop, Interpolation, ScalerSource, ScalerTarget, SoloAction,
    SoloEvent, VideoAction, VideoEvent, VideoStream, Workers,
};
use peerwatch::video::PixelFormat;

fn stream() -> VideoStream {
    VideoStream {
        index: 1,
        time_base: Rational { numerator: 1, denominator: 90_000 },
        width: 640,
        height: 360,
    }
}

fn picture(timestamp: Option<i64>) -> DecodedFrame {
    DecodedFrame { format: 3, width: 640, height: 360, timestamp }
}

fn rgba() -> ScalerTarget {
    ScalerTarget {
        pixel_format: PixelFormat::Rgba,
        width: 640,
        height: 360,
        interpolation: Interpolation::Bilinear,
    }
}

#[test]
fn pictures_become_rgba_of_the_same_size() {
    let source = ScalerSource { format: 3, width: 640, height: 360 };
    assert_eq!(source.target(), rgba());
}

#[test]
fn a_file_without_pictures_is_refused() {
    assert_eq!(spawn_decoder(None, Some(0)), Err(DecoderError::NoVideoStream));
    assert_eq!(DecoderError::NoVideoStream.message(), "No video stream");
}

#[test]
fn a_file_with_sound_has_three_workers() {
    let plan = spawn_decoder(Some(stream()), Some(0)).unwrap();
    assert_eq!(
        plan,
        DecoderPlan {
            time_base: Rational { numerator: 1, denominator: 90_000 },
            width: 640,
            height: 360,
            workers: Workers::AudioAndVideo { video: 1, audio: 0 },
        }
    );
    let plan = spawn_decoder(Some(stream()), None).unwrap();
    assert_eq!(plan.workers, Workers::VideoOnly { video: 1 });
}

#[test]
fn packets_go_to_their_workers() {
    assert_eq!(demux(1, 0, DemuxEvent::Packet(1)), DemuxAction::SendVideo);
    assert_eq!(demux(1, 0, DemuxEvent::Packet(0)), DemuxAction::SendAudio);
    assert_eq!(demux(1, 0, DemuxEvent::Packet(2)), DemuxAction::Read);
    assert_eq!(demux(1, 1, DemuxEvent::Packet(1)), DemuxAction::SendVideo);
    assert_eq!(demux(1, 0, DemuxEvent::VideoSent(true)), DemuxAction::Read);
    assert_eq!(demux(1, 0, DemuxEvent::VideoSent(false)), DemuxAction::Read);
    assert_eq!(demux(1, 0, DemuxEvent::AudioSent(true)), DemuxAction::Read);
    assert_eq!(demux(1, 0, DemuxEvent::AudioSent(false)), DemuxAction::Stop);
}

#[test]
fn the_user_is_asked_between_passes() {
    assert_eq!(demux(1, 0, DemuxEvent::NoSeek), DemuxAction::Read);
    assert_eq!(demux(1, 0, DemuxEvent::NoPacket), DemuxAction::Poll);
    assert_eq!(demux(1, 0, DemuxEvent::SeekClosed), DemuxAction::Poll);
    assert_eq!(demux(1, 0, DemuxEvent::Seek(-7)), DemuxAction::Seek(-7));
    assert_eq!(demux(1, 0, DemuxEvent::Sought(true)), DemuxAction::Poll);
    assert_eq!(demux(1, 0, DemuxEvent::Sought(false)), DemuxAction::Stop);
}

#[test]
fn pictures_are_delivered_under_their_time_stamps() {
    let mut frames = FrameLoop::new();
    assert_eq!(frames.step(FrameEvent::Sent(true)), FrameAction::Receive);
    let source = ScalerSource { format: 3, width: 640, height: 360 };
    assert_eq!(
        frames.step(FrameEvent::Frame(picture(Some(40)))),
        FrameAction::MakeScaler(source)
    );
    assert_eq!(frames.step(FrameEvent::ScalerMade(true)), FrameAction::Scale);
    assert_eq!(frames.step(FrameEvent::Scaled(true)), FrameAction::Deliver { pts: 40, picture: rgba() });
    assert_eq!(frames.step(FrameEvent::Delivered(true)), FrameAction::Receive);
    assert_eq!(frames.step(FrameEvent::Frame(picture(None))), FrameAction::Scale);
    assert_eq!(frames.step(FrameEvent::Scaled(true)), FrameAction::Deliver { pts: 0, picture: rgba() });
    assert_eq!(frames.step(FrameEvent::NoFrame), FrameAction::NextPacket);
    assert_eq!(frames.scaler, Some(source));
}

#[test]
fn the_scaler_stays_that_of_the_first_picture() {
    let mut frames = FrameLoop::new();
    frames.step(FrameEvent::Frame(picture(Some(1))));
    frames.step(FrameEvent::ScalerMade(true));
    let mut larger = picture(Some(2));
    larger.width = 1280;
    assert_eq!(frames.step(FrameEvent::Frame(larger)), FrameAction::Stop);
    assert_eq!(frames.frame, Some(picture(Some(1))));
    frames.step(FrameEvent::ScalerMade(true));
    assert_eq!(frames.scaler, Some(ScalerSource { format: 3, width: 640, height: 360 }));
}

#[test]
fn failures_end_the_worker_for_pictures() {
    let mut frames = FrameLoop::new();
    assert_eq!(frames.step(FrameEvent::Sent(false)), FrameAction::NextPacket);
    assert_eq!(frames.step(FrameEvent::ScalerMade(false)), FrameAction::Stop);
    assert_eq!(frames.step(FrameEvent::Scaled(false)), FrameAction::Stop);
    assert_eq!(frames.step(FrameEvent::Scaled(true)), FrameAction::Stop);
    assert_eq!(frames.step(FrameEvent::Delivered(false)), FrameAction::Stop);
}

#[test]
fn the_worker_for_pictures_waits_for_packets() {
    let mut frames = FrameLoop::new();
    assert_eq!(frames.video(VideoEvent::Packet), VideoAction::Send);
    assert_eq!(frames.video(VideoEvent::Frames(FrameEvent::Sent(false))), VideoAction::Wait);
    assert_eq!(
        frames.video(VideoEvent::Frames(FrameEvent::Sent(true))),
        VideoAction::Frames(FrameAction::Receive)
    );
    assert_eq!(frames.video(VideoEvent::Frames(FrameEvent::NoFrame)), VideoAction::Wait);
    assert_eq!(
        frames.video(VideoEvent::Frames(FrameEvent::Delivered(true))),
        VideoAction::Frames(FrameAction::Receive)
    );
    assert_eq!(frames.video(VideoEvent::Frames(FrameEvent::Scaled(false))), VideoAction::Stop);
    assert_eq!(frames.video(VideoEvent::PacketsClosed), VideoAction::Stop);
}

#[test]
fn the_worker_without_sound_asks_before_every_packet() {
    let mut frames = FrameLoop::new();
    assert_eq!(frames.solo(1, SoloEvent::Seek(9)), SoloAction::Seek(9));
    assert_eq!(frames.solo(1, SoloEvent::Sought(true)), SoloAction::Flush);
    assert_eq!(frames.solo(1, SoloEvent::Flushed), SoloAction::Poll);
    assert_eq!(frames.solo(1, SoloEvent::SeekClosed), SoloAction::Poll);
    assert_eq!(frames.solo(1, SoloEvent::NoSeek), SoloAction::Read);
    assert_eq!(frames.solo(1, SoloEvent::Packet(0)), SoloAction::Poll);
    assert_eq!(frames.solo(1, SoloEvent::Packet(1)), SoloAction::Send);
    assert_eq!(
        frames.solo(1, SoloEvent::Frames(FrameEvent::Sent(true))),
        SoloAction::Frames(FrameAction::Receive)
    );
    assert_eq!(frames.solo(1, SoloEvent::Frames(FrameEvent::NoFrame)), SoloAction::Poll);
    assert_eq!(
        frames.solo(1, SoloEvent::Frames(FrameEvent::Delivered(true))),
        SoloAction::RepaintAndReceive
    );
    assert_eq!(frames.solo(1, SoloEvent::NoPacket), SoloAction::Stop);
    assert_eq!(frames.solo(1, SoloEvent::Sought(false)), SoloAction::Stop);
    assert_eq!(frames.solo(1, SoloEvent::Frames(FrameEvent::Delivered(false))), SoloAction::Stop);
}

struct Pictures {
    packets: Vec<Vec<DecodedFrame>>,
    waiting: Vec<DecodedFrame>,
    delivered: Vec<(i64, ScalerTarget)>,
}

impl Pictures {
    fn new() -> Self {
        let packets = vec![
            vec![picture(Some(10)), picture(None)],
            vec![],
            vec![picture(Some(30))],
            vec![picture(Some(20)), picture(Some(40))],
        ];
        Pictures { packets, waiting: Vec::new(), delivered: Vec::new() }
    }

    fn perform(&mut self, action: FrameAction) -> FrameEvent {
        match action {
            FrameAction::Receive if self.waiting.is_empty() => FrameEvent::NoFrame,
            FrameAction::Receive => FrameEvent::Frame(self.waiting.remove(0)),
            FrameAction::MakeScaler(_) => FrameEvent::ScalerMade(true),
            FrameAction::Scale => FrameEvent::Scaled(true),
            FrameAction::Deliver { pts, picture } => {
                self.delivered.push((pts, picture));
                FrameEvent::Delivered(true)
            }
            other => panic!("{other:?}"),
        }
    }

    fn stamps(&self) -> Vec<i64> {
        assert!(self.delivered.iter().all(|(_, form)| *form == rgba()));
        self.delivered.iter().map(|(pts, _)| *pts).collect()
    }
}

#[test]
fn every_picture_is_delivered_beside_sound() {
    let mut pictures = Pictures::new();
    let mut frames = FrameLoop::new();
    let mut action = VideoAction::Wait;
    while action != VideoAction::Stop {
        let event = match action {
            VideoAction::Wait if pictures.packets.is_empty() => VideoEvent::PacketsClosed,
            VideoAction::Wait => {
                pictures.waiting = pictures.packets.remove(0);
                VideoEvent::Packet
            }
            VideoAction::Send => VideoEvent::Frames(FrameEvent::Sent(true)),
            VideoAction::Frames(action) => VideoEvent::Frames(pictures.perform(action)),
            VideoAction::Stop => unreachable!(),
        };
        action = frames.video(event);
    }
    assert_eq!(pictures.stamps(), vec![10, 0, 30, 20, 40]);
}

#[test]
fn every_picture_is_delivered_without_sound() {
    let mut pictures = Pictures::new();
    let mut frames = FrameLoop::new();
    let mut action = SoloAction::Poll;
    let mut repaints = 0;
    let mut polls = 0;
    while action != SoloAction::Stop {
        let event = match action {
            SoloAction::Poll => {
                polls += 1;
                if polls == 2 {
                    SoloEvent::Seek(7)
                } else {
                    SoloEvent::NoSeek
                }
            }
            SoloAction::Seek(_) => SoloEvent::Sought(true),
            SoloAction::Flush => SoloEvent::Flushed,
            SoloAction::Read if pictures.packets.is_empty() => SoloEvent::NoPacket,
            SoloAction::Read if polls == 4 => SoloEvent::Packet(0),
            SoloAction::Read => {
                pictures.waiting = pictures.packets.remove(0);
                SoloEvent::Packet(1)
            }
            SoloAction::Send => SoloEvent::Frames(FrameEvent::Sent(true)),
            SoloAction::RepaintAndReceive => {
                repaints += 1;
                SoloEvent::Frames(pictures.perform(FrameAction::Receive))
            }
            SoloAction::Frames(action) => SoloEvent::Frames(pictures.perform(action)),
            SoloAction::Stop => unreachable!(),
        };
        action = frames.solo(1, event);
    }
    assert_eq!(pictures.stamps(), vec![10, 0, 30, 20, 40]);
    assert_eq!(repaints, 5);
}
