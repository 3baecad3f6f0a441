use peerwatch::message;
use peerwatch::video::{DecodedPixelFormat, VideoFrame};
use peerwatch::{Cli, Command, Event};

#[test]
fn commands_say_what_to_do() {
    let create = Cli { command: Command::Create { video: "film.mkv".into() } };
    let join = Cli { command: Command::Join { ticket: "peerplayaa".to_string() } };
    assert_ne!(create, join);
    assert_eq!(join.command, Command::Join { ticket: "peerplayaa".to_string() });
}

#[test]
fn the_window_reacts_to_peers_and_frames() {
    let frame = VideoFrame::try_from(DecodedPixelFormat::Rgba, 1, 1, &[0, 0, 0, 255]).unwrap();
    let key = iroh::SecretKey::from_bytes(&[1; 32]).public();
    let id = peerwatch::peers::EndpointId::from_bytes(*key.as_bytes()).unwrap();
    let notice = message::Event::Presence { timestamp_ms: 1, endpoint_id: id };
    assert_ne!(Event::VideoFrame(frame), Event::PeerEvent(notice));
    assert_eq!(
        Event::RedrawRequested(std::time::Duration::from_millis(16)),
        Event::RedrawRequested(std::time::Duration::from_millis(16))
    );
}
