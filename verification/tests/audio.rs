use peerwatch::audio::{
    frame_samples, AudioConfig, AudioDecoder, AudioError, ChannelLayout, PopStep, Rational,
    Received, ResamplerTarget, SampleFormat,
};
use peerwatch::audio_output::{latency_samples, sample_ring, PendingSamples, LATENCY_MS, SAMPLE_RATE};
use peerwatch::decoder::{AudioAction, AudioEvent};

fn decoder(channels: u16) -> AudioDecoder {
    AudioDecoder::new(
        &AudioConfig { channels, sample_rate: 48_000 },
        Rational { numerator: 1, denominator: 44_100 },
    )
}

fn bytes(samples: &[f32]) -> Vec<[u8; 4]> {
    samples.iter().map(|sample| sample.to_ne_bytes()).collect()
}

fn numbered(samples: &[u32]) -> Vec<[u8; 4]> {
    samples.iter().map(|sample| sample.to_ne_bytes()).collect()
}

fn slot(sample: u32) -> Option<[u8; 4]> {
    Some(sample.to_ne_bytes())
}

#[test]
fn the_first_frame_has_a_resampler_made() {
    let mut decoder = decoder(2);
    let frame = Received::Frame { timestamp: Some(5) };
    let target = ResamplerTarget {
        format: SampleFormat::PackedSingle,
        layout: ChannelLayout::Stereo,
        sample_rate: 48_000,
    };
    assert_eq!(decoder.pop_frame(frame), PopStep::MakeResampler { target, pts: Some(5) });
    assert_eq!(decoder.pop_frame(frame), PopStep::MakeResampler { target, pts: Some(5) });
    decoder.resampler_made();
    assert_eq!(decoder.pop_frame(frame), PopStep::Resample { pts: Some(5) });
    assert_eq!(
        decoder.pop_frame(Received::Frame { timestamp: None }),
        PopStep::Resample { pts: None }
    );
}

#[test]
fn one_channel_is_mono() {
    let target = ResamplerTarget {
        format: SampleFormat::PackedSingle,
        layout: ChannelLayout::Mono,
        sample_rate: 48_000,
    };
    assert_eq!(
        decoder(1).pop_frame(Received::Frame { timestamp: None }),
        PopStep::MakeResampler { target, pts: None }
    );
}

#[test]
fn other_numbers_of_channels_are_refused() {
    for channels in [0u16, 3, 6, 65_535] {
        let mut decoder = decoder(channels);
        let expected = PopStep::Fail(AudioError::UnsupportedChannels(channels));
        assert_eq!(decoder.pop_frame(Received::Frame { timestamp: Some(1) }), expected);
        decoder.resampler_made();
        assert_eq!(decoder.pop_frame(Received::Frame { timestamp: Some(1) }), expected);
        assert_eq!(
            AudioError::UnsupportedChannels(channels).message(),
            Some(format!("{channels} audio channels is not supported"))
        );
    }
    assert_eq!(AudioError::Decoder(-1).message(), None);
    assert_eq!(AudioError::Errno(5).message(), None);
}

#[test]
fn a_decoder_without_frames_is_no_error() {
    let decoder = decoder(2);
    assert_eq!(decoder.pop_frame(Received::Eof), PopStep::Empty);
    assert_eq!(decoder.pop_frame(Received::Errno(11)), PopStep::Empty);
    assert_eq!(
        decoder.pop_frame(Received::Errno(12)),
        PopStep::Fail(AudioError::Errno(12))
    );
    assert_eq!(
        decoder.pop_frame(Received::Failed(-77)),
        PopStep::Fail(AudioError::Decoder(-77))
    );
    assert_eq!(decoder.time_base(), Rational { numerator: 1, denominator: 44_100 });
}

#[test]
fn the_worker_for_sound_plays_what_it_gets() {
    let mut decoder = decoder(2);
    let target = ResamplerTarget {
        format: SampleFormat::PackedSingle,
        layout: ChannelLayout::Stereo,
        sample_rate: 48_000,
    };
    let frame = AudioEvent::Received(Received::Frame { timestamp: Some(1) });
    assert_eq!(decoder.step(AudioEvent::Packet), AudioAction::Push);
    assert_eq!(decoder.step(AudioEvent::Pushed(true)), AudioAction::Pop);
    assert_eq!(decoder.step(frame), AudioAction::MakeResampler(target));
    assert_eq!(decoder.step(AudioEvent::ResamplerMade(true)), AudioAction::Play);
    assert_eq!(decoder.step(AudioEvent::Played), AudioAction::Pop);
    assert_eq!(decoder.step(frame), AudioAction::Play);
    assert_eq!(decoder.step(AudioEvent::Received(Received::Errno(11))), AudioAction::Wait);
    assert_eq!(decoder.step(AudioEvent::Seek), AudioAction::FlushAndDrain);
    assert_eq!(decoder.step(AudioEvent::Drained), AudioAction::Wait);
    assert_eq!(decoder.step(frame), AudioAction::Play);
    assert_eq!(decoder.step(AudioEvent::PacketsClosed), AudioAction::Stop);
}

#[test]
fn the_worker_for_sound_outlives_errors() {
    let mut decoder = decoder(2);
    let frame = AudioEvent::Received(Received::Frame { timestamp: None });
    assert_eq!(decoder.step(AudioEvent::Pushed(false)), AudioAction::Wait);
    assert!(matches!(decoder.step(frame), AudioAction::MakeResampler(_)));
    assert_eq!(decoder.step(AudioEvent::ResamplerMade(false)), AudioAction::Wait);
    assert!(matches!(decoder.step(frame), AudioAction::MakeResampler(_)));
    assert_eq!(
        decoder.step(AudioEvent::Received(Received::Failed(-5))),
        AudioAction::Report(AudioError::Decoder(-5))
    );
}

#[test]
fn samples_are_read_out_of_a_frame() {
    let samples = [0.0f32, 1.0, -0.5, 0.25, 3.5, -1.0];
    let mut data: Vec<u8> = Vec::new();
    for sample in samples {
        data.extend_from_slice(&sample.to_ne_bytes());
    }
    data.extend_from_slice(&[1, 2, 3]);
    assert_eq!(frame_samples(&data, 3, 2), Some(bytes(&samples)));
    assert_eq!(frame_samples(&data, 2, 2), Some(bytes(&samples[..4])));
    assert_eq!(frame_samples(&data[1..], 0, 2), Some(vec![]));
    assert_eq!(frame_samples(&[1, 2, 3, 4, 5], 1, 1), Some(vec![[1, 2, 3, 4]]));
    assert_eq!(frame_samples(&data, 7, 1), None);
    assert_eq!(frame_samples(&data, usize::MAX, 2), None);
    assert_eq!(frame_samples(&data, usize::MAX / 4 + 1, 1), None);
}

#[test]
fn the_latency_in_samples() {
    assert_eq!(latency_samples(2), 14_400);
    for channels in [1u16, 2, 6, 65_535] {
        let frames = (LATENCY_MS as f32 / 1_000.0) * SAMPLE_RATE as f32;
        assert_eq!(latency_samples(channels), frames as usize * channels as usize);
    }
}

#[test]
fn sound_begins_with_silence() {
    let (mut producer, mut consumer) = sample_ring(1);
    let mut pending = PendingSamples::new(numbered(&[5, 6, 7]));
    assert!(pending.offer(&mut producer));
    let mut slots = Vec::new();
    assert_eq!(consumer.fill(&mut slots, 7_200), 7_200);
    assert!(slots.iter().all(|sample| *sample == slot(0)));
    assert_eq!(0.0f32.to_ne_bytes(), [0; 4]);
    assert_eq!(consumer.fill(&mut slots, 5), 3);
    assert_eq!(slots, vec![slot(5), slot(6), slot(7), None, None]);
    assert_eq!(consumer.fill(&mut slots, 0), 0);
    assert!(slots.is_empty());
}

#[test]
fn samples_wait_until_there_is_room() {
    let (mut producer, mut consumer) = sample_ring(2);
    let samples = numbered(&(1..=20_000).collect::<Vec<u32>>());
    let mut pending = PendingSamples::new(samples.clone());
    assert!(!pending.offer(&mut producer));
    assert!(!pending.offer(&mut producer));
    let mut slots = Vec::new();
    let mut out: Vec<[u8; 4]> = Vec::new();
    assert_eq!(consumer.fill(&mut slots, 14_400), 14_400);
    assert!(pending.offer(&mut producer));
    assert_eq!(consumer.fill(&mut slots, 30_000), 20_000);
    for sample in slots.iter().flatten() {
        out.push(*sample);
    }
    assert_eq!(out, samples);
}

#[test]
fn a_block_plays_the_front_of_the_queue() {
    let (mut producer, mut consumer) = sample_ring(1);
    let mut slots = Vec::new();
    consumer.fill(&mut slots, 7_200);
    assert!(PendingSamples::new(numbered(&[1, 2, 3, 4])).offer(&mut producer));
    assert_eq!(consumer.fill(&mut slots, 3), 3);
    assert_eq!(slots, vec![slot(1), slot(2), slot(3)]);
    assert!(PendingSamples::new(numbered(&[5])).offer(&mut producer));
    assert_eq!(consumer.fill(&mut slots, 4), 2);
    assert_eq!(slots, vec![slot(4), slot(5), None, None]);
    assert!(PendingSamples::new(numbered(&[6])).offer(&mut producer));
    assert_eq!(consumer.fill(&mut slots, 1), 1);
    assert_eq!(slots, vec![slot(6)]);
}

#[test]
fn every_frame_is_played_that_can_be() {
    let mut decoder = decoder(1);
    let mut made = vec![false, true];
    let mut given: Vec<i64> = vec![1, 2, 3, 4];
    let mut packets = 2;
    let mut latest = None;
    let mut played = Vec::new();
    let mut action = AudioAction::Wait;
    while action != AudioAction::Stop {
        let event = match action {
            AudioAction::Wait | AudioAction::Report(_) if packets == 0 => AudioEvent::PacketsClosed,
            AudioAction::Wait | AudioAction::Report(_) => {
                packets -= 1;
                AudioEvent::Packet
            }
            AudioAction::FlushAndDrain => AudioEvent::Drained,
            AudioAction::Push => AudioEvent::Pushed(true),
            AudioAction::Pop if given.is_empty() => AudioEvent::Received(Received::Errno(11)),
            AudioAction::Pop => {
                latest = Some(given.remove(0));
                AudioEvent::Received(Received::Frame { timestamp: latest })
            }
            AudioAction::MakeResampler(_) => AudioEvent::ResamplerMade(made.remove(0)),
            AudioAction::Play => {
                played.push(latest);
                AudioEvent::Played
            }
            AudioAction::Stop => unreachable!(),
        };
        action = decoder.step(event);
    }
    assert_eq!(played, vec![Some(2), Some(3), Some(4)]);
}
