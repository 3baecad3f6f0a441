use peerwatch::message::{Event, StateUpdate, UpdateTrigger};
use peerwatch::mpv::{
    events, get_paused, get_playback_time, handle_mpv_messages, handle_reply, handle_value,
    reply_value, user_action, user_action_at, user_action_by, MpvError, MpvMessage, MpvStep, Property, Question,
    ReplyValue, SkipNextSeek,
};
use peerwatch::peers::EndpointId;

fn endpoint(seed: u8) -> EndpointId {
    let key = iroh::SecretKey::from_bytes(&[seed; 32]).public();
    EndpointId::from_bytes(*key.as_bytes()).unwrap()
}

fn pause(is_paused: bool) -> MpvMessage {
    MpvMessage::Event(events::Event::PropertyChange(events::PropertyChange::Pause(is_paused)))
}

fn seek() -> MpvMessage {
    MpvMessage::Event(events::Event::Seek)
}

fn number(value: f64) -> Result<ReplyValue, MpvError> {
    Ok(ReplyValue::Number(value.to_bits()))
}

#[test]
fn replies_hold_values() {
    assert_eq!(reply_value(r#"{"data": 12.5, "error": "success"}"#), number(12.5));
    assert_eq!(reply_value(r#"{"data": 3}"#), number(3.0));
    assert_eq!(reply_value(r#"{"data": -3}"#), number(-3.0));
    assert_eq!(reply_value(r#"{"data": true}"#), Ok(ReplyValue::Bool(true)));
    assert_eq!(reply_value(r#"{"data": null}"#), Ok(ReplyValue::Null));
    assert_eq!(reply_value(r#"{"error": "property unavailable"}"#), Ok(ReplyValue::Null));
    assert_eq!(reply_value(r#"[1, 2]"#), Ok(ReplyValue::Null));
    assert_eq!(reply_value(r#"{"data": "12.5"}"#), Ok(ReplyValue::Other));
    assert_eq!(reply_value(r#"{"data": [1]}"#), Ok(ReplyValue::Other));
    assert_eq!(reply_value(r#"{"data": {}}"#), Ok(ReplyValue::Other));
    assert_eq!(reply_value(r#"{"data": 1"#), Err(MpvError::InvalidReply));
    assert_eq!(reply_value(""), Err(MpvError::InvalidReply));
}

#[test]
fn positions_are_numbers() {
    assert_eq!(get_playback_time(r#"{"data": 61.25}"#), Ok(61.25f64.to_bits()));
    assert_eq!(get_playback_time(r#"{"data": false}"#), Err(MpvError::NotNumber));
    assert_eq!(get_playback_time(r#"{}"#), Err(MpvError::NotNumber));
    assert_eq!(get_playback_time("nonsense"), Err(MpvError::InvalidReply));
}

#[test]
fn errors_have_messages() {
    assert_eq!(MpvError::NotNumber.message(), Some("not f64".to_string()));
    assert_eq!(MpvError::NotBool.message(), Some("not bool".to_string()));
    assert_eq!(MpvError::InvalidReply.message(), None);
}

#[test]
fn pauses_are_truth_values() {
    assert_eq!(get_paused(r#"{"data": false}"#), Ok(false));
    assert_eq!(get_paused(r#"{"data": true}"#), Ok(true));
    assert_eq!(get_paused(r#"{"data": 1}"#), Err(MpvError::NotBool));
    assert_eq!(get_paused("{"), Err(MpvError::InvalidReply));
}

#[test]
fn properties_are_asked_for_by_name() {
    assert_eq!(
        Property::PlaybackTime.command(),
        r#"{ "command": ["get_property", "playback-time"] }"#
    );
    assert_eq!(Property::Pause.command(), r#"{ "command": ["get_property", "pause"] }"#);
    assert_eq!(Question::TimeOfSeek.property(), Property::PlaybackTime);
    assert_eq!(Question::TimeOfPause { is_paused: true }.property(), Property::PlaybackTime);
    assert_eq!(Question::PauseAfterSeek { position: 0 }.property(), Property::Pause);
}

#[test]
fn a_pause_is_told_with_its_position() {
    let mut skip = SkipNextSeek::new();
    skip.mark();
    let step = handle_mpv_messages(pause(true), &mut skip);
    assert_eq!(step, MpvStep::Ask(Question::TimeOfPause { is_paused: true }));
    assert!(skip.marked);
    let question = Question::TimeOfPause { is_paused: true };
    assert_eq!(
        handle_reply(question, r#"{"data": 8.5}"#),
        MpvStep::Broadcast { position: 8.5f64.to_bits(), is_paused: true }
    );
    assert_eq!(handle_reply(question, r#"{"data": null}"#), MpvStep::Fail(MpvError::NotNumber));
    assert_eq!(handle_reply(question, "?"), MpvStep::Fail(MpvError::InvalidReply));
}

#[test]
fn a_seek_is_told_with_its_position_and_state() {
    let mut skip = SkipNextSeek::new();
    assert_eq!(handle_mpv_messages(seek(), &mut skip), MpvStep::Ask(Question::TimeOfSeek));
    let position = 42.0f64.to_bits();
    assert_eq!(
        handle_reply(Question::TimeOfSeek, r#"{"data": 42}"#),
        MpvStep::Ask(Question::PauseAfterSeek { position })
    );
    let question = Question::PauseAfterSeek { position };
    assert_eq!(
        handle_reply(question, r#"{"data": false}"#),
        MpvStep::Broadcast { position, is_paused: false }
    );
    assert_eq!(handle_reply(question, r#"{"data": 0}"#), MpvStep::Fail(MpvError::NotBool));
}

#[test]
fn a_seek_to_nowhere_is_passed_over() {
    assert_eq!(handle_reply(Question::TimeOfSeek, r#"{"data": null}"#), MpvStep::Done);
    assert_eq!(handle_reply(Question::TimeOfSeek, r#"{"data": "x"}"#), MpvStep::Done);
    assert_eq!(
        handle_reply(Question::TimeOfSeek, "x"),
        MpvStep::Fail(MpvError::InvalidReply)
    );
}

#[test]
fn a_mark_passes_over_the_next_seek_alone() {
    let mut skip = SkipNextSeek::new();
    skip.mark();
    assert_eq!(
        handle_mpv_messages(pause(false), &mut skip),
        MpvStep::Ask(Question::TimeOfPause { is_paused: false })
    );
    assert_eq!(handle_mpv_messages(seek(), &mut skip), MpvStep::Done);
    assert!(!skip.marked);
    assert_eq!(handle_mpv_messages(seek(), &mut skip), MpvStep::Ask(Question::TimeOfSeek));
    assert!(!skip.take());
}

#[test]
fn every_message_is_dealt_with_after_two_questions() {
    let values = [
        Ok(ReplyValue::Null),
        Ok(ReplyValue::Bool(true)),
        Ok(ReplyValue::Bool(false)),
        number(1.5),
        Ok(ReplyValue::Other),
        Err(MpvError::InvalidReply),
    ];
    for message in [pause(true), pause(false), seek()] {
        for time in values {
            for state in values {
                let mut step = handle_mpv_messages(message, &mut SkipNextSeek::new());
                for _ in 0..2 {
                    if let MpvStep::Ask(question) = step {
                        let value = match question.property() {
                            Property::PlaybackTime => time,
                            Property::Pause => state,
                        };
                        step = handle_value(question, value);
                    }
                }
                assert!(!matches!(step, MpvStep::Ask(_)));
            }
        }
    }
}

#[test]
fn what_the_user_did_is_told() {
    let content = user_action_at(endpoint(2), 8.5f64.to_bits(), true, 99);
    assert_eq!(
        Event::decode(&content),
        Some(Event::StateUpdate(StateUpdate {
            peer_id: endpoint(2),
            timestamp_ms: 99,
            position: 8.5f64.to_bits(),
            is_paused: true,
            trigger: UpdateTrigger::UserAction,
        }))
    );
    let content = user_action(endpoint(2), 8.5f64.to_bits(), false).unwrap();
    match Event::decode(&content) {
        Some(Event::StateUpdate(update)) => {
            assert!(update.timestamp_ms > 1_600_000_000_000);
            assert!(!update.is_paused);
        }
        other => panic!("{other:?}"),
    }
}

#[test]
fn without_a_clock_nothing_is_told() {
    let place = 8.5f64.to_bits();
    assert_eq!(user_action_by(endpoint(2), place, true, None), None);
    assert_eq!(
        user_action_by(endpoint(2), place, true, Some(99)),
        Some(user_action_at(endpoint(2), place, true, 99))
    );
}
