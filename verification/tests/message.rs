use peerwatch::message::{Event, StateUpdate, UpdateTrigger};
use peerwatch::peers::EndpointId;

fn public_key(seed: u8) -> iroh::EndpointId {
    iroh::SecretKey::from_bytes(&[seed; 32]).public()
}

fn endpoint(seed: u8) -> EndpointId {
    EndpointId::from_bytes(*public_key(seed).as_bytes()).unwrap()
}

fn invalid_key() -> [u8; 32] {
    let mut byte = 0u8;
    loop {
        let bytes = [byte; 32];
        if iroh::EndpointId::from_bytes(&bytes).is_err() {
            return bytes;
        }
        byte += 1;
    }
}

fn update(trigger: UpdateTrigger) -> StateUpdate {
    StateUpdate::stamped(endpoint(1), 12.5f64.to_bits(), true, trigger, 1_700_000_000_000)
}

fn sample_events() -> Vec<Event> {
    vec![
        Event::StateUpdate(update(UpdateTrigger::UserAction)),
        Event::StateUpdate(update(UpdateTrigger::Periodic)),
        Event::StateUpdate(update(UpdateTrigger::Correction)),
        Event::StateUpdate(update(UpdateTrigger::Initial)),
        Event::PeerJoined { timestamp_ms: 0, endpoint_id: endpoint(2) },
        Event::PeerLeft { timestamp_ms: 127, endpoint_id: endpoint(3) },
        Event::Presence { timestamp_ms: 128, endpoint_id: endpoint(4) },
        Event::AnnounceLeader { timestamp_ms: u64::MAX, endpoint_id: endpoint(5) },
    ]
}

#[test]
fn notices_have_the_bytes_of_their_fields() {
    let id = public_key(7);
    for stamp in [0u64, 1, 127, 128, 16_383, 16_384, 1_700_000_000_000, u64::MAX] {
        let joined = Event::PeerJoined { timestamp_ms: stamp, endpoint_id: endpoint(7) };
        assert_eq!(joined.encode(), postcard::to_allocvec(&(1u32, stamp, id)).unwrap());
        let left = Event::PeerLeft { timestamp_ms: stamp, endpoint_id: endpoint(7) };
        assert_eq!(left.encode(), postcard::to_allocvec(&(2u32, stamp, id)).unwrap());
        let presence = Event::Presence { timestamp_ms: stamp, endpoint_id: endpoint(7) };
        assert_eq!(presence.encode(), postcard::to_allocvec(&(3u32, stamp, id)).unwrap());
        let leader = Event::AnnounceLeader { timestamp_ms: stamp, endpoint_id: endpoint(7) };
        assert_eq!(leader.encode(), postcard::to_allocvec(&(4u32, stamp, id)).unwrap());
    }
}

#[test]
fn a_notice_byte_for_byte() {
    let event = Event::PeerJoined { timestamp_ms: 300, endpoint_id: endpoint(7) };
    let mut expected = vec![1u8, 0xac, 0x02];
    expected.extend_from_slice(public_key(7).as_bytes());
    assert_eq!(event.encode(), expected);
}

#[test]
fn state_updates_have_the_bytes_of_their_fields() {
    let id = public_key(1);
    for (index, trigger) in [
        UpdateTrigger::UserAction,
        UpdateTrigger::Periodic,
        UpdateTrigger::Correction,
        UpdateTrigger::Initial,
    ]
    .into_iter()
    .enumerate()
    {
        let event = Event::StateUpdate(update(trigger));
        let fields = (0u32, id, 1_700_000_000_000u64, 12.5f64, true, index as u32);
        assert_eq!(event.encode(), postcard::to_allocvec(&fields).unwrap());
        assert_eq!(trigger.index(), index as u32);
        assert_eq!(UpdateTrigger::from_index(index as u32), Some(trigger));
    }
    assert_eq!(UpdateTrigger::from_index(4), None);
}

#[test]
fn events_are_read_back() {
    for event in sample_events() {
        let mut bytes = event.encode();
        assert_eq!(Event::decode(&bytes), Some(event));
        bytes.extend_from_slice(&[1, 2, 3]);
        assert_eq!(Event::decode(&bytes), Some(event));
    }
}

#[test]
fn cut_off_events_are_refused() {
    for event in sample_events() {
        let bytes = event.encode();
        for n in 0..bytes.len() {
            assert_eq!(Event::decode(&bytes[..n]), None);
        }
    }
}

#[test]
fn unknown_variants_are_refused() {
    let mut bytes = Event::PeerJoined { timestamp_ms: 1, endpoint_id: endpoint(2) }.encode();
    bytes[0] = 5;
    assert_eq!(Event::decode(&bytes), None);

    let mut bytes = Event::StateUpdate(update(UpdateTrigger::Initial)).encode();
    let last = bytes.len() - 1;
    bytes[last] = 4;
    assert_eq!(Event::decode(&bytes), None);
    bytes[last] = 0;
    bytes[last - 1] = 2;
    assert_eq!(Event::decode(&bytes), None);
    bytes[last - 1] = 0;
    assert!(matches!(
        Event::decode(&bytes),
        Some(Event::StateUpdate(StateUpdate {
            is_paused: false,
            trigger: UpdateTrigger::UserAction,
            ..
        }))
    ));
}

#[test]
fn invalid_keys_are_refused() {
    assert_eq!(EndpointId::from_bytes(invalid_key()), None);
    let mut bytes = vec![1u8, 0];
    bytes.extend_from_slice(&invalid_key());
    assert_eq!(Event::decode(&bytes), None);
}

#[test]
fn numbers_that_are_too_wide_are_refused() {
    let mut bytes = vec![1u8];
    bytes.extend_from_slice(&[0xff; 9]);
    bytes.push(0x02);
    bytes.extend_from_slice(public_key(2).as_bytes());
    assert_eq!(Event::decode(&bytes), None);
    bytes[10] = 0x01;
    assert_eq!(
        Event::decode(&bytes),
        Some(Event::PeerJoined { timestamp_ms: u64::MAX, endpoint_id: endpoint(2) })
    );
}

#[test]
fn leading_zero_digits_are_accepted() {
    let mut bytes = vec![0x81u8, 0x00, 0x80, 0x00];
    bytes.extend_from_slice(public_key(2).as_bytes());
    assert_eq!(
        Event::decode(&bytes),
        Some(Event::PeerJoined { timestamp_ms: 0, endpoint_id: endpoint(2) })
    );
}

#[test]
fn ages_are_never_negative() {
    let update = update(UpdateTrigger::Periodic);
    assert_eq!(update.age_at(1_700_000_000_250), 250);
    assert_eq!(update.age_at(1_700_000_000_000), 0);
    assert_eq!(update.age_at(5), 0);

    let mut future = update;
    future.timestamp_ms = u64::MAX;
    assert_eq!(future.age_ms(), Some(0));
    let mut past = update;
    past.timestamp_ms = 0;
    assert!(past.age_ms().unwrap() > 1_600_000_000_000);
}

#[test]
fn new_updates_carry_the_present_time() {
    let update =
        StateUpdate::new(endpoint(3), 7.25f64.to_bits(), false, UpdateTrigger::Correction)
            .unwrap();
    assert_eq!(update.peer_id, endpoint(3));
    assert_eq!(f64::from_bits(update.position), 7.25);
    assert!(!update.is_paused);
    assert_eq!(update.trigger, UpdateTrigger::Correction);
    assert!(update.age_ms().unwrap() < 60_000);
}

#[test]
fn without_a_clock_there_is_no_stamp_and_no_age() {
    let id = endpoint(3);
    let place = 7.25f64.to_bits();
    assert_eq!(StateUpdate::stamped_by(id, place, true, UpdateTrigger::Initial, None), None);
    assert_eq!(
        StateUpdate::stamped_by(id, place, true, UpdateTrigger::Initial, Some(42)),
        Some(StateUpdate::stamped(id, place, true, UpdateTrigger::Initial, 42))
    );
    let update = update(UpdateTrigger::Periodic);
    assert_eq!(update.age_by(None), None);
    assert_eq!(update.age_by(Some(1_700_000_000_250)), Some(250));
    assert_eq!(update.age_by(Some(3)), Some(0));
}
