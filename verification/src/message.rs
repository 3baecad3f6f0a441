//! What peers tell each other, and how it is put into bytes.

use crate::clock::now_ms;
use crate::peers::{is_public_key, EndpointId};
use crate::wire::{
    append_bytes, append_varint, lemma_cut, lemma_cut_varint, lemma_take_bytes_roundtrip,
    lemma_varint_roundtrip, take_array32,
    take_bytes, take_u32, take_u64, take_varint, varint,
};
use vstd::arithmetic::power2::pow2;
use vstd::bytes::{spec_u64_from_le_bytes, spec_u64_to_le_bytes, u64_from_le_bytes, u64_to_le_bytes};
use vstd::prelude::*;

verus! {

/// Why a state update was sent.
#[derive(Clone, Copy, Debug, PartialEq, Eq, Structural)]
pub enum UpdateTrigger {
    UserAction,
    Periodic,
    Correction,
    Initial,
}

/// The state of a peer's playback.
#[derive(Clone, Copy, Debug, PartialEq, Eq)]
pub struct StateUpdate {
    pub peer_id: EndpointId,
    pub timestamp_ms: u64,
    /// The playback position in seconds, as the bits of a double-precision
    /// number.
    pub position: u64,
    pub is_paused: bool,
    /// Why this update was sent
    pub trigger: UpdateTrigger,
}

/// A message between peers.
#[derive(Clone, Copy, Debug, PartialEq, Eq)]
pub enum Event {
    StateUpdate(StateUpdate),
    PeerJoined { timestamp_ms: u64, endpoint_id: EndpointId },
    PeerLeft { timestamp_ms: u64, endpoint_id: EndpointId },
    Presence { timestamp_ms: u64, endpoint_id: EndpointId },
    AnnounceLeader { timestamp_ms: u64, endpoint_id: EndpointId },
}

/// What an [`Event`] says, with its identifiers as byte sequences.
pub enum EventModel {
    StateUpdate {
        peer_id: Seq<u8>,
        timestamp_ms: u64,
        position: u64,
        is_paused: bool,
        trigger: UpdateTrigger,
    },
    PeerJoined { timestamp_ms: u64, endpoint_id: Seq<u8> },
    PeerLeft { timestamp_ms: u64, endpoint_id: Seq<u8> },
    Presence { timestamp_ms: u64, endpoint_id: Seq<u8> },
    AnnounceLeader { timestamp_ms: u64, endpoint_id: Seq<u8> },
}

impl StateUpdate {
    /// The update with the given time stamp.
    pub fn stamped(
        peer_id: EndpointId,
        position: u64,
        is_paused: bool,
        trigger: UpdateTrigger,
        timestamp_ms: u64,
    ) -> (update: StateUpdate)
        ensures
            update == (StateUpdate { peer_id, timestamp_ms, position, is_paused, trigger }),
    {
        StateUpdate { peer_id, timestamp_ms, position, is_paused, trigger }
    }

    /// The update stamped with the wall-clock time, or `None` where the clock
    /// stands before the epoch.
    pub fn new(
        peer_id: EndpointId,
        position: u64,
        is_paused: bool,
        trigger: UpdateTrigger,
    ) -> (update: Option<StateUpdate>)
        ensures
            update matches Some(update) ==> update == (StateUpdate {
                peer_id,
                timestamp_ms: update.timestamp_ms,
                position,
                is_paused,
                trigger,
            }),
    {
        StateUpdate::stamped_by(peer_id, position, is_paused, trigger, now_ms())
    }

    /// The update stamped with a reading of the clock, or `None` where the clock
    /// gave none.
    pub fn stamped_by(
        peer_id: EndpointId,
        position: u64,
        is_paused: bool,
        trigger: UpdateTrigger,
        reading: Option<u64>,
    ) -> (update: Option<StateUpdate>)
        ensures
            update == match reading {
                Some(timestamp_ms) => Some(
                    StateUpdate { peer_id, timestamp_ms, position, is_paused, trigger },
                ),
                None => None,
            },
    {
        match reading {
            Some(now) => Some(
                StateUpdate::stamped(peer_id, position, is_paused, trigger, now),
            ),
            None => None,
        }
    }

    /// The age of the update at the time `now`: zero where it was stamped
    /// later than that.
    pub fn age_at(&self, now: u64) -> (age: u64)
        ensures
            age == age_model(self.timestamp_ms, now),
            now >= self.timestamp_ms ==> self.timestamp_ms + age == now,
            now <= self.timestamp_ms ==> age == 0,
    {
        now.saturating_sub(self.timestamp_ms)
    }

    /// The age of the update by the wall clock, or `None` where the clock
    /// stands before the epoch.
    pub fn age_ms(&self) -> (age: Option<u64>)
        ensures
            age matches Some(age) ==> exists|now: u64|
                age == #[trigger] age_model(self.timestamp_ms, now),
    {
        self.age_by(now_ms())
    }

    /// The age of the update by a reading of the clock, or `None` where the
    /// clock gave none.
    pub fn age_by(&self, reading: Option<u64>) -> (age: Option<u64>)
        ensures
            match reading {
                Some(now) => age matches Some(age) && age == age_model(self.timestamp_ms, now) && (
                now >= self.timestamp_ms ==> self.timestamp_ms + age == now) && (now
                    <= self.timestamp_ms ==> age == 0),
                None => age is None,
            },
    {
        match reading {
            Some(now) => Some(self.age_at(now)),
            None => None,
        }
    }
}

/// The milliseconds from a time stamp to the time `now`: zero where the time
/// stamp is later than that.
pub open spec fn age_model(timestamp_ms: u64, now: u64) -> int {
    if now >= timestamp_ms {
        now - timestamp_ms
    } else {
        0
    }
}

/// The index of a trigger among the variants of [`UpdateTrigger`].
pub open spec fn trigger_index(trigger: UpdateTrigger) -> nat {
    match trigger {
        UpdateTrigger::UserAction => 0,
        UpdateTrigger::Periodic => 1,
        UpdateTrigger::Correction => 2,
        UpdateTrigger::Initial => 3,
    }
}

/// The trigger with the given index.
pub open spec fn trigger_at(index: nat) -> Option<UpdateTrigger> {
    if index == 0 {
        Some(UpdateTrigger::UserAction)
    } else if index == 1 {
        Some(UpdateTrigger::Periodic)
    } else if index == 2 {
        Some(UpdateTrigger::Correction)
    } else if index == 3 {
        Some(UpdateTrigger::Initial)
    } else {
        None
    }
}

/// The fields of a notice about a peer: a time stamp and the peer.
pub open spec fn parse_notice(bytes: Seq<u8>) -> Option<(u64, Seq<u8>)> {
    match take_varint(bytes, 64) {
        Some((timestamp_ms, rest)) => match take_bytes(rest, 32) {
            Some((endpoint_id, _)) => if is_public_key(endpoint_id) {
                Some((timestamp_ms as u64, endpoint_id))
            } else {
                None
            },
            None => None,
        },
        None => None,
    }
}

/// What stands behind the position in a state update: whether playback is
/// paused, and the trigger.
pub open spec fn parse_update_tail(bytes: Seq<u8>) -> Option<(bool, UpdateTrigger)> {
    if bytes.len() == 0 || bytes[0] > 1 {
        None
    } else {
        match take_varint(bytes.skip(1), 32) {
            Some((index, _)) => match trigger_at(index) {
                Some(trigger) => Some((bytes[0] == 1, trigger)),
                None => None,
            },
            None => None,
        }
    }
}

/// The fields of a state update.
pub open spec fn parse_update(bytes: Seq<u8>) -> Option<EventModel> {
    match take_bytes(bytes, 32) {
        Some((peer_id, rest)) => if is_public_key(peer_id) {
            match take_varint(rest, 64) {
                Some((timestamp_ms, rest)) => match take_bytes(rest, 8) {
                    Some((position, rest)) => match parse_update_tail(rest) {
                        Some((is_paused, trigger)) => Some(
                            EventModel::StateUpdate {
                                peer_id,
                                timestamp_ms: timestamp_ms as u64,
                                position: spec_u64_from_le_bytes(position),
                                is_paused,
                                trigger,
                            },
                        ),
                        None => None,
                    },
                    None => None,
                },
                None => None,
            }
        } else {
            None
        },
        None => None,
    }
}

/// The bytes of the fields of a state update.
pub open spec fn update_wire(
    peer_id: Seq<u8>,
    timestamp_ms: u64,
    position: u64,
    is_paused: bool,
    trigger: UpdateTrigger,
) -> Seq<u8> {
    peer_id + (varint(timestamp_ms as nat) + (spec_u64_to_le_bytes(position) + (seq![
        if is_paused {
            1u8
        } else {
            0u8
        },
    ] + varint(trigger_index(trigger)))))
}

impl EventModel {
    /// Whether the identifier in the event is a public key.
    pub open spec fn has_valid_id(self) -> bool {
        match self {
            EventModel::StateUpdate { peer_id, .. } => is_public_key(peer_id)
                && peer_id.len() == 32,
            EventModel::PeerJoined { endpoint_id, .. }
            | EventModel::PeerLeft { endpoint_id, .. }
            | EventModel::Presence { endpoint_id, .. }
            | EventModel::AnnounceLeader { endpoint_id, .. } => is_public_key(endpoint_id)
                && endpoint_id.len() == 32,
        }
    }

    /// The bytes of the event: the index of its variant and its fields.
    pub open spec fn wire(self) -> Seq<u8> {
        match self {
            EventModel::StateUpdate { peer_id, timestamp_ms, position, is_paused, trigger } => {
                varint(0) + update_wire(peer_id, timestamp_ms, position, is_paused, trigger)
            },
            EventModel::PeerJoined { timestamp_ms, endpoint_id } => varint(1) + (varint(
                timestamp_ms as nat,
            ) + endpoint_id),
            EventModel::PeerLeft { timestamp_ms, endpoint_id } => varint(2) + (varint(
                timestamp_ms as nat,
            ) + endpoint_id),
            EventModel::Presence { timestamp_ms, endpoint_id } => varint(3) + (varint(
                timestamp_ms as nat,
            ) + endpoint_id),
            EventModel::AnnounceLeader { timestamp_ms, endpoint_id } => varint(4) + (varint(
                timestamp_ms as nat,
            ) + endpoint_id),
        }
    }

    /// The event that `bytes` begin with. What stands behind it is ignored.
    pub open spec fn parse(bytes: Seq<u8>) -> Option<EventModel> {
        match take_varint(bytes, 32) {
            Some((index, rest)) => if index == 0 {
                parse_update(rest)
            } else {
                match parse_notice(rest) {
                    Some((timestamp_ms, endpoint_id)) => if index == 1 {
                        Some(EventModel::PeerJoined { timestamp_ms, endpoint_id })
                    } else if index == 2 {
                        Some(EventModel::PeerLeft { timestamp_ms, endpoint_id })
                    } else if index == 3 {
                        Some(EventModel::Presence { timestamp_ms, endpoint_id })
                    } else if index == 4 {
                        Some(EventModel::AnnounceLeader { timestamp_ms, endpoint_id })
                    } else {
                        None
                    },
                    None => None,
                }
            },
            None => None,
        }
    }
}

/// Small numbers fit in an integer of 32 bits, and every `u64` in one of 64.
proof fn lemma_widths()
    ensures
        pow2(32) == 0x1_0000_0000,
        pow2(64) == 0x1_0000_0000_0000_0000,
{
    vstd::arithmetic::power2::lemma2_to64();
    vstd::arithmetic::power2::lemma2_to64_rest();
}

/// The fields of a notice are read back as they were written.
proof fn lemma_notice_roundtrip(timestamp_ms: u64, endpoint_id: Seq<u8>, rest: Seq<u8>)
    requires
        is_public_key(endpoint_id),
        endpoint_id.len() == 32,
    ensures
        parse_notice((varint(timestamp_ms as nat) + endpoint_id) + rest) == Some(
            (timestamp_ms, endpoint_id),
        ),
{
    lemma_widths();
    let bytes = (varint(timestamp_ms as nat) + endpoint_id) + rest;
    assert(bytes =~= varint(timestamp_ms as nat) + (endpoint_id + rest));
    lemma_varint_roundtrip(timestamp_ms as nat, 64, endpoint_id + rest);
    lemma_take_bytes_roundtrip(endpoint_id, rest);
}

/// What is written of an event is read back as that event, whatever bytes
/// follow it.
pub proof fn lemma_event_roundtrip(event: EventModel, rest: Seq<u8>)
    requires
        event.has_valid_id(),
    ensures
        EventModel::parse(event.wire() + rest) == Some(event),
{
    lemma_widths();
    match event {
        EventModel::StateUpdate { peer_id, timestamp_ms, position, is_paused, trigger } => {
            let flag = seq![
                if is_paused {
                    1u8
                } else {
                    0u8
                },
            ];
            let end = varint(trigger_index(trigger)) + rest;
            let tail = flag + end;
            let place = spec_u64_to_le_bytes(position) + tail;
            let stamp = varint(timestamp_ms as nat) + place;
            assert(event.wire() + rest =~= varint(0) + (peer_id + stamp));
            lemma_varint_roundtrip(0, 32, peer_id + stamp);
            lemma_take_bytes_roundtrip(peer_id, stamp);
            lemma_varint_roundtrip(timestamp_ms as nat, 64, place);
            vstd::bytes::lemma_auto_spec_u64_to_from_le_bytes();
            lemma_take_bytes_roundtrip(spec_u64_to_le_bytes(position), tail);
            assert(tail.skip(1) =~= end);
            lemma_varint_roundtrip(trigger_index(trigger), 32, rest);
        },
        EventModel::PeerJoined { timestamp_ms, endpoint_id } => {
            let notice = varint(timestamp_ms as nat) + endpoint_id;
            assert(event.wire() + rest =~= varint(1) + (notice + rest));
            lemma_varint_roundtrip(1, 32, notice + rest);
            lemma_notice_roundtrip(timestamp_ms, endpoint_id, rest);
        },
        EventModel::PeerLeft { timestamp_ms, endpoint_id } => {
            let notice = varint(timestamp_ms as nat) + endpoint_id;
            assert(event.wire() + rest =~= varint(2) + (notice + rest));
            lemma_varint_roundtrip(2, 32, notice + rest);
            lemma_notice_roundtrip(timestamp_ms, endpoint_id, rest);
        },
        EventModel::Presence { timestamp_ms, endpoint_id } => {
            let notice = varint(timestamp_ms as nat) + endpoint_id;
            assert(event.wire() + rest =~= varint(3) + (notice + rest));
            lemma_varint_roundtrip(3, 32, notice + rest);
            lemma_notice_roundtrip(timestamp_ms, endpoint_id, rest);
        },
        EventModel::AnnounceLeader { timestamp_ms, endpoint_id } => {
            let notice = varint(timestamp_ms as nat) + endpoint_id;
            assert(event.wire() + rest =~= varint(4) + (notice + rest));
            lemma_varint_roundtrip(4, 32, notice + rest);
            lemma_notice_roundtrip(timestamp_ms, endpoint_id, rest);
        },
    }
}

/// A notice that is cut off is refused.
proof fn lemma_cut_notice(timestamp_ms: u64, endpoint_id: Seq<u8>, n: int)
    requires
        endpoint_id.len() == 32,
        0 <= n < varint(timestamp_ms as nat).len() + 32,
    ensures
        parse_notice((varint(timestamp_ms as nat) + endpoint_id).take(n)) is None,
{
    lemma_widths();
    let stamp = varint(timestamp_ms as nat);
    lemma_cut(stamp, endpoint_id, n);
    if n < stamp.len() {
        lemma_cut_varint(timestamp_ms as nat, 64, n);
    } else {
        lemma_varint_roundtrip(timestamp_ms as nat, 64, endpoint_id.take(n - stamp.len()));
    }
}

/// A state update that is cut off is refused.
proof fn lemma_cut_update(
    peer_id: Seq<u8>,
    timestamp_ms: u64,
    position: u64,
    is_paused: bool,
    trigger: UpdateTrigger,
    n: int,
)
    requires
        peer_id.len() == 32,
        0 <= n < update_wire(peer_id, timestamp_ms, position, is_paused, trigger).len(),
    ensures
        parse_update(
            update_wire(peer_id, timestamp_ms, position, is_paused, trigger).take(n),
        ) is None,
{
    lemma_widths();
    vstd::bytes::lemma_auto_spec_u64_to_from_le_bytes();
    let end = varint(trigger_index(trigger));
    let tail = seq![
        if is_paused {
            1u8
        } else {
            0u8
        },
    ] + end;
    let place = spec_u64_to_le_bytes(position);
    let stamp = varint(timestamp_ms as nat);
    lemma_cut(peer_id, stamp + (place + tail), n);
    if n >= 32 {
        let n = n - 32;
        lemma_take_bytes_roundtrip(peer_id, (stamp + (place + tail)).take(n));
        lemma_cut(stamp, place + tail, n);
        if n < stamp.len() {
            lemma_cut_varint(timestamp_ms as nat, 64, n);
        } else {
            let n = n - stamp.len();
            lemma_varint_roundtrip(timestamp_ms as nat, 64, (place + tail).take(n));
            lemma_cut(place, tail, n);
            if n >= 8 {
                let n = n - 8;
                lemma_take_bytes_roundtrip(place, tail.take(n));
                if n > 0 {
                    assert(tail.take(n).skip(1) =~= end.take(n - 1));
                    lemma_cut_varint(trigger_index(trigger), 32, n - 1);
                }
            }
        }
    }
}

/// An event that is cut off anywhere is refused.
pub proof fn lemma_cut_event(event: EventModel, n: int)
    requires
        event.has_valid_id(),
        0 <= n < event.wire().len(),
    ensures
        EventModel::parse(event.wire().take(n)) is None,
{
    lemma_widths();
    let (index, fields) = match event {
        EventModel::StateUpdate { peer_id, timestamp_ms, position, is_paused, trigger } => (
            0nat,
            update_wire(peer_id, timestamp_ms, position, is_paused, trigger),
        ),
        EventModel::PeerJoined { timestamp_ms, endpoint_id } => (
            1nat,
            varint(timestamp_ms as nat) + endpoint_id,
        ),
        EventModel::PeerLeft { timestamp_ms, endpoint_id } => (
            2nat,
            varint(timestamp_ms as nat) + endpoint_id,
        ),
        EventModel::Presence { timestamp_ms, endpoint_id } => (
            3nat,
            varint(timestamp_ms as nat) + endpoint_id,
        ),
        EventModel::AnnounceLeader { timestamp_ms, endpoint_id } => (
            4nat,
            varint(timestamp_ms as nat) + endpoint_id,
        ),
    };
    assert(event.wire() =~= varint(index) + fields);
    lemma_cut(varint(index), fields, n);
    if n < varint(index).len() {
        lemma_cut_varint(index, 32, n);
    } else {
        let n = n - varint(index).len();
        lemma_varint_roundtrip(index, 32, fields.take(n));
        match event {
            EventModel::StateUpdate { peer_id, timestamp_ms, position, is_paused, trigger } => {
                lemma_cut_update(peer_id, timestamp_ms, position, is_paused, trigger, n);
            },
            EventModel::PeerJoined { timestamp_ms, endpoint_id }
            | EventModel::PeerLeft { timestamp_ms, endpoint_id }
            | EventModel::Presence { timestamp_ms, endpoint_id }
            | EventModel::AnnounceLeader { timestamp_ms, endpoint_id } => {
                lemma_cut_notice(timestamp_ms, endpoint_id, n);
            },
        }
    }
}

impl View for Event {
    type V = EventModel;

    open spec fn view(&self) -> EventModel {
        match *self {
            Event::StateUpdate(update) => EventModel::StateUpdate {
                peer_id: update.peer_id@,
                timestamp_ms: update.timestamp_ms,
                position: update.position,
                is_paused: update.is_paused,
                trigger: update.trigger,
            },
            Event::PeerJoined { timestamp_ms, endpoint_id } => EventModel::PeerJoined {
                timestamp_ms,
                endpoint_id: endpoint_id@,
            },
            Event::PeerLeft { timestamp_ms, endpoint_id } => EventModel::PeerLeft {
                timestamp_ms,
                endpoint_id: endpoint_id@,
            },
            Event::Presence { timestamp_ms, endpoint_id } => EventModel::Presence {
                timestamp_ms,
                endpoint_id: endpoint_id@,
            },
            Event::AnnounceLeader { timestamp_ms, endpoint_id } => EventModel::AnnounceLeader {
                timestamp_ms,
                endpoint_id: endpoint_id@,
            },
        }
    }
}

impl UpdateTrigger {
    /// The index of the trigger among the variants.
    pub fn index(&self) -> (index: u32)
        ensures
            index == trigger_index(*self),
            index == 0 <==> *self == UpdateTrigger::UserAction,
            index == 1 <==> *self == UpdateTrigger::Periodic,
            index == 2 <==> *self == UpdateTrigger::Correction,
            index == 3 <==> *self == UpdateTrigger::Initial,
    {
        match self {
            UpdateTrigger::UserAction => 0,
            UpdateTrigger::Periodic => 1,
            UpdateTrigger::Correction => 2,
            UpdateTrigger::Initial => 3,
        }
    }

    /// The trigger with the given index.
    pub fn from_index(index: u32) -> (trigger: Option<UpdateTrigger>)
        ensures
            trigger == trigger_at(index as nat),
    {
        match index {
            0 => Some(UpdateTrigger::UserAction),
            1 => Some(UpdateTrigger::Periodic),
            2 => Some(UpdateTrigger::Correction),
            3 => Some(UpdateTrigger::Initial),
            _ => None,
        }
    }
}

/// The bytes of a notice: the index of its variant, its time stamp and the
/// peer that it is about.
fn encode_notice(index: u64, timestamp_ms: u64, endpoint_id: &EndpointId) -> (bytes: Vec<u8>)
    ensures
        bytes@ == varint(index as nat) + (varint(timestamp_ms as nat) + endpoint_id@),
        is_public_key(endpoint_id@),
        endpoint_id@.len() == 32,
{
    let mut bytes: Vec<u8> = Vec::new();
    append_varint(&mut bytes, index);
    append_varint(&mut bytes, timestamp_ms);
    let id = endpoint_id.to_bytes();
    append_bytes(&mut bytes, id.as_slice());
    assert(bytes@ =~= varint(index as nat) + (varint(timestamp_ms as nat) + endpoint_id@));
    bytes
}

/// Reads the fields of a notice.
fn decode_notice(bytes: &[u8]) -> (notice: Option<(u64, EndpointId)>)
    ensures
        match notice {
            Some((timestamp_ms, endpoint_id)) => parse_notice(bytes@) == Some(
                (timestamp_ms, endpoint_id@),
            ),
            None => parse_notice(bytes@) is None,
        },
{
    let (timestamp_ms, rest) = take_u64(bytes)?;
    let (id, _) = take_array32(rest)?;
    let endpoint_id = EndpointId::from_bytes(id)?;
    Some((timestamp_ms, endpoint_id))
}

/// Reads the fields of a state update.
fn decode_update(bytes: &[u8]) -> (update: Option<StateUpdate>)
    ensures
        match update {
            Some(update) => parse_update(bytes@) == Some(Event::StateUpdate(update)@),
            None => parse_update(bytes@) is None,
        },
{
    let (id, rest) = take_array32(bytes)?;
    let peer_id = EndpointId::from_bytes(id)?;
    let (timestamp_ms, rest) = take_u64(rest)?;
    if rest.len() < 8 {
        return None;
    }
    let (place, tail) = rest.split_at(8);
    assert(place@ =~= rest@.take(8));
    assert(tail@ =~= rest@.skip(8));
    let position = u64_from_le_bytes(place);
    if tail.len() == 0 || tail[0] > 1 {
        return None;
    }
    let is_paused = tail[0] == 1;
    let (_, end) = tail.split_at(1);
    assert(end@ =~= tail@.skip(1));
    let (index, _) = take_u32(end)?;
    let trigger = UpdateTrigger::from_index(index)?;
    Some(StateUpdate { peer_id, timestamp_ms, position, is_paused, trigger })
}

impl Event {
    /// The bytes that tell a peer of the event. They are read back as this
    /// event.
    pub fn encode(&self) -> (bytes: Vec<u8>)
        ensures
            bytes@ == self@.wire(),
            EventModel::parse(bytes@) == Some(self@),
            self matches Event::PeerJoined { timestamp_ms, endpoint_id } ==> bytes@ == seq![1u8]
                + varint(*timestamp_ms as nat) + endpoint_id@,
            self matches Event::PeerLeft { timestamp_ms, endpoint_id } ==> bytes@ == seq![2u8]
                + varint(*timestamp_ms as nat) + endpoint_id@,
            self matches Event::Presence { timestamp_ms, endpoint_id } ==> bytes@ == seq![3u8]
                + varint(*timestamp_ms as nat) + endpoint_id@,
            self matches Event::AnnounceLeader { timestamp_ms, endpoint_id } ==> bytes@
                == seq![4u8] + varint(*timestamp_ms as nat) + endpoint_id@,
    {
        let bytes = match self {
            Event::StateUpdate(update) => {
                let mut bytes: Vec<u8> = Vec::new();
                append_varint(&mut bytes, 0);
                let id = update.peer_id.to_bytes();
                append_bytes(&mut bytes, id.as_slice());
                append_varint(&mut bytes, update.timestamp_ms);
                let mut position = u64_to_le_bytes(update.position);
                bytes.append(&mut position);
                let flag: u8 = if update.is_paused {
                    1
                } else {
                    0
                };
                bytes.push(flag);
                append_varint(&mut bytes, update.trigger.index() as u64);
                assert(bytes@ =~= self@.wire());
                bytes
            },
            Event::PeerJoined { timestamp_ms, endpoint_id } => {
                encode_notice(1, *timestamp_ms, endpoint_id)
            },
            Event::PeerLeft { timestamp_ms, endpoint_id } => {
                encode_notice(2, *timestamp_ms, endpoint_id)
            },
            Event::Presence { timestamp_ms, endpoint_id } => {
                encode_notice(3, *timestamp_ms, endpoint_id)
            },
            Event::AnnounceLeader { timestamp_ms, endpoint_id } => {
                encode_notice(4, *timestamp_ms, endpoint_id)
            },
        };
        proof {
            lemma_event_layout(self@);
            lemma_event_roundtrip(self@, Seq::empty());
            assert(self@.wire() + Seq::<u8>::empty() =~= self@.wire());
        }
        bytes
    }

    /// The event that `bytes` begin with, or `None` where they do not begin
    /// with one. What stands behind it is ignored.
    pub fn decode(bytes: &[u8]) -> (event: Option<Event>)
        ensures
            match event {
                Some(event) => EventModel::parse(bytes@) == Some(event@),
                None => EventModel::parse(bytes@) is None,
            },
    {
        let (index, rest) = take_u32(bytes)?;
        if index == 0 {
            let update = decode_update(rest)?;
            return Some(Event::StateUpdate(update));
        }
        let (timestamp_ms, endpoint_id) = decode_notice(rest)?;
        match index {
            1 => Some(Event::PeerJoined { timestamp_ms, endpoint_id }),
            2 => Some(Event::PeerLeft { timestamp_ms, endpoint_id }),
            3 => Some(Event::Presence { timestamp_ms, endpoint_id }),
            4 => Some(Event::AnnounceLeader { timestamp_ms, endpoint_id }),
            _ => None,
        }
    }
}

/// A time stamp and an age make up the present time, and what was stamped in the
/// future has no age.
pub proof fn lemma_age(timestamp_ms: u64, now: u64)
    ensures
        now >= timestamp_ms ==> timestamp_ms + age_model(timestamp_ms, now) == now,
        now <= timestamp_ms ==> age_model(timestamp_ms, now) == 0,
{
}

/// Every trigger has its index, and an index that no trigger has is none.
pub proof fn lemma_triggers(trigger: UpdateTrigger, index: nat)
    ensures
        trigger_at(index) == Some(trigger) <==> {
            ||| index == 0 && trigger == UpdateTrigger::UserAction
            ||| index == 1 && trigger == UpdateTrigger::Periodic
            ||| index == 2 && trigger == UpdateTrigger::Correction
            ||| index == 3 && trigger == UpdateTrigger::Initial
        },
        trigger_at(index) is None <==> index > 3,
        trigger_at(trigger_index(trigger)) == Some(trigger),
{
}

/// A notice is read exactly where a time stamp stands in front and the bytes of
/// a public key behind it, and says just these.
pub proof fn lemma_notice_read(bytes: Seq<u8>, timestamp_ms: u64, endpoint_id: Seq<u8>)
    ensures
        parse_notice(bytes) == Some((timestamp_ms, endpoint_id)) <==> {
            &&& take_varint(bytes, 64) matches Some((value, rest))
            &&& value == timestamp_ms
            &&& rest.len() >= 32
            &&& endpoint_id == rest.take(32)
            &&& is_public_key(endpoint_id)
        },
{
    lemma_widths();
    crate::wire::lemma_varint_fits(bytes, 64);
}

/// A state update is read exactly where the bytes of a public key, a time stamp,
/// a position, a truth value and a trigger stand one behind the other, and says
/// just these.
pub proof fn lemma_update_read(
    bytes: Seq<u8>,
    peer_id: Seq<u8>,
    timestamp_ms: u64,
    position: u64,
    is_paused: bool,
    trigger: UpdateTrigger,
)
    ensures
        parse_update(bytes) == Some(
            EventModel::StateUpdate { peer_id, timestamp_ms, position, is_paused, trigger },
        ) <==> {
            &&& bytes.len() >= 32
            &&& peer_id == bytes.take(32)
            &&& is_public_key(peer_id)
            &&& take_varint(bytes.skip(32), 64) matches Some((value, rest))
            &&& value == timestamp_ms
            &&& rest.len() >= 9
            &&& position == spec_u64_from_le_bytes(rest.take(8))
            &&& is_paused && rest[8] == 1 || !is_paused && rest[8] == 0
            &&& take_varint(rest.skip(9), 32) matches Some((index, _))
            &&& trigger_at(index) == Some(trigger)
        },
{
    lemma_widths();
    if bytes.len() >= 32 {
        crate::wire::lemma_varint_fits(bytes.skip(32), 64);
        if let Some((_, rest)) = take_varint(bytes.skip(32), 64) {
            if rest.len() >= 9 {
                assert(rest.skip(8).skip(1) =~= rest.skip(9));
                assert(rest.skip(8)[0] == rest[8]);
            }
        }
    }
}

/// An event is read exactly where the index of its variant stands in front and
/// its fields behind it. An index that no variant has is none.
pub proof fn lemma_event_read(bytes: Seq<u8>, event: EventModel)
    ensures
        EventModel::parse(bytes) == Some(event) <==> {
            &&& take_varint(bytes, 32) matches Some((index, rest))
            &&& match event {
                EventModel::StateUpdate { .. } => index == 0 && parse_update(rest) == Some(event),
                EventModel::PeerJoined { timestamp_ms, endpoint_id } => index == 1 && parse_notice(
                    rest,
                ) == Some((timestamp_ms, endpoint_id)),
                EventModel::PeerLeft { timestamp_ms, endpoint_id } => index == 2 && parse_notice(
                    rest,
                ) == Some((timestamp_ms, endpoint_id)),
                EventModel::Presence { timestamp_ms, endpoint_id } => index == 3 && parse_notice(
                    rest,
                ) == Some((timestamp_ms, endpoint_id)),
                EventModel::AnnounceLeader { timestamp_ms, endpoint_id } => index == 4
                    && parse_notice(rest) == Some((timestamp_ms, endpoint_id)),
            }
        },
{
}

/// The bytes of an event, one by one: the index of the variant, and then its
/// fields in their order.
pub proof fn lemma_event_layout(event: EventModel)
    ensures
        event matches EventModel::StateUpdate {
            peer_id,
            timestamp_ms,
            position,
            is_paused,
            trigger,
        } ==> event.wire() == seq![0u8] + peer_id + varint(timestamp_ms as nat)
            + spec_u64_to_le_bytes(position) + seq![
            if is_paused {
                1u8
            } else {
                0u8
            },
            match trigger {
                UpdateTrigger::UserAction => 0u8,
                UpdateTrigger::Periodic => 1u8,
                UpdateTrigger::Correction => 2u8,
                UpdateTrigger::Initial => 3u8,
            },
        ],
        event matches EventModel::PeerJoined { timestamp_ms, endpoint_id } ==> event.wire()
            == seq![1u8] + varint(timestamp_ms as nat) + endpoint_id,
        event matches EventModel::PeerLeft { timestamp_ms, endpoint_id } ==> event.wire()
            == seq![2u8] + varint(timestamp_ms as nat) + endpoint_id,
        event matches EventModel::Presence { timestamp_ms, endpoint_id } ==> event.wire()
            == seq![3u8] + varint(timestamp_ms as nat) + endpoint_id,
        event matches EventModel::AnnounceLeader { timestamp_ms, endpoint_id } ==> event.wire()
            == seq![4u8] + varint(timestamp_ms as nat) + endpoint_id,
{
    match event {
        EventModel::StateUpdate { peer_id, timestamp_ms, position, is_paused, trigger } => {
            assert(event.wire() =~= seq![0u8] + peer_id + varint(timestamp_ms as nat)
                + spec_u64_to_le_bytes(position) + seq![
                if is_paused {
                    1u8
                } else {
                    0u8
                },
                match trigger {
                    UpdateTrigger::UserAction => 0u8,
                    UpdateTrigger::Periodic => 1u8,
                    UpdateTrigger::Correction => 2u8,
                    UpdateTrigger::Initial => 3u8,
                },
            ]);
        },
        EventModel::PeerJoined { timestamp_ms, endpoint_id } => {
            assert(event.wire() =~= seq![1u8] + varint(timestamp_ms as nat) + endpoint_id);
        },
        EventModel::PeerLeft { timestamp_ms, endpoint_id } => {
            assert(event.wire() =~= seq![2u8] + varint(timestamp_ms as nat) + endpoint_id);
        },
        EventModel::Presence { timestamp_ms, endpoint_id } => {
            assert(event.wire() =~= seq![3u8] + varint(timestamp_ms as nat) + endpoint_id);
        },
        EventModel::AnnounceLeader { timestamp_ms, endpoint_id } => {
            assert(event.wire() =~= seq![4u8] + varint(timestamp_ms as nat) + endpoint_id);
        },
    }
}

/// What an event says is what it holds: its kind, and every field as it is.
pub proof fn lemma_event_view(event: Event)
    ensures
        event matches Event::StateUpdate(update) ==> event@ == (EventModel::StateUpdate {
            peer_id: update.peer_id@,
            timestamp_ms: update.timestamp_ms,
            position: update.position,
            is_paused: update.is_paused,
            trigger: update.trigger,
        }),
        event matches Event::PeerJoined { timestamp_ms, endpoint_id } ==> event@
            == (EventModel::PeerJoined { timestamp_ms, endpoint_id: endpoint_id@ }),
        event matches Event::PeerLeft { timestamp_ms, endpoint_id } ==> event@
            == (EventModel::PeerLeft { timestamp_ms, endpoint_id: endpoint_id@ }),
        event matches Event::Presence { timestamp_ms, endpoint_id } ==> event@
            == (EventModel::Presence { timestamp_ms, endpoint_id: endpoint_id@ }),
        event matches Event::AnnounceLeader { timestamp_ms, endpoint_id } ==> event@
            == (EventModel::AnnounceLeader { timestamp_ms, endpoint_id: endpoint_id@ }),
{
}

} // verus!
