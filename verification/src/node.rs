//! A member of a group that watches together.

use crate::clock::now_ms;
use crate::message::{Event, EventModel};
use crate::peers::{ascending, EndpointId, PeerSet};
use crate::ticket::{
    parse_ticket_text, BlobFormat, BlobTicket, PeerWatchTicket, TicketError, TicketModel,
    TransportAddrs,
};
use vstd::prelude::*;

verus! {

/// The bytes that are fetched and checked together when a blob is downloaded.
pub const CHUNK_BYTES: usize = 1024;

/// What the gossip layer tells of a topic.
#[derive(Debug)]
pub enum GossipEvent {
    /// A peer broadcast these bytes.
    Received(Vec<u8>),
    NeighborUp(EndpointId),
    NeighborDown(EndpointId),
    /// Messages were lost because they were not taken fast enough.
    Lagged,
    /// An error came in place of a report.
    Failed,
}

/// What becomes of the stream of events when the gossip layer reports.
#[derive(Debug)]
pub enum StreamStep {
    /// The event comes next.
    Yield(Event),
    /// Nothing comes of the report; the next one decides.
    Skip,
    /// The error comes next, and then the stream has ended.
    Fail,
    /// The stream has ended.
    End,
}

/// What a [`StreamStep`] says.
pub enum StepModel {
    Yield(EventModel),
    Skip,
    Fail,
    End,
}

impl View for StreamStep {
    type V = StepModel;

    open spec fn view(&self) -> StepModel {
        match *self {
            StreamStep::Yield(event) => StepModel::Yield(event@),
            StreamStep::Skip => StepModel::Skip,
            StreamStep::Fail => StepModel::Fail,
            StreamStep::End => StepModel::End,
        }
    }
}

/// What a report makes of the stream of events at the time `now`.
///
/// A broadcast is the event that it encodes and is skipped where it encodes
/// none. A neighbor that comes or goes is an event with the present time. The
/// stream ends with the reports, where some were lost, and behind an error.
pub open spec fn stream_step(report: Option<GossipEvent>, now: u64) -> StepModel {
    match report {
        None => StepModel::End,
        Some(GossipEvent::Lagged) => StepModel::End,
        Some(GossipEvent::Failed) => StepModel::Fail,
        Some(GossipEvent::Received(content)) => match EventModel::parse(content@) {
            Some(event) => StepModel::Yield(event),
            None => StepModel::Skip,
        },
        Some(GossipEvent::NeighborUp(id)) => StepModel::Yield(
            EventModel::PeerJoined { timestamp_ms: now, endpoint_id: id@ },
        ),
        Some(GossipEvent::NeighborDown(id)) => StepModel::Yield(
            EventModel::PeerLeft { timestamp_ms: now, endpoint_id: id@ },
        ),
    }
}

/// What a report makes of the stream of events at the time `now`.
pub fn next_event_at(report: Option<GossipEvent>, now: u64) -> (step: StreamStep)
    ensures
        step@ == stream_step(report, now),
        report matches Some(GossipEvent::NeighborUp(id)) ==> step@ == StepModel::Yield(
            EventModel::PeerJoined { timestamp_ms: now, endpoint_id: id@ },
        ),
        report matches Some(GossipEvent::NeighborDown(id)) ==> step@ == StepModel::Yield(
            EventModel::PeerLeft { timestamp_ms: now, endpoint_id: id@ },
        ),
        report matches Some(GossipEvent::Received(content)) ==> match EventModel::parse(content@) {
            Some(event) => step@ == StepModel::Yield(event),
            None => step@ == StepModel::Skip,
        },
{
    match report {
        None => StreamStep::End,
        Some(GossipEvent::Lagged) => StreamStep::End,
        Some(GossipEvent::Failed) => StreamStep::Fail,
        Some(GossipEvent::Received(content)) => match Event::decode(content.as_slice()) {
            Some(event) => StreamStep::Yield(event),
            None => StreamStep::Skip,
        },
        Some(GossipEvent::NeighborUp(id)) => StreamStep::Yield(
            Event::PeerJoined { timestamp_ms: now, endpoint_id: id },
        ),
        Some(GossipEvent::NeighborDown(id)) => StreamStep::Yield(
            Event::PeerLeft { timestamp_ms: now, endpoint_id: id },
        ),
    }
}

/// What a report makes of the stream of events, by the wall clock.
///
/// `None` only where the report needs a time stamp and the clock stands before
/// the epoch.
pub fn next_event(report: Option<GossipEvent>) -> (step: Option<StreamStep>)
    ensures
        match step {
            Some(step) => exists|now: u64| step@ == #[trigger] stream_step(report, now),
            None => needs_stamp(report) && (report matches Some(GossipEvent::NeighborUp(_))
                || report matches Some(GossipEvent::NeighborDown(_))),
        },
{
    let stamped = matches!(
        report,
        Some(GossipEvent::NeighborUp(_)) | Some(GossipEvent::NeighborDown(_))
    );
    let reading = if stamped {
        now_ms()
    } else {
        None
    };
    let step = next_event_by(report, reading);
    proof {
        let now: u64 = match reading {
            Some(now) => now,
            None => 0,
        };
        assert(step matches Some(step) ==> step@ == stream_step(report, now));
    }
    step
}

/// Whether the event that comes of a report carries the present time.
pub open spec fn needs_stamp(report: Option<GossipEvent>) -> bool {
    report matches Some(GossipEvent::NeighborUp(_)) || report matches Some(
        GossipEvent::NeighborDown(_),
    )
}

/// What a report makes of the stream of events, by a reading of the clock.
///
/// `None` exactly where the report needs a time stamp and the clock gave none.
pub fn next_event_by(report: Option<GossipEvent>, reading: Option<u64>) -> (step: Option<
    StreamStep,
>)
    ensures
        match reading {
            Some(now) => step matches Some(step) && step@ == stream_step(report, now),
            None => if needs_stamp(report) {
                step is None
            } else {
                step matches Some(step) && forall|now: u64|
                    step@ == #[trigger] stream_step(report, now)
            },
        },
{
    let stamped = matches!(
        report,
        Some(GossipEvent::NeighborUp(_)) | Some(GossipEvent::NeighborDown(_))
    );
    match reading {
        Some(now) => Some(next_event_at(report, now)),
        None => {
            if stamped {
                None
            } else {
                Some(next_event_at(report, 0))
            }
        },
    }
}

/// How a node takes part in its topic.
#[derive(Debug)]
pub struct Subscription {
    pub topic_id: [u8; 32],
    /// The peers to connect to, in ascending order.
    pub bootstrap: Vec<EndpointId>,
    /// Whether to wait for a connection to one of them.
    pub wait_for_peer: bool,
}

/// A download of a blob from some chunk on.
#[derive(Debug, PartialEq, Eq)]
pub struct SeekRequest {
    pub hash: [u8; 32],
    pub first_chunk: u64,
    pub provider: EndpointId,
}

/// A member of a group: its identifier, the peers that it knows, and the
/// ticket by which it takes part.
#[derive(Debug)]
pub struct PeerWatchNode {
    pub id: EndpointId,
    pub peers: PeerSet,
    pub ticket: PeerWatchTicket,
}

impl PeerWatchNode {
    /// The node that offers a video under a random topic, as its provider at
    /// these addresses. It knows itself.
    pub fn spawn_host(
        id: EndpointId,
        addrs: TransportAddrs,
        format: BlobFormat,
        hash: [u8; 32],
    ) -> (node: PeerWatchNode)
        ensures
            node.id == id,
            node.peers@ == Set::<Seq<u8>>::empty().insert(id@),
            node.ticket.bootstrap@ == Set::<Seq<u8>>::empty(),
            node.ticket.blob_ticket.provider == id,
            node.ticket.blob_ticket.addrs@ == addrs@,
            node.ticket.blob_ticket.format == format,
            node.ticket.blob_ticket.hash == hash,
    {
        let peers = PeerSet::singleton(id);
        let blob_ticket = BlobTicket { provider: id, addrs, format, hash };
        let ticket = PeerWatchTicket::new_random(blob_ticket);
        PeerWatchNode { id, peers, ticket }
    }

    /// The node that takes part by the ticket in a text. It knows itself.
    pub fn spawn_peer(id: EndpointId, ticket: String) -> (node: Result<PeerWatchNode, TicketError>)
        requires
            vstd::utf8::encode_utf8(ticket@).len() <= usize::MAX / 8,
        ensures
            match node {
                Ok(node) => {
                    &&& node.id == id
                    &&& node.peers@ == Set::<Seq<u8>>::empty().insert(id@)
                    &&& parse_ticket_text(ticket@) == Ok::<TicketModel, TicketError>(node.ticket@)
                },
                Err(error) => parse_ticket_text(ticket@) == Err::<TicketModel, TicketError>(error),
            },
    {
        let peers = PeerSet::singleton(id);
        match PeerWatchTicket::deserialize(ticket.as_str()) {
            Ok(ticket) => Ok(PeerWatchNode { id, peers, ticket }),
            Err(error) => Err(error),
        }
    }

    /// The identifier of the node.
    pub fn endpoint_id(&self) -> (id: EndpointId)
        ensures
            id == self.id,
    {
        self.id
    }

    /// Takes the ticket's peers among those that the node knows, and says how
    /// to take part in the topic.
    pub fn join(&mut self) -> (subscription: Subscription)
        ensures
            final(self).peers@ == old(self).peers@.union(old(self).ticket.bootstrap@),
            final(self).id == old(self).id,
            final(self).ticket == old(self).ticket,
            subscription.topic_id == old(self).ticket.topic_id,
            subscription.bootstrap@.map_values(|id: EndpointId| id@)
                == old(self).ticket.bootstrap.keys(),
            ascending(old(self).ticket.bootstrap.keys()),
            old(self).ticket.bootstrap.keys().to_set() == old(self).ticket.bootstrap@,
            subscription.wait_for_peer == (old(self).ticket.bootstrap@ != Set::<Seq<u8>>::empty()),
    {
        self.peers.extend(&self.ticket.bootstrap);
        let bootstrap = self.ticket.bootstrap.to_vec();
        let wait_for_peer = !self.ticket.bootstrap.is_empty();
        Subscription { topic_id: self.ticket.topic_id, bootstrap, wait_for_peer }
    }

    /// The broadcast that tells of the node's presence at the time `now`.
    pub fn presence_at(&self, now: u64) -> (content: Vec<u8>)
        ensures
            EventModel::parse(content@) == Some(
                EventModel::Presence { timestamp_ms: now, endpoint_id: self.id@ },
            ),
            content@ == (EventModel::Presence {
                timestamp_ms: now,
                endpoint_id: self.id@,
            }).wire(),
    {
        Event::Presence { timestamp_ms: now, endpoint_id: self.id }.encode()
    }

    /// The broadcast that tells of the node's presence by the wall clock, or
    /// `None` where the clock stands before the epoch.
    pub fn presence(&self) -> (content: Option<Vec<u8>>)
        ensures
            content matches Some(content) ==> exists|now: u64|
                content@ == (#[trigger] presence_model(now, self.id@)).wire(),
            content matches Some(content) ==> EventModel::parse(content@) matches Some(
                EventModel::Presence { endpoint_id, .. },
            ) && endpoint_id == self.id@,
    {
        self.presence_by(now_ms())
    }

    /// The broadcast that tells of the node's presence by a reading of the
    /// clock, or `None` where the clock gave none.
    pub fn presence_by(&self, reading: Option<u64>) -> (content: Option<Vec<u8>>)
        ensures
            match reading {
                Some(now) => content matches Some(content) && content@ == presence_model(
                    now,
                    self.id@,
                ).wire() && EventModel::parse(content@) == Some(
                    EventModel::Presence { timestamp_ms: now, endpoint_id: self.id@ },
                ),
                None => content is None,
            },
    {
        match reading {
            Some(now) => Some(self.presence_at(now)),
            None => None,
        }
    }

    /// Takes a peer among those that the node knows, and says whether it is
    /// new.
    pub fn peer_joined(&mut self, endpoint_id: EndpointId) -> (new: bool)
        ensures
            new == !old(self).peers@.contains(endpoint_id@),
            final(self).peers@ == old(self).peers@.insert(endpoint_id@),
            final(self).id == old(self).id,
            final(self).ticket == old(self).ticket,
    {
        self.peers.insert(endpoint_id)
    }

    /// Forgets a peer.
    pub fn peer_left(&mut self, endpoint_id: &EndpointId)
        ensures
            final(self).peers@ == old(self).peers@.remove(endpoint_id@),
            final(self).id == old(self).id,
            final(self).ticket == old(self).ticket,
    {
        let _ = self.peers.remove(endpoint_id);
    }

    /// The download by which the video can be played from a byte on: the
    /// chunk that holds the byte, and all behind it.
    pub fn seek(&self, byte_offset: usize) -> (request: SeekRequest)
        ensures
            request.hash == self.ticket.blob_ticket.hash,
            request.provider == self.ticket.blob_ticket.provider,
            request.first_chunk == byte_offset / CHUNK_BYTES,
            request.first_chunk * CHUNK_BYTES <= byte_offset < (request.first_chunk + 1)
                * CHUNK_BYTES,
            request.first_chunk * 1024 <= byte_offset < (request.first_chunk + 1) * 1024,
    {
        let chunk = byte_offset / CHUNK_BYTES;
        SeekRequest {
            hash: self.ticket.blob_ticket.hash,
            first_chunk: chunk as u64,
            provider: self.ticket.blob_ticket.provider,
        }
    }

    /// The hash of the blob to read.
    pub fn read(&self) -> (hash: [u8; 32])
        ensures
            hash == self.ticket.blob_ticket.hash,
    {
        self.ticket.blob_ticket.hash
    }
}

/// The event that tells of the presence of the endpoint with the key `key`.
pub open spec fn presence_model(now: u64, key: Seq<u8>) -> EventModel {
    EventModel::Presence { timestamp_ms: now, endpoint_id: key }
}

/// What a peer broadcasts comes out of the stream of every other as the event
/// that it was, whatever the time.
pub proof fn lemma_broadcast_arrives(event: EventModel, content: Vec<u8>, now: u64)
    requires
        event.has_valid_id(),
        content@ == event.wire(),
    ensures
        stream_step(Some(GossipEvent::Received(content)), now) == StepModel::Yield(event),
{
    crate::message::lemma_event_roundtrip(event, Seq::empty());
    assert(event.wire() + Seq::<u8>::empty() =~= event.wire());
}

/// The stream ends without an error only with the reports or where some were
/// lost. A broadcast never ends it, whatever its bytes.
pub proof fn lemma_stream_end(report: Option<GossipEvent>, now: u64)
    ensures
        stream_step(report, now) == StepModel::End <==> report is None || report == Some(
            GossipEvent::Lagged,
        ),
{
}

/// An item of the stream of events.
pub enum ItemModel {
    Event(EventModel),
    Error,
}

/// The items of the stream of events when these reports come, each at its time.
pub open spec fn stream_items(reports: Seq<GossipEvent>, times: Seq<u64>) -> Seq<ItemModel>
    decreases reports.len(),
{
    if reports.len() == 0 {
        Seq::empty()
    } else {
        match stream_step(Some(reports[0]), times[0]) {
            StepModel::Yield(event) => seq![ItemModel::Event(event)] + stream_items(
                reports.skip(1),
                times.skip(1),
            ),
            StepModel::Skip => stream_items(reports.skip(1), times.skip(1)),
            StepModel::Fail => seq![ItemModel::Error],
            StepModel::End => Seq::empty(),
        }
    }
}

/// The event that a report tells of, if any: what a broadcast encodes, or a
/// neighbor that comes or goes.
pub open spec fn event_of(report: GossipEvent, now: u64) -> Option<EventModel> {
    match report {
        GossipEvent::Received(content) => EventModel::parse(content@),
        GossipEvent::NeighborUp(id) => Some(
            EventModel::PeerJoined { timestamp_ms: now, endpoint_id: id@ },
        ),
        GossipEvent::NeighborDown(id) => Some(
            EventModel::PeerLeft { timestamp_ms: now, endpoint_id: id@ },
        ),
        GossipEvent::Lagged | GossipEvent::Failed => None,
    }
}

/// The events that reports tell of, in their order.
pub open spec fn events_of(reports: Seq<GossipEvent>, times: Seq<u64>) -> Seq<ItemModel>
    decreases reports.len(),
{
    if reports.len() == 0 {
        Seq::empty()
    } else {
        (match event_of(reports[0], times[0]) {
            Some(event) => seq![ItemModel::Event(event)],
            None => Seq::empty(),
        }) + events_of(reports.skip(1), times.skip(1))
    }
}

/// Whether a report ends the stream.
pub open spec fn ends_stream(report: GossipEvent) -> bool {
    report is Lagged || report is Failed
}

/// The stream yields the events that the reports in front of the first one tell
/// of that ends it, in their order and nothing else. Then it yields an error,
/// where that one is an error, and ends. What comes later does not matter. Here
/// `end` is the place of the report that ends the stream, or the number of
/// reports where none does.
pub proof fn lemma_stream_items(reports: Seq<GossipEvent>, times: Seq<u64>, end: int)
    requires
        times.len() == reports.len(),
        0 <= end <= reports.len(),
        forall|i: int| 0 <= i < end ==> !ends_stream(#[trigger] reports[i]),
        end < reports.len() ==> ends_stream(reports[end]),
    ensures
        stream_items(reports, times) == events_of(reports.take(end), times.take(end)) + (if end
            < reports.len() && reports[end] is Failed {
            seq![ItemModel::Error]
        } else {
            Seq::empty()
        }),
    decreases reports.len(),
{
    let last = if end < reports.len() && reports[end] is Failed {
        seq![ItemModel::Error]
    } else {
        Seq::empty()
    };
    let events = events_of(reports.take(end), times.take(end));
    if end == 0 {
        assert(events =~= Seq::empty());
        assert(stream_items(reports, times) =~= last);
        assert(events + last =~= last);
    } else {
        let others = reports.skip(1);
        assert forall|i: int| 0 <= i < end - 1 implies !ends_stream(#[trigger] others[i]) by {
            assert(others[i] == reports[i + 1]);
        }
        lemma_stream_items(others, times.skip(1), end - 1);
        assert(!ends_stream(reports[0]));
        assert(reports.take(end).skip(1) =~= others.take(end - 1));
        assert(times.take(end).skip(1) =~= times.skip(1).take(end - 1));
        assert(reports.take(end)[0] == reports[0]);
        assert(times.take(end)[0] == times[0]);
        let rest = events_of(others.take(end - 1), times.skip(1).take(end - 1));
        assert(stream_items(reports, times) =~= events + last);
    }
}

/// A peer that comes twice is known once. One that was not known, came and
/// left leaves no trace. One that left is not known.
pub proof fn lemma_peers_come_and_go(peers: Set<Seq<u8>>, id: Seq<u8>)
    ensures
        peers.insert(id).insert(id) == peers.insert(id),
        !peers.contains(id) ==> peers.insert(id).remove(id) == peers,
        !peers.remove(id).contains(id),
{
    assert(peers.insert(id).insert(id) =~= peers.insert(id));
    if !peers.contains(id) {
        assert(peers.insert(id).remove(id) =~= peers);
    }
}

/// What becomes of a report. A neighbor that comes or goes is told of with its
/// own identifier and the present time, a broadcast is the event that its bytes
/// encode, and only a broadcast without one is skipped.
pub proof fn lemma_reports(report: Option<GossipEvent>, now: u64, event: EventModel)
    ensures
        stream_step(report, now) == StepModel::Yield(event) <==> {
            ||| report matches Some(GossipEvent::Received(content)) && EventModel::parse(content@)
                == Some(event)
            ||| report matches Some(GossipEvent::NeighborUp(id)) && event
                == (EventModel::PeerJoined { timestamp_ms: now, endpoint_id: id@ })
            ||| report matches Some(GossipEvent::NeighborDown(id)) && event
                == (EventModel::PeerLeft { timestamp_ms: now, endpoint_id: id@ })
        },
        stream_step(report, now) == StepModel::Skip <==> {
            &&& report matches Some(GossipEvent::Received(content))
            &&& EventModel::parse(content@) is None
        },
        stream_step(report, now) == StepModel::Fail <==> report == Some(GossipEvent::Failed),
        needs_stamp(report) <==> report is Some && (report->0 is NeighborUp || report->0
            is NeighborDown),
{
}

/// What the reports tell of, one by one: an event for each broadcast that
/// encodes one and each neighbor that comes or goes.
pub proof fn lemma_event_of(report: GossipEvent, now: u64, event: EventModel)
    ensures
        event_of(report, now) == Some(event) <==> {
            ||| report matches GossipEvent::Received(content) && EventModel::parse(content@)
                == Some(event)
            ||| report matches GossipEvent::NeighborUp(id) && event == (EventModel::PeerJoined {
                timestamp_ms: now,
                endpoint_id: id@,
            })
            ||| report matches GossipEvent::NeighborDown(id) && event == (EventModel::PeerLeft {
                timestamp_ms: now,
                endpoint_id: id@,
            })
        },
{
}

/// Presence is told of with the node's own key and the present time.
pub proof fn lemma_presence(now: u64, key: Seq<u8>)
    ensures
        presence_model(now, key) == (EventModel::Presence { timestamp_ms: now, endpoint_id: key }),
{
}

/// What a step says is the event that it holds, if any.
pub proof fn lemma_step_view(step: StreamStep)
    ensures
        step matches StreamStep::Yield(event) ==> step@ == StepModel::Yield(event@),
        step is Skip <==> step@ == StepModel::Skip,
        step is Fail <==> step@ == StepModel::Fail,
        step is End <==> step@ == StepModel::End,
{
}

} // verus!
