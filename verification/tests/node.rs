use peerwatch::message::Event;
use peerwatch::node::{
    next_event, next_event_at, next_event_by, GossipEvent, PeerWatchNode, SeekRequest, StreamStep,
};
use peerwatch::peers::EndpointId;
use peerwatch::ticket::{BlobFormat, BlobTicket, PeerWatchTicket, TicketError, TransportAddrs};

fn endpoint(seed: u8) -> EndpointId {
    let key = iroh::SecretKey::from_bytes(&[seed; 32]).public();
    EndpointId::from_bytes(*key.as_bytes()).unwrap()
}

fn addresses() -> TransportAddrs {
    TransportAddrs::take(&[0]).unwrap().0
}

fn blob_ticket() -> BlobTicket {
    BlobTicket {
        provider: endpoint(40),
        addrs: addresses(),
        format: BlobFormat::Raw,
        hash: [7; 32],
    }
}

fn host() -> PeerWatchNode {
    PeerWatchNode::spawn_host(endpoint(1), addresses(), BlobFormat::HashSeq, [8; 32])
}

fn node_with(seeds: &[u8]) -> PeerWatchNode {
    let mut ticket = PeerWatchTicket::new([3; 32], blob_ticket());
    for seed in seeds {
        ticket.bootstrap.insert(endpoint(*seed));
    }
    PeerWatchNode::spawn_peer(endpoint(1), ticket.serialize()).unwrap()
}

fn yielded(step: StreamStep) -> Option<Event> {
    match step {
        StreamStep::Yield(event) => Some(event),
        _ => None,
    }
}

#[test]
fn a_host_knows_itself() {
    let host = host();
    assert_eq!(host.endpoint_id(), endpoint(1));
    assert_eq!(host.peers.to_vec(), vec![endpoint(1)]);
    assert!(host.ticket.bootstrap.is_empty());
    assert_eq!(
        host.ticket.blob_ticket,
        BlobTicket {
            provider: endpoint(1),
            addrs: addresses(),
            format: BlobFormat::HashSeq,
            hash: [8; 32],
        }
    );
    assert_eq!(host.seek(0).provider, host.endpoint_id());
}

#[test]
fn a_guest_takes_part_by_the_ticket_of_the_host() {
    let host = host();
    let guest = PeerWatchNode::spawn_peer(endpoint(2), host.ticket.serialize()).unwrap();
    assert_eq!(guest.endpoint_id(), endpoint(2));
    assert_eq!(guest.peers.to_vec(), vec![endpoint(2)]);
    assert_eq!(guest.ticket.to_bytes(), host.ticket.to_bytes());
    assert_eq!(guest.read(), host.read());
}

#[test]
fn a_guest_needs_a_ticket() {
    let error = PeerWatchNode::spawn_peer(endpoint(2), "blob".to_string()).unwrap_err();
    assert_eq!(error, TicketError::WrongPrefix);
}

#[test]
fn joining_takes_in_the_peers_of_the_ticket() {
    let mut node = node_with(&[9, 4]);
    let subscription = node.join();
    assert_eq!(subscription.topic_id, [3; 32]);
    assert!(subscription.wait_for_peer);
    assert_eq!(subscription.bootstrap, node.ticket.bootstrap.to_vec());
    assert_eq!(subscription.bootstrap.len(), 2);
    assert_eq!(node.peers.len(), 3);
    for seed in [1u8, 9, 4] {
        assert!(node.peers.contains(&endpoint(seed)));
    }
}

#[test]
fn joining_without_peers_does_not_wait() {
    let mut node = node_with(&[]);
    let subscription = node.join();
    assert!(!subscription.wait_for_peer);
    assert!(subscription.bootstrap.is_empty());
    assert_eq!(node.peers.to_vec(), vec![endpoint(1)]);
}

#[test]
fn presence_arrives_at_the_others() {
    let node = node_with(&[]);
    let content = node.presence_at(1234);
    let step = next_event_at(Some(GossipEvent::Received(content)), 99);
    assert_eq!(
        yielded(step),
        Some(Event::Presence { timestamp_ms: 1234, endpoint_id: endpoint(1) })
    );

    let content = node.presence().unwrap();
    match Event::decode(&content) {
        Some(Event::Presence { timestamp_ms, endpoint_id }) => {
            assert_eq!(endpoint_id, endpoint(1));
            assert!(timestamp_ms > 1_600_000_000_000);
        }
        other => panic!("{other:?}"),
    }
}

#[test]
fn neighbors_become_events_with_the_present_time() {
    let up = next_event_at(Some(GossipEvent::NeighborUp(endpoint(5))), 77);
    assert_eq!(
        yielded(up),
        Some(Event::PeerJoined { timestamp_ms: 77, endpoint_id: endpoint(5) })
    );
    let down = next_event_at(Some(GossipEvent::NeighborDown(endpoint(6))), 78);
    assert_eq!(
        yielded(down),
        Some(Event::PeerLeft { timestamp_ms: 78, endpoint_id: endpoint(6) })
    );
    match next_event(Some(GossipEvent::NeighborUp(endpoint(5)))).and_then(yielded) {
        Some(Event::PeerJoined { timestamp_ms, .. }) => assert!(timestamp_ms > 1_600_000_000_000),
        other => panic!("{other:?}"),
    }
}

#[test]
fn broadcasts_without_an_event_are_skipped() {
    let step = next_event(Some(GossipEvent::Received(vec![9, 9, 9])));
    assert!(matches!(step, Some(StreamStep::Skip)));
}

#[test]
fn the_stream_ends_with_the_reports() {
    assert!(matches!(next_event(None), Some(StreamStep::End)));
    assert!(matches!(next_event(Some(GossipEvent::Lagged)), Some(StreamStep::End)));
}

#[test]
fn peers_come_and_go() {
    let mut node = node_with(&[]);
    assert!(node.peer_joined(endpoint(8)));
    assert!(!node.peer_joined(endpoint(8)));
    assert_eq!(node.peers.len(), 2);
    node.peer_left(&endpoint(8));
    assert_eq!(node.peers.to_vec(), vec![endpoint(1)]);
    node.peer_left(&endpoint(8));
    assert_eq!(node.peers.to_vec(), vec![endpoint(1)]);
    assert!(node.peer_joined(endpoint(8)));
}

#[test]
fn seeking_begins_at_the_chunk_of_the_byte() {
    let node = node_with(&[]);
    for (offset, chunk) in [(0usize, 0u64), (1023, 0), (1024, 1), (10_000_000, 9765)] {
        assert_eq!(
            node.seek(offset),
            SeekRequest { hash: [7; 32], first_chunk: chunk, provider: endpoint(40) }
        );
    }
    assert_eq!(node.read(), [7; 32]);
}

#[test]
fn without_a_clock_there_is_no_presence() {
    let node = node_with(&[]);
    assert_eq!(node.presence_by(None), None);
    assert_eq!(node.presence_by(Some(1234)), Some(node.presence_at(1234)));
}

#[test]
fn without_a_clock_neighbors_are_not_told() {
    assert!(next_event_by(Some(GossipEvent::NeighborUp(endpoint(5))), None).is_none());
    assert!(next_event_by(Some(GossipEvent::NeighborDown(endpoint(5))), None).is_none());
    assert_eq!(
        next_event_by(Some(GossipEvent::NeighborDown(endpoint(5))), Some(4)).and_then(yielded),
        Some(Event::PeerLeft { timestamp_ms: 4, endpoint_id: endpoint(5) })
    );
    let content = node_with(&[]).presence_at(9);
    assert!(next_event_by(Some(GossipEvent::Received(content)), None).and_then(yielded).is_some());
    assert!(matches!(next_event_by(None, None), Some(StreamStep::End)));
}

fn items(reports: Vec<GossipEvent>) -> (Vec<Event>, bool) {
    let mut events = Vec::new();
    for (now, report) in reports.into_iter().enumerate() {
        match next_event_at(Some(report), now as u64) {
            StreamStep::Yield(event) => events.push(event),
            StreamStep::Skip => {}
            StreamStep::Fail => return (events, true),
            StreamStep::End => return (events, false),
        }
    }
    (events, false)
}

#[test]
fn the_stream_yields_what_comes_before_its_end() {
    let content = node_with(&[]).presence_at(9);
    let front = || {
        vec![
            GossipEvent::NeighborUp(endpoint(5)),
            GossipEvent::Received(vec![9]),
            GossipEvent::Received(content.clone()),
            GossipEvent::NeighborDown(endpoint(5)),
        ]
    };
    let expected = vec![
        Event::PeerJoined { timestamp_ms: 0, endpoint_id: endpoint(5) },
        Event::Presence { timestamp_ms: 9, endpoint_id: endpoint(1) },
        Event::PeerLeft { timestamp_ms: 3, endpoint_id: endpoint(5) },
    ];
    assert_eq!(items(front()), (expected.clone(), false));

    let mut lagged = front();
    lagged.push(GossipEvent::Lagged);
    lagged.push(GossipEvent::NeighborUp(endpoint(6)));
    assert_eq!(items(lagged), (expected.clone(), false));

    let mut failed = front();
    failed.push(GossipEvent::Failed);
    failed.push(GossipEvent::NeighborUp(endpoint(6)));
    assert_eq!(items(failed), (expected, true));
}
