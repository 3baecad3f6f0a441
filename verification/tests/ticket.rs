use peerwatch::peers::{EndpointId, PeerSet};
use peerwatch::ticket::{BlobFormat, BlobTicket, PeerWatchTicket, TicketError, TransportAddrs};
use std::collections::BTreeSet;

fn public_key(seed: u8) -> iroh::EndpointId {
    iroh::SecretKey::from_bytes(&[seed; 32]).public()
}

fn endpoint(seed: u8) -> EndpointId {
    EndpointId::from_bytes(*public_key(seed).as_bytes()).unwrap()
}

fn transport_addrs() -> BTreeSet<iroh::TransportAddr> {
    let mut addrs = BTreeSet::new();
    addrs.insert(iroh::TransportAddr::Ip("127.0.0.1:1234".parse().unwrap()));
    addrs.insert(iroh::TransportAddr::Ip("[2001:db8::1]:80".parse().unwrap()));
    addrs.insert(iroh::TransportAddr::Relay("https://relay.example.org".parse().unwrap()));
    addrs
}

fn outside_blob_ticket(format: iroh_blobs::BlobFormat) -> iroh_blobs::ticket::BlobTicket {
    let addr = iroh::EndpointAddr::from_parts(public_key(40), transport_addrs());
    iroh_blobs::ticket::BlobTicket::new(addr, iroh_blobs::Hash::from_bytes([7; 32]), format)
}

fn blob_ticket(format: BlobFormat) -> BlobTicket {
    let encoded = postcard::to_allocvec(&transport_addrs()).unwrap();
    let (addrs, rest) = TransportAddrs::take(&encoded).unwrap();
    assert!(rest.is_empty());
    BlobTicket { provider: endpoint(40), addrs, format, hash: [7; 32] }
}

fn ticket(seeds: &[u8]) -> PeerWatchTicket {
    let mut ticket = PeerWatchTicket::new([3; 32], blob_ticket(BlobFormat::Raw));
    for seed in seeds {
        ticket.bootstrap.insert(endpoint(*seed));
    }
    ticket
}

fn outside_bytes(seeds: &[u8]) -> Vec<u8> {
    let topic = iroh_gossip::TopicId::from_bytes([3; 32]);
    let bootstrap: BTreeSet<iroh::EndpointId> = seeds.iter().map(|seed| public_key(*seed)).collect();
    let blob = outside_blob_ticket(iroh_blobs::BlobFormat::Raw);
    postcard::to_stdvec(&(topic, bootstrap, blob)).unwrap()
}

struct RawTicket(Vec<u8>);

impl iroh_tickets::Ticket for RawTicket {
    const KIND: &'static str = "peerplay";

    fn encode_bytes(&self) -> Vec<u8> {
        self.0.clone()
    }

    fn decode_bytes(bytes: &[u8]) -> Result<Self, iroh_tickets::ParseError> {
        Ok(RawTicket(bytes.to_vec()))
    }
}

fn text_of(bytes: &[u8]) -> String {
    iroh_tickets::Ticket::encode_string(&RawTicket(bytes.to_vec()))
}

#[test]
fn tickets_have_the_bytes_of_their_fields() {
    for seeds in [&[][..], &[1][..], &[5, 2, 9, 4][..]] {
        assert_eq!(ticket(seeds).to_bytes(), outside_bytes(seeds));
    }
    let many: Vec<u8> = (0..200).collect();
    assert_eq!(ticket(&many).to_bytes(), outside_bytes(&many));
}

#[test]
fn blob_tickets_have_the_bytes_of_their_fields() {
    for (ours, theirs) in [
        (BlobFormat::Raw, iroh_blobs::BlobFormat::Raw),
        (BlobFormat::HashSeq, iroh_blobs::BlobFormat::HashSeq),
    ] {
        let bytes = postcard::to_stdvec(&outside_blob_ticket(theirs)).unwrap();
        assert_eq!(BlobTicket::from_bytes(&bytes), Some(blob_ticket(ours)));
        for n in 0..bytes.len() {
            assert_eq!(BlobTicket::from_bytes(&bytes[..n]), None);
        }
        let mut unknown = bytes.clone();
        let format = unknown.len() - 33;
        unknown[format] = 2;
        assert_eq!(BlobTicket::from_bytes(&unknown), None);
    }
}

#[test]
fn tickets_are_read_back() {
    for seeds in [&[][..], &[1][..], &[5, 2, 9, 4][..]] {
        let ticket = ticket(seeds);
        let mut bytes = ticket.to_bytes();
        bytes.push(0);
        let read = PeerWatchTicket::from_bytes(&bytes).unwrap();
        assert_eq!(read.topic_id, ticket.topic_id);
        assert_eq!(read.bootstrap.to_vec(), ticket.bootstrap.to_vec());
        assert_eq!(read.blob_ticket, ticket.blob_ticket);
    }
}

#[test]
fn cut_off_tickets_are_refused() {
    let bytes = ticket(&[1, 2]).to_bytes();
    for n in 0..bytes.len() {
        assert!(PeerWatchTicket::from_bytes(&bytes[..n]).is_none());
    }
}

#[test]
fn tickets_that_say_the_same_have_the_same_bytes() {
    assert_eq!(ticket(&[1, 2, 3]).to_bytes(), ticket(&[3, 1, 2, 1]).to_bytes());
    assert_eq!(ticket(&[1, 2, 3]).serialize(), ticket(&[3, 1, 2, 1]).serialize());
}

#[test]
fn ticket_texts_have_the_canonical_form() {
    for seeds in [&[][..], &[1][..], &[5, 2, 9][..], &[6, 7, 8, 9][..], &[1, 2, 3, 4, 5][..]] {
        assert_eq!(ticket(seeds).serialize(), text_of(&outside_bytes(seeds)));
    }
}

#[test]
fn ticket_texts_are_read_back() {
    let ticket = ticket(&[5, 2, 9]);
    let text = ticket.serialize();
    assert!(text.starts_with("peerplay"));
    let read = PeerWatchTicket::deserialize(&text).unwrap();
    assert_eq!(read.topic_id, ticket.topic_id);
    assert_eq!(read.bootstrap.to_vec(), ticket.bootstrap.to_vec());
    assert_eq!(read.blob_ticket, ticket.blob_ticket);

    let mut shouted = "peerplay".to_string();
    shouted.push_str(&text["peerplay".len()..].to_ascii_uppercase());
    let read = PeerWatchTicket::deserialize(&shouted).unwrap();
    assert_eq!(read.to_bytes(), ticket.to_bytes());
}

#[test]
fn texts_of_another_kind_are_refused() {
    let text = ticket(&[]).serialize();
    for other in ["", "peer", "blobaaaa", &text.to_ascii_uppercase(), &text[1..]] {
        assert_eq!(PeerWatchTicket::deserialize(other).err(), Some(TicketError::WrongPrefix));
    }
}

#[test]
fn texts_that_are_no_base32_are_refused() {
    let text = ticket(&[]).serialize();
    for bad in [
        format!("{text}!"),
        "peerplay0".to_string(),
        "peerplaya".to_string(),
        "peerplayaaa".to_string(),
        "peerplayaaaaaa".to_string(),
        "peerplayab".to_string(),
        "peerplaya1".to_string(),
        "peerplay\u{e9}\u{e9}".to_string(),
        "peerplayaa======".to_string(),
    ] {
        assert_eq!(PeerWatchTicket::deserialize(&bad).err(), Some(TicketError::BadEncoding));
    }
}

#[test]
fn texts_without_a_ticket_are_refused() {
    for bad in ["peerplay", "peerplayaa", "peerplaymzxw6ytboi"] {
        assert_eq!(PeerWatchTicket::deserialize(bad).err(), Some(TicketError::BadPayload));
    }
    let bytes = ticket(&[1]).to_bytes();
    let cut = text_of(&bytes[..bytes.len() - 1]);
    assert_eq!(PeerWatchTicket::deserialize(&cut).err(), Some(TicketError::BadPayload));
}

#[test]
fn new_tickets_have_no_peers() {
    let ticket = PeerWatchTicket::new([9; 32], blob_ticket(BlobFormat::HashSeq));
    assert_eq!(ticket.topic_id, [9; 32]);
    assert!(ticket.bootstrap.is_empty());
    assert_eq!(ticket.blob_ticket, blob_ticket(BlobFormat::HashSeq));
}

#[test]
fn random_topics_differ() {
    let first = PeerWatchTicket::new_random(blob_ticket(BlobFormat::Raw));
    let second = PeerWatchTicket::new_random(blob_ticket(BlobFormat::Raw));
    assert_ne!(first.topic_id, second.topic_id);
    assert!(first.bootstrap.is_empty());
    assert_eq!(first.blob_ticket, second.blob_ticket);
}

#[test]
fn addresses_keep_their_encoding() {
    let mut encoded = postcard::to_allocvec(&transport_addrs()).unwrap();
    let length = encoded.len();
    encoded.extend_from_slice(&[9, 9]);
    let (addrs, rest) = TransportAddrs::take(&encoded).unwrap();
    assert_eq!(addrs.as_bytes(), &encoded[..length]);
    assert_eq!(rest, &[9, 9]);
    assert_eq!(TransportAddrs::take(&encoded[..length - 1]), None);

    let (none, rest) = TransportAddrs::take(&[0, 1]).unwrap();
    assert_eq!(none.as_bytes(), &[0]);
    assert_eq!(rest, &[1]);
    assert!(PeerSet::new().is_empty());
}

fn with_relay(url: &str) -> PeerWatchTicket {
    let mut encoded = vec![1u8, 0, url.len() as u8];
    encoded.extend_from_slice(url.as_bytes());
    let (addrs, rest) = TransportAddrs::take(&encoded).unwrap();
    assert!(rest.is_empty());
    let blob =
        BlobTicket { provider: endpoint(40), addrs, format: BlobFormat::Raw, hash: [7; 32] };
    PeerWatchTicket::new([3; 32], blob)
}

#[test]
fn usual_addresses_are_read_back() {
    assert!(blob_ticket(BlobFormat::Raw).addrs.reads_back());
    let ticket = with_relay("https://relay.example.org");
    assert!(ticket.blob_ticket.addrs.reads_back());
    assert_eq!(&ticket.blob_ticket.addrs.as_bytes()[3..], b"https://relay.example.org/");
    let read = PeerWatchTicket::from_bytes(&ticket.to_bytes()).unwrap();
    assert_eq!(read.blob_ticket, ticket.blob_ticket);
}

#[test]
fn some_addresses_are_printed_as_others() {
    let ticket = with_relay("file:/C:\t..");
    assert_eq!(&ticket.blob_ticket.addrs.as_bytes()[3..], b"file:///C:/..");
    assert!(!ticket.blob_ticket.addrs.reads_back());
    let read = PeerWatchTicket::from_bytes(&ticket.to_bytes()).unwrap();
    assert_eq!(&read.blob_ticket.addrs.as_bytes()[3..], b"file:///C:/");
    assert!(read.blob_ticket.addrs.reads_back());
    let read = PeerWatchTicket::deserialize(&ticket.serialize()).unwrap();
    assert_ne!(read.blob_ticket, ticket.blob_ticket);
}

#[test]
fn clones_say_the_same() {
    let ticket = ticket(&[5, 2, 9]);
    let copy = ticket.clone();
    assert_eq!(copy.topic_id, ticket.topic_id);
    assert_eq!(copy.bootstrap.to_vec(), ticket.bootstrap.to_vec());
    assert_eq!(copy.blob_ticket, ticket.blob_ticket);
    assert_eq!(copy.to_bytes(), ticket.to_bytes());
}

#[test]
fn the_number_of_peers_is_read_as_a_length() {
    let blob = postcard::to_stdvec(&outside_blob_ticket(iroh_blobs::BlobFormat::Raw)).unwrap();
    for count in [
        vec![0x00u8],
        vec![0x80, 0x00],
        vec![0x80, 0x80, 0x80, 0x80, 0x80, 0x00],
        vec![0x80, 0x80, 0x80, 0x80, 0x80, 0x80, 0x80, 0x80, 0x80, 0x00],
        vec![0x80, 0x80, 0x80, 0x80, 0x80, 0x80, 0x80, 0x80, 0x80, 0x80, 0x00],
        vec![0xff, 0xff, 0xff, 0xff, 0xff, 0xff, 0xff, 0xff, 0xff, 0x02],
        vec![0x01],
    ] {
        let mut bytes = vec![3u8; 32];
        bytes.extend_from_slice(&count);
        bytes.extend_from_slice(&blob);
        let theirs = postcard::from_bytes::<(
            iroh_gossip::TopicId,
            BTreeSet<iroh::EndpointId>,
            iroh_blobs::ticket::BlobTicket,
        )>(&bytes);
        assert_eq!(PeerWatchTicket::from_bytes(&bytes).is_some(), theirs.is_ok());
    }
}
