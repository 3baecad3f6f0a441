//! Invitations to watch together.

use crate::base32::{base32, decode_base32, encode_base32, lemma_base32_alphabet, lemma_base32_injective};
use crate::peers::{ascending, is_public_key, EndpointId, PeerSet};
use crate::wire::{
    append_bytes, append_varint, lemma_cut, lemma_cut_varint, lemma_take_bytes_roundtrip,
    lemma_varint_roundtrip, take_array32,
    take_bytes, take_u32, take_usize, take_varint, varint,
};
use vstd::arithmetic::power2::pow2;
use vstd::prelude::*;

verus! {

/// Reads a set of transport addresses from the front of a byte string, where the
/// machine's `usize` has so many bits: gives the encoding of the set that was
/// read and the bytes behind it.
pub uninterp spec fn read_transport_addrs(bytes: Seq<u8>, bits: nat) -> Option<(Seq<u8>, Seq<u8>)>;

/// Reads transport addresses with `postcard::take_from_bytes`, as a
/// `BTreeSet<iroh::TransportAddr>`, and encodes them with
/// `postcard::to_allocvec`.
///
/// Trusted: what is read depends on the bytes and on the width of `usize` alone,
/// which `read_transport_addrs` names. The bytes behind the addresses are handed
/// back and do not matter for what is read, and none of the others can be
/// spared.
/// That the encoding is read as the same addresses again is left open: a relay
/// address is a URL, and a URL may be printed as a text that stands for another
/// one.
#[verifier::external_body]
fn take_transport_addrs(bytes: &[u8]) -> (read: Option<(Vec<u8>, &[u8])>)
    ensures
        match read {
            Some((encoded, rest)) => {
                &&& read_transport_addrs(bytes@, usize::BITS as nat) == Some((encoded@, rest@))
                &&& rest@.len() <= bytes@.len()
                &&& rest@ == bytes@.skip(bytes@.len() - rest@.len())
                &&& forall|tail: Seq<u8>| #[trigger]
                    read_transport_addrs(
                        bytes@.take(bytes@.len() - rest@.len()) + tail,
                        usize::BITS as nat,
                    ) == Some((encoded@, tail))
                &&& forall|n: int|
                    0 <= n < bytes@.len() - rest@.len() ==> #[trigger] read_transport_addrs(
                        bytes@.take(n),
                        usize::BITS as nat,
                    ) is None
            },
            None => read_transport_addrs(bytes@, usize::BITS as nat) is None,
        },
{
    let (addrs, rest) = postcard::take_from_bytes::<
        std::collections::BTreeSet<iroh::TransportAddr>,
    >(bytes).ok()?;
    Some((postcard::to_allocvec(&addrs).ok()?, rest))
}

/// The addresses at which an endpoint can be reached, in encoded form.
#[derive(Debug, PartialEq, Eq)]
pub struct TransportAddrs {
    encoded: Vec<u8>,
    stable: bool,
}

impl View for TransportAddrs {
    type V = Seq<u8>;

    /// The encoding of the addresses.
    closed spec fn view(&self) -> Seq<u8> {
        self.encoded@
    }
}

/// Whether `encoded` is read as the addresses that are encoded so, whatever
/// follows it, and cannot be read where it is cut off.
pub open spec fn is_addrs_encoding(encoded: Seq<u8>) -> bool {
    &&& forall|rest: Seq<u8>| #[trigger]
        read_transport_addrs(encoded + rest, usize::BITS as nat) == Some((encoded, rest))
    &&& forall|n: int|
        0 <= n < encoded.len() ==> #[trigger] read_transport_addrs(
            encoded.take(n),
            usize::BITS as nat,
        ) is None
}

/// Whether an encoding is read as the addresses that are encoded so.
fn is_read_back(encoded: &[u8]) -> (stable: bool)
    ensures
        stable == is_addrs_encoding(encoded@),
{
    proof {
        assert(encoded@ + Seq::<u8>::empty() =~= encoded@);
    }
    match take_transport_addrs(encoded) {
        Some((again, rest)) => {
            if rest.len() > 0 || !same_bytes(again.as_slice(), encoded) {
                return false;
            }
            proof {
                assert(encoded@.take(encoded@.len() as int) =~= encoded@);
                assert(is_addrs_encoding(encoded@));
            }
            true
        },
        None => false,
    }
}

/// Whether two byte strings are the same.
fn same_bytes(first: &[u8], second: &[u8]) -> (same: bool)
    ensures
        same == (first@ == second@),
{
    if first.len() != second.len() {
        return false;
    }
    let mut i: usize = 0;
    while i < first.len()
        invariant
            i <= first@.len(),
            first@.len() == second@.len(),
            forall|j: int| 0 <= j < i ==> first@[j] == second@[j],
        decreases first@.len() - i,
    {
        if first[i] != second[i] {
            return false;
        }
        i = i + 1;
    }
    assert(first@ =~= second@);
    true
}

impl TransportAddrs {
    #[verifier::type_invariant]
    closed spec fn is_valid(self) -> bool {
        self.stable == is_addrs_encoding(self.encoded@)
    }

    /// Reads addresses from the front of `bytes`, and gives the bytes behind
    /// them too.
    pub fn take(bytes: &[u8]) -> (read: Option<(TransportAddrs, &[u8])>)
        ensures
            match read {
                Some((addrs, rest)) => read_transport_addrs(bytes@, usize::BITS as nat) == Some(
                    (addrs@, rest@),
                ),
                None => read_transport_addrs(bytes@, usize::BITS as nat) is None,
            },
    {
        match take_transport_addrs(bytes) {
            Some((encoded, rest)) => {
                let stable = is_read_back(encoded.as_slice());
                Some((TransportAddrs { encoded, stable }, rest))
            },
            None => None,
        }
    }

    /// The encoding of the addresses.
    pub fn as_bytes(&self) -> (bytes: &[u8])
        ensures
            bytes@ == self@,
    {
        self.encoded.as_slice()
    }

    /// Whether the encoding is read as these addresses again.
    pub fn reads_back(&self) -> (stable: bool)
        ensures
            stable == is_addrs_encoding(self@),
    {
        proof {
            use_type_invariant(self);
        }
        self.stable
    }
}

impl Clone for TransportAddrs {
    fn clone(&self) -> (copy: TransportAddrs)
        ensures
            copy@ == self@,
    {
        proof {
            use_type_invariant(self);
        }
        TransportAddrs {
            encoded: vstd::slice::slice_to_vec(self.encoded.as_slice()),
            stable: self.stable,
        }
    }
}

/// How a blob is to be understood.
#[derive(Clone, Copy, Debug, PartialEq, Eq, Structural)]
pub enum BlobFormat {
    /// Raw blob
    Raw,
    /// A sequence of hashes
    HashSeq,
}

/// Where a blob can be had: its provider, its format and its hash.
#[derive(Debug, PartialEq, Eq)]
pub struct BlobTicket {
    pub provider: EndpointId,
    pub addrs: TransportAddrs,
    pub format: BlobFormat,
    pub hash: [u8; 32],
}

/// An invitation: the topic under which the peers talk, peers to begin with,
/// and where the video can be had.
#[derive(Debug)]
pub struct PeerWatchTicket {
    pub topic_id: [u8; 32],
    pub bootstrap: PeerSet,
    pub blob_ticket: BlobTicket,
}

/// Why a text is no ticket.
#[derive(Clone, Copy, Debug, PartialEq, Eq, Structural)]
pub enum TicketError {
    /// It does not begin with the kind of the ticket.
    WrongPrefix,
    /// What follows is not base32.
    BadEncoding,
    /// The bytes do not make up a ticket.
    BadPayload,
}

/// What a [`BlobTicket`] says.
#[verifier::ext_equal]
pub struct BlobTicketModel {
    pub provider: Seq<u8>,
    pub addrs: Seq<u8>,
    pub format: BlobFormat,
    pub hash: Seq<u8>,
}

/// What a [`PeerWatchTicket`] says.
#[verifier::ext_equal]
pub struct TicketModel {
    pub topic_id: Seq<u8>,
    pub bootstrap: Set<Seq<u8>>,
    pub blob_ticket: BlobTicketModel,
}

impl View for BlobTicket {
    type V = BlobTicketModel;

    open spec fn view(&self) -> BlobTicketModel {
        BlobTicketModel {
            provider: self.provider@,
            addrs: self.addrs@,
            format: self.format,
            hash: self.hash@,
        }
    }
}

impl View for PeerWatchTicket {
    type V = TicketModel;

    open spec fn view(&self) -> TicketModel {
        TicketModel {
            topic_id: self.topic_id@,
            bootstrap: self.bootstrap@,
            blob_ticket: self.blob_ticket@,
        }
    }
}

/// The index of a format among the variants of [`BlobFormat`].
pub open spec fn format_index(format: BlobFormat) -> nat {
    match format {
        BlobFormat::Raw => 0,
        BlobFormat::HashSeq => 1,
    }
}

/// The keys one behind the other.
pub open spec fn keys_wire(keys: Seq<Seq<u8>>) -> Seq<u8>
    decreases keys.len(),
{
    if keys.len() == 0 {
        Seq::empty()
    } else {
        keys.first() + keys_wire(keys.drop_first())
    }
}

/// Reads `n` keys from the front of `bytes`, and gives the bytes behind them
/// too. Each must be a public key.
pub open spec fn parse_keys(bytes: Seq<u8>, n: nat) -> Option<(Seq<Seq<u8>>, Seq<u8>)>
    decreases n,
{
    if n == 0 {
        Some((Seq::empty(), bytes))
    } else {
        match take_bytes(bytes, 32) {
            Some((key, rest)) => if is_public_key(key) {
                with_key(key, parse_keys(rest, (n - 1) as nat))
            } else {
                None
            },
            None => None,
        }
    }
}

/// Puts a key in front of those that were read.
pub open spec fn with_key(key: Seq<u8>, read: Option<(Seq<Seq<u8>>, Seq<u8>)>) -> Option<
    (Seq<Seq<u8>>, Seq<u8>),
> {
    match read {
        Some((keys, rest)) => Some((seq![key] + keys, rest)),
        None => None,
    }
}

impl BlobTicketModel {
    /// The bytes of the ticket: the provider, its addresses, the format and
    /// the hash.
    pub open spec fn wire(self) -> Seq<u8> {
        self.provider + (self.addrs + (varint(format_index(self.format)) + self.hash))
    }

    /// The ticket that `bytes` begin with.
    pub open spec fn parse(bytes: Seq<u8>) -> Option<BlobTicketModel> {
        match take_bytes(bytes, 32) {
            Some((provider, rest)) => if is_public_key(provider) {
                match read_transport_addrs(rest, usize::BITS as nat) {
                    Some((addrs, rest)) => match take_varint(rest, 32) {
                        Some((index, rest)) => match take_bytes(rest, 32) {
                            Some((hash, _)) => if index == 0 {
                                Some(
                                    BlobTicketModel {
                                        provider,
                                        addrs,
                                        format: BlobFormat::Raw,
                                        hash,
                                    },
                                )
                            } else if index == 1 {
                                Some(
                                    BlobTicketModel {
                                        provider,
                                        addrs,
                                        format: BlobFormat::HashSeq,
                                        hash,
                                    },
                                )
                            } else {
                                None
                            },
                            None => None,
                        },
                        None => None,
                    },
                    None => None,
                }
            } else {
                None
            },
            None => None,
        }
    }
}

impl TicketModel {
    /// The ticket that `bytes` begin with: the topic, the number of peers and
    /// their keys, and the blob's ticket. What stands behind is ignored.
    pub open spec fn parse(bytes: Seq<u8>) -> Option<TicketModel> {
        match take_bytes(bytes, 32) {
            Some((topic_id, rest)) => match take_varint(rest, usize::BITS as nat) {
                Some((n, rest)) => match parse_keys(rest, n) {
                    Some((keys, rest)) => match BlobTicketModel::parse(rest) {
                        Some(blob_ticket) => Some(
                            TicketModel { topic_id, bootstrap: keys.to_set(), blob_ticket },
                        ),
                        None => None,
                    },
                    None => None,
                },
                None => None,
            },
            None => None,
        }
    }
}

/// The bytes of a ticket whose peers are `keys`.
pub open spec fn ticket_wire(
    topic_id: Seq<u8>,
    keys: Seq<Seq<u8>>,
    blob_ticket: BlobTicketModel,
) -> Seq<u8> {
    topic_id + (varint(keys.len()) + (keys_wire(keys) + blob_ticket.wire()))
}

/// Keys are read back as they were written.
proof fn lemma_keys_roundtrip(keys: Seq<Seq<u8>>, rest: Seq<u8>)
    requires
        forall|i: int|
            0 <= i < keys.len() ==> is_public_key(#[trigger] keys[i]) && keys[i].len() == 32,
    ensures
        parse_keys(keys_wire(keys) + rest, keys.len()) == Some((keys, rest)),
    decreases keys.len(),
{
    if keys.len() == 0 {
        assert(keys_wire(keys) + rest =~= rest);
        assert(keys =~= Seq::empty());
    } else {
        let others = keys.drop_first();
        let tail = keys_wire(others) + rest;
        assert(keys_wire(keys) + rest =~= keys.first() + tail);
        lemma_take_bytes_roundtrip(keys.first(), tail);
        assert forall|i: int| 0 <= i < others.len() implies is_public_key(#[trigger] others[i])
            && others[i].len() == 32 by {
            assert(others[i] == keys[i + 1]);
        }
        assert(is_public_key(keys[0]));
        lemma_keys_roundtrip(others, rest);
        assert(seq![keys.first()] + others =~= keys);
    }
}

/// A blob's ticket is read back as it was written.
proof fn lemma_blob_ticket_roundtrip(ticket: BlobTicketModel, rest: Seq<u8>)
    requires
        is_public_key(ticket.provider),
        ticket.provider.len() == 32,
        is_addrs_encoding(ticket.addrs),
        ticket.hash.len() == 32,
    ensures
        BlobTicketModel::parse(ticket.wire() + rest) == Some(ticket),
{
    vstd::arithmetic::power2::lemma2_to64();
    let end = ticket.hash + rest;
    let format = varint(format_index(ticket.format)) + end;
    let addrs = ticket.addrs + format;
    assert(ticket.wire() + rest =~= ticket.provider + addrs);
    lemma_take_bytes_roundtrip(ticket.provider, addrs);
    lemma_varint_roundtrip(format_index(ticket.format), 32, end);
    lemma_take_bytes_roundtrip(ticket.hash, rest);
}

/// What is written of a ticket is read back as that ticket, whatever bytes
/// follow it.
pub proof fn lemma_ticket_roundtrip(
    topic_id: Seq<u8>,
    keys: Seq<Seq<u8>>,
    blob_ticket: BlobTicketModel,
    rest: Seq<u8>,
)
    requires
        topic_id.len() == 32,
        keys.len() <= usize::MAX,
        forall|i: int|
            0 <= i < keys.len() ==> is_public_key(#[trigger] keys[i]) && keys[i].len() == 32,
        is_public_key(blob_ticket.provider),
        blob_ticket.provider.len() == 32,
        is_addrs_encoding(blob_ticket.addrs),
        blob_ticket.hash.len() == 32,
    ensures
        TicketModel::parse(ticket_wire(topic_id, keys, blob_ticket) + rest) == Some(
            TicketModel { topic_id, bootstrap: keys.to_set(), blob_ticket },
        ),
{
    vstd::arithmetic::power2::lemma2_to64();
    vstd::arithmetic::power2::lemma2_to64_rest();
    let blob = blob_ticket.wire() + rest;
    let peers = keys_wire(keys) + blob;
    let count = varint(keys.len()) + peers;
    assert(ticket_wire(topic_id, keys, blob_ticket) + rest =~= topic_id + count);
    lemma_take_bytes_roundtrip(topic_id, count);
    assert(keys.len() < pow2(usize::BITS as nat));
    lemma_varint_roundtrip(keys.len(), usize::BITS as nat, peers);
    lemma_keys_roundtrip(keys, blob);
    lemma_blob_ticket_roundtrip(blob_ticket, rest);
}

/// Keys that are cut off are refused.
proof fn lemma_cut_keys(keys: Seq<Seq<u8>>, n: int)
    requires
        0 <= n < keys_wire(keys).len(),
        forall|i: int|
            0 <= i < keys.len() ==> is_public_key(#[trigger] keys[i]) && keys[i].len() == 32,
    ensures
        parse_keys(keys_wire(keys).take(n), keys.len()) is None,
    decreases keys.len(),
{
    let others = keys.drop_first();
    let tail = keys_wire(others);
    lemma_cut(keys.first(), tail, n);
    assert(keys[0].len() == 32);
    if n >= 32 {
        lemma_take_bytes_roundtrip(keys.first(), tail.take(n - 32));
        assert forall|i: int| 0 <= i < others.len() implies is_public_key(#[trigger] others[i])
            && others[i].len() == 32 by {
            assert(others[i] == keys[i + 1]);
        }
        lemma_cut_keys(others, n - 32);
    }
}

/// A blob's ticket that is cut off is refused.
proof fn lemma_cut_blob_ticket(ticket: BlobTicketModel, n: int)
    requires
        is_public_key(ticket.provider),
        ticket.provider.len() == 32,
        is_addrs_encoding(ticket.addrs),
        ticket.hash.len() == 32,
        0 <= n < ticket.wire().len(),
    ensures
        BlobTicketModel::parse(ticket.wire().take(n)) is None,
{
    vstd::arithmetic::power2::lemma2_to64();
    let format = varint(format_index(ticket.format));
    let addrs = ticket.addrs + (format + ticket.hash);
    lemma_cut(ticket.provider, addrs, n);
    if n >= 32 {
        let behind = addrs.take(n - 32);
        lemma_take_bytes_roundtrip(ticket.provider, behind);
        let n = n - 32;
        lemma_cut(ticket.addrs, format + ticket.hash, n);
        if n >= ticket.addrs.len() {
            let n = n - ticket.addrs.len();
            lemma_cut(format, ticket.hash, n);
            if n < format.len() {
                lemma_cut_varint(format_index(ticket.format), 32, n);
            } else {
                let end = ticket.hash.take(n - format.len());
                lemma_varint_roundtrip(format_index(ticket.format), 32, end);
            }
        }
    }
}

/// A ticket that is cut off anywhere is refused.
pub proof fn lemma_cut_ticket(
    topic_id: Seq<u8>,
    keys: Seq<Seq<u8>>,
    blob_ticket: BlobTicketModel,
    n: int,
)
    requires
        topic_id.len() == 32,
        keys.len() <= usize::MAX,
        forall|i: int|
            0 <= i < keys.len() ==> is_public_key(#[trigger] keys[i]) && keys[i].len() == 32,
        is_public_key(blob_ticket.provider),
        blob_ticket.provider.len() == 32,
        is_addrs_encoding(blob_ticket.addrs),
        blob_ticket.hash.len() == 32,
        0 <= n < ticket_wire(topic_id, keys, blob_ticket).len(),
    ensures
        TicketModel::parse(ticket_wire(topic_id, keys, blob_ticket).take(n)) is None,
{
    vstd::arithmetic::power2::lemma2_to64();
    vstd::arithmetic::power2::lemma2_to64_rest();
    assert(keys.len() < pow2(usize::BITS as nat));
    let count = varint(keys.len());
    let peers = keys_wire(keys) + blob_ticket.wire();
    lemma_cut(topic_id, count + peers, n);
    if n >= 32 {
        lemma_take_bytes_roundtrip(topic_id, (count + peers).take(n - 32));
        let n = n - 32;
        lemma_cut(count, peers, n);
        if n < count.len() {
            lemma_cut_varint(keys.len(), usize::BITS as nat, n);
        } else {
            let n = n - count.len();
            lemma_varint_roundtrip(keys.len(), usize::BITS as nat, peers.take(n));
            lemma_cut(keys_wire(keys), blob_ticket.wire(), n);
            if n < keys_wire(keys).len() {
                lemma_cut_keys(keys, n);
            } else {
                let n = n - keys_wire(keys).len();
                lemma_keys_roundtrip(keys, blob_ticket.wire().take(n));
                lemma_cut_blob_ticket(blob_ticket, n);
            }
        }
    }
}

/// Tickets that say the same have the same bytes.
pub proof fn lemma_ticket_bytes_unique(
    topic_id: Seq<u8>,
    first: Seq<Seq<u8>>,
    second: Seq<Seq<u8>>,
    blob_ticket: BlobTicketModel,
)
    requires
        ascending(first),
        ascending(second),
        first.to_set() == second.to_set(),
    ensures
        ticket_wire(topic_id, first, blob_ticket) == ticket_wire(topic_id, second, blob_ticket),
{
    crate::peers::lemma_ascending_unique(first, second);
}

/// The bytes of one more key stand behind those of the others.
proof fn lemma_keys_wire_push(keys: Seq<Seq<u8>>, key: Seq<u8>)
    ensures
        keys_wire(keys.push(key)) == keys_wire(keys) + key,
    decreases keys.len(),
{
    let longer = keys.push(key);
    if keys.len() == 0 {
        assert(longer.drop_first() =~= Seq::empty());
        assert(keys_wire(longer.drop_first()) =~= Seq::empty());
        assert(keys_wire(longer) =~= key);
        assert(keys_wire(keys) + key =~= key);
    } else {
        assert(longer.drop_first() =~= keys.drop_first().push(key));
        lemma_keys_wire_push(keys.drop_first(), key);
        assert(keys_wire(longer) =~= keys_wire(keys) + key);
    }
}

/// Puts keys that were read before in front of those that are read next.
pub open spec fn with_keys(
    before: Seq<Seq<u8>>,
    read: Option<(Seq<Seq<u8>>, Seq<u8>)>,
) -> Option<(Seq<Seq<u8>>, Seq<u8>)> {
    match read {
        Some((keys, rest)) => Some((before + keys, rest)),
        None => None,
    }
}

/// Appends the keys of a set of peers to `out`.
fn append_keys(out: &mut Vec<u8>, peers: &PeerSet)
    ensures
        final(out)@ == old(out)@ + keys_wire(peers.keys()),
        forall|i: int|
            0 <= i < peers.keys().len() ==> is_public_key(#[trigger] peers.keys()[i])
                && peers.keys()[i].len() == 32,
{
    let ghost start = out@;
    let n = peers.len();
    let mut i: usize = 0;
    assert(start + keys_wire(peers.keys().take(0)) =~= start);
    while i < n
        invariant
            i <= n,
            n == peers.keys().len(),
            out@ == start + keys_wire(peers.keys().take(i as int)),
            forall|j: int|
                0 <= j < i ==> is_public_key(#[trigger] peers.keys()[j])
                    && peers.keys()[j].len() == 32,
        decreases n - i,
    {
        let id = peers.get(i).to_bytes();
        append_bytes(out, id.as_slice());
        proof {
            let shorter = peers.keys().take(i as int);
            lemma_keys_wire_push(shorter, peers.keys()[i as int]);
            assert(peers.keys().take(i + 1) =~= shorter.push(peers.keys()[i as int]));
            assert(out@ =~= start + keys_wire(peers.keys().take(i + 1)));
        }
        i = i + 1;
    }
    assert(peers.keys().take(i as int) =~= peers.keys());
}

/// Reads `n` keys from the front of `bytes` into a set.
fn take_keys(bytes: &[u8], n: usize) -> (read: Option<(PeerSet, &[u8])>)
    ensures
        match read {
            Some((peers, rest)) => parse_keys(bytes@, n as nat) matches Some((keys, end))
                && peers@ == keys.to_set() && end == rest@,
            None => parse_keys(bytes@, n as nat) is None,
        },
{
    let mut peers = PeerSet::new();
    let mut rest = bytes;
    let mut i: usize = 0;
    let ghost mut keys = Seq::<Seq<u8>>::empty();
    proof {
        assert(keys.to_set() =~= Set::empty());
        if let Some((all, _)) = parse_keys(bytes@, n as nat) {
            assert(keys + all =~= all);
        }
    }
    while i < n
        invariant
            i <= n,
            peers@ == keys.to_set(),
            parse_keys(bytes@, n as nat) == with_keys(keys, parse_keys(rest@, (n - i) as nat)),
        decreases n - i,
    {
        let (array, behind) = take_array32(rest)?;
        let id = EndpointId::from_bytes(array)?;
        let _ = peers.insert(id);
        proof {
            if let Some((others, _)) = parse_keys(behind@, (n - i - 1) as nat) {
                assert(keys + (seq![id@] + others) =~= keys.push(id@) + others);
            }
            assert(keys.push(id@).to_set() =~= keys.to_set().insert(id@)) by {
                crate::peers::lemma_push_to_set(keys, id@);
            }
            keys = keys.push(id@);
        }
        rest = behind;
        i = i + 1;
    }
    assert(parse_keys(rest@, 0) == Some((Seq::<Seq<u8>>::empty(), rest@)));
    assert(keys + Seq::<Seq<u8>>::empty() =~= keys);
    Some((peers, rest))
}

impl Clone for BlobTicket {
    fn clone(&self) -> (copy: BlobTicket)
        ensures
            copy@ == self@,
    {
        BlobTicket {
            provider: self.provider,
            addrs: self.addrs.clone(),
            format: self.format,
            hash: self.hash,
        }
    }
}

impl Clone for PeerWatchTicket {
    fn clone(&self) -> (copy: PeerWatchTicket)
        ensures
            copy@ == self@,
            copy.wire() == self.wire(),
    {
        PeerWatchTicket {
            topic_id: self.topic_id,
            bootstrap: self.bootstrap.clone(),
            blob_ticket: self.blob_ticket.clone(),
        }
    }
}

impl BlobTicket {
    /// The ticket that `bytes` begin with.
    pub fn from_bytes(bytes: &[u8]) -> (ticket: Option<BlobTicket>)
        ensures
            match ticket {
                Some(ticket) => BlobTicketModel::parse(bytes@) == Some(ticket@),
                None => BlobTicketModel::parse(bytes@) is None,
            },
    {
        let (array, rest) = take_array32(bytes)?;
        let provider = EndpointId::from_bytes(array)?;
        let (addrs, rest) = TransportAddrs::take(rest)?;
        let (index, rest) = take_u32(rest)?;
        let (hash, _) = take_array32(rest)?;
        match index {
            0 => Some(BlobTicket { provider, addrs, format: BlobFormat::Raw, hash }),
            1 => Some(BlobTicket { provider, addrs, format: BlobFormat::HashSeq, hash }),
            _ => None,
        }
    }
}

/// The random identifier of a topic, from `rand::random`.
///
/// Trusted: nothing is claimed of the result, and which identifier it is is left
/// open. The call panics where the system has no randomness to give.
#[verifier::external_body]
fn random_topic() -> (topic_id: [u8; 32]) {
    rand::random()
}

impl PeerWatchTicket {
    /// The bytes of the ticket.
    pub open spec fn wire(self) -> Seq<u8> {
        ticket_wire(self.topic_id@, self.bootstrap.keys(), self.blob_ticket@)
    }

    /// A ticket for the blob under a topic, without peers to begin with.
    pub fn new(topic_id: [u8; 32], blob_ticket: BlobTicket) -> (ticket: PeerWatchTicket)
        ensures
            ticket.topic_id == topic_id,
            ticket.bootstrap@ == Set::<Seq<u8>>::empty(),
            ticket.blob_ticket == blob_ticket,
    {
        PeerWatchTicket { topic_id, bootstrap: PeerSet::new(), blob_ticket }
    }

    /// A ticket for the blob under a random topic.
    pub fn new_random(blob_ticket: BlobTicket) -> (ticket: PeerWatchTicket)
        ensures
            ticket.bootstrap@ == Set::<Seq<u8>>::empty(),
            ticket.blob_ticket == blob_ticket,
    {
        PeerWatchTicket::new(random_topic(), blob_ticket)
    }

    /// The bytes of the ticket, with its peers in ascending order. Where the
    /// addresses of the provider are read back, the bytes are read back as this
    /// ticket, and as no ticket where they are cut off.
    pub fn to_bytes(&self) -> (bytes: Vec<u8>)
        ensures
            bytes@ == self.wire(),
            ascending(self.bootstrap.keys()),
            self.bootstrap.keys().to_set() == self.bootstrap@,
            is_addrs_encoding(self.blob_ticket.addrs@) ==> {
                &&& TicketModel::parse(bytes@) == Some(self@)
                &&& forall|n: int|
                    0 <= n < bytes@.len() ==> #[trigger] TicketModel::parse(bytes@.take(n)) is None
            },
    {
        let mut bytes: Vec<u8> = Vec::new();
        append_bytes(&mut bytes, self.topic_id.as_slice());
        append_varint(&mut bytes, self.bootstrap.len() as u64);
        append_keys(&mut bytes, &self.bootstrap);
        let provider = self.blob_ticket.provider.to_bytes();
        append_bytes(&mut bytes, provider.as_slice());
        append_bytes(&mut bytes, self.blob_ticket.addrs.as_bytes());
        let index: u64 = match self.blob_ticket.format {
            BlobFormat::Raw => 0,
            BlobFormat::HashSeq => 1,
        };
        append_varint(&mut bytes, index);
        append_bytes(&mut bytes, self.blob_ticket.hash.as_slice());
        proof {
            assert(bytes@ =~= self.wire());
            if is_addrs_encoding(self.blob_ticket.addrs@) {
                lemma_ticket_roundtrip(
                    self.topic_id@,
                    self.bootstrap.keys(),
                    self.blob_ticket@,
                    Seq::empty(),
                );
                assert(self.wire() + Seq::<u8>::empty() =~= self.wire());
                assert forall|n: int| 0 <= n < bytes@.len() implies #[trigger] TicketModel::parse(
                    bytes@.take(n),
                ) is None by {
                    lemma_cut_ticket(
                        self.topic_id@,
                        self.bootstrap.keys(),
                        self.blob_ticket@,
                        n,
                    );
                }
            }
        }
        bytes
    }

    /// The ticket that `bytes` begin with, or `None` where they do not begin
    /// with one.
    pub fn from_bytes(bytes: &[u8]) -> (ticket: Option<PeerWatchTicket>)
        ensures
            match ticket {
                Some(ticket) => TicketModel::parse(bytes@) == Some(ticket@),
                None => TicketModel::parse(bytes@) is None,
            },
    {
        let (topic_id, rest) = take_array32(bytes)?;
        let (n, rest) = take_usize(rest)?;
        let (bootstrap, rest) = take_keys(rest, n)?;
        let blob_ticket = BlobTicket::from_bytes(rest)?;
        Some(PeerWatchTicket { topic_id, bootstrap, blob_ticket })
    }
}

/// The small letter for a capital ASCII letter, and any other character as it
/// is.
pub open spec fn lower(c: char) -> char {
    if 'A' <= c <= 'Z' {
        (c as int + 32) as char
    } else {
        c
    }
}

/// The capital letter for a small ASCII letter, and any other character as it
/// is.
pub open spec fn upper(c: char) -> char {
    if 'a' <= c <= 'z' {
        (c as int - 32) as char
    } else {
        c
    }
}

/// A text with small letters in place of the capital ASCII letters.
pub open spec fn lowered(text: Seq<char>) -> Seq<char> {
    text.map_values(|c: char| lower(c))
}

/// A text with capital letters in place of the small ASCII letters.
pub open spec fn raised(text: Seq<char>) -> Seq<char> {
    text.map_values(|c: char| upper(c))
}

/// Of `str::to_ascii_lowercase`: every character is mapped to its ASCII lower
/// case equivalent.
pub assume_specification[ str::to_ascii_lowercase ](s: &str) -> (small: String)
    ensures
        small@ == lowered(s@),
;

/// Of `str::to_ascii_uppercase`: every character is mapped to its ASCII upper
/// case equivalent.
pub assume_specification[ str::to_ascii_uppercase ](s: &str) -> (capital: String)
    ensures
        capital@ == raised(s@),
;

/// Takes a prefix off a text with `str::strip_prefix`.
///
/// Trusted: the result is the text behind the prefix, and `None` where the
/// text does not begin with it.
#[verifier::external_body]
fn strip_prefix<'a>(text: &'a str, prefix: &str) -> (stripped: Option<&'a str>)
    ensures
        match stripped {
            Some(rest) => text@ == prefix@ + rest@,
            None => !prefix@.is_prefix_of(text@),
        },
{
    text.strip_prefix(prefix)
}

/// The text of a ticket: its kind, and its bytes in base32 with small letters.
pub open spec fn ticket_text(bytes: Seq<u8>) -> Seq<char> {
    "peerplay"@ + lowered(base32(bytes))
}

/// What stands behind the kind in the text of a ticket, in capital letters.
pub open spec fn encoded_part(text: Seq<char>) -> Seq<char> {
    raised(text.skip("peerplay"@.len() as int))
}

/// The ticket that a text stands for, or why it stands for none.
pub open spec fn parse_ticket_text(text: Seq<char>) -> Result<TicketModel, TicketError> {
    if !"peerplay"@.is_prefix_of(text) {
        Err(TicketError::WrongPrefix)
    } else if !exists|bytes: Seq<u8>| #[trigger] base32(bytes) == encoded_part(text) {
        Err(TicketError::BadEncoding)
    } else {
        match TicketModel::parse(
            choose|bytes: Seq<u8>| #[trigger] base32(bytes) == encoded_part(text),
        ) {
            Some(ticket) => Ok(ticket),
            None => Err(TicketError::BadPayload),
        }
    }
}

/// What a text with the kind and a base32 part stands for.
proof fn lemma_parse_ticket_text(text: Seq<char>, bytes: Seq<u8>)
    requires
        "peerplay"@.is_prefix_of(text),
        base32(bytes) == encoded_part(text),
    ensures
        parse_ticket_text(text) == match TicketModel::parse(bytes) {
            Some(ticket) => Ok(ticket),
            None => Err::<TicketModel, TicketError>(TicketError::BadPayload),
        },
{
    let chosen = choose|bytes: Seq<u8>| #[trigger] base32(bytes) == encoded_part(text);
    lemma_base32_injective(chosen, bytes);
}

/// The text of a ticket is read as the bytes that it was made of, also where
/// letters behind the kind are written as capitals.
pub proof fn lemma_ticket_text(text: Seq<char>, bytes: Seq<u8>)
    requires
        "peerplay"@.is_prefix_of(text),
        lowered(text.skip("peerplay"@.len() as int)) == lowered(base32(bytes)),
    ensures
        parse_ticket_text(text) == match TicketModel::parse(bytes) {
            Some(ticket) => Ok(ticket),
            None => Err::<TicketModel, TicketError>(TicketError::BadPayload),
        },
{
    let rest = text.skip("peerplay"@.len() as int);
    assert(lowered(rest).len() == lowered(base32(bytes)).len());
    assert forall|i: int| 0 <= i < rest.len() implies upper(rest[i]) == base32(bytes)[i] by {
        assert(lowered(rest)[i] == lower(rest[i]));
        assert(lowered(base32(bytes))[i] == lower(base32(bytes)[i]));
        lemma_base32_alphabet(bytes, i);
    }
    assert(encoded_part(text) =~= base32(bytes));
    lemma_parse_ticket_text(text, bytes);
}

/// A text has at least as many bytes as characters.
proof fn lemma_utf8_length(chars: Seq<char>)
    ensures
        chars.len() <= vstd::utf8::encode_utf8(chars).len(),
    decreases chars.len(),
{
    if chars.len() > 0 {
        lemma_utf8_length(chars.drop_first());
    }
}

impl PeerWatchTicket {
    /// The text of the ticket, for a user to pass on. Where the addresses of the
    /// provider are read back, it is read back as this ticket.
    pub fn serialize(&self) -> (text: String)
        requires
            self.wire().len() <= usize::MAX / 512,
        ensures
            text@ == ticket_text(self.wire()),
            text@ == "peerplay"@ + lowered(base32(self.wire())),
            is_addrs_encoding(self.blob_ticket.addrs@) ==> parse_ticket_text(text@) == Ok::<
                TicketModel,
                TicketError,
            >(self@),
    {
        let bytes = self.to_bytes();
        let encoded = encode_base32(bytes.as_slice());
        let small = encoded.as_str().to_ascii_lowercase();
        let mut text = "peerplay".to_owned();
        text.append(small.as_str());
        proof {
            let kind = "peerplay"@;
            assert(text@.skip(kind.len() as int) =~= small@);
            assert(text@.take(kind.len() as int) =~= kind);
            assert(lowered(small@) =~= small@);
            lemma_ticket_text(text@, bytes@);
        }
        text
    }

    /// The ticket that a text stands for, or why it stands for none.
    pub fn deserialize(input: &str) -> (ticket: Result<PeerWatchTicket, TicketError>)
        requires
            vstd::utf8::encode_utf8(input@).len() <= usize::MAX / 8,
        ensures
            match ticket {
                Ok(ticket) => parse_ticket_text(input@) == Ok::<TicketModel, TicketError>(ticket@),
                Err(error) => parse_ticket_text(input@) == Err::<TicketModel, TicketError>(error),
            },
    {
        let rest = match strip_prefix(input, "peerplay") {
            Some(rest) => rest,
            None => {
                return Err(TicketError::WrongPrefix);
            },
        };
        let ghost kind = "peerplay"@;
        assert(input@.skip(kind.len() as int) =~= rest@);
        assert(input@.take(kind.len() as int) =~= kind);
        if !rest.is_ascii() {
            proof {
                let i = choose|i: int| 0 <= i < rest@.len() && !('\0' <= #[trigger] rest@[i] <= '\u{7f}');
                assert forall|bytes: Seq<u8>| #[trigger] base32(bytes) != encoded_part(input@) by {
                    if base32(bytes) == encoded_part(input@) {
                        lemma_base32_alphabet(bytes, i);
                        assert(encoded_part(input@)[i] == rest@[i]);
                    }
                }
            }
            return Err(TicketError::BadEncoding);
        }
        let capital = rest.to_ascii_uppercase();
        proof {
            assert(vstd::utf8::is_ascii_chars(capital@)) by {
                assert forall|i: int| 0 <= i < capital@.len() implies '\0' <= #[trigger] capital@[i]
                    <= '\u{7f}' by {
                    assert(rest@[i] <= '\u{7f}');
                }
            }
            vstd::utf8::is_ascii_chars_encode_utf8(capital@);
            lemma_utf8_length(input@);
        }
        match decode_base32(capital.as_str()) {
            Some(bytes) => {
                proof {
                    lemma_parse_ticket_text(input@, bytes@);
                }
                match PeerWatchTicket::from_bytes(bytes.as_slice()) {
                    Some(ticket) => Ok(ticket),
                    None => Err(TicketError::BadPayload),
                }
            },
            None => Err(TicketError::BadEncoding),
        }
    }
}

/// What a ticket says is what it holds, every field as it is.
pub proof fn lemma_ticket_view(ticket: PeerWatchTicket)
    ensures
        ticket@.topic_id == ticket.topic_id@,
        ticket@.bootstrap == ticket.bootstrap@,
        ticket@.blob_ticket.provider == ticket.blob_ticket.provider@,
        ticket@.blob_ticket.addrs == ticket.blob_ticket.addrs@,
        ticket@.blob_ticket.format == ticket.blob_ticket.format,
        ticket@.blob_ticket.hash == ticket.blob_ticket.hash@,
{
}

/// When an encoding is read back: it is read as the addresses that are encoded
/// so, whatever follows it, and it is not read where it is cut off.
pub proof fn lemma_addrs_encoding(encoded: Seq<u8>)
    ensures
        is_addrs_encoding(encoded) <==> {
            &&& forall|rest: Seq<u8>| #[trigger]
                read_transport_addrs(encoded + rest, usize::BITS as nat) == Some((encoded, rest))
            &&& forall|n: int|
                0 <= n < encoded.len() ==> #[trigger] read_transport_addrs(
                    encoded.take(n),
                    usize::BITS as nat,
                ) is None
        },
{
}

/// Keys of 32 bytes stand one behind the other, in their order and nothing
/// between them.
pub proof fn lemma_keys_layout(keys: Seq<Seq<u8>>, i: int)
    requires
        forall|j: int| 0 <= j < keys.len() ==> (#[trigger] keys[j]).len() == 32,
        0 <= i < keys.len(),
    ensures
        keys_wire(keys).len() == 32 * keys.len(),
        keys_wire(keys).subrange(32 * i, 32 * i + 32) == keys[i],
    decreases keys.len(),
{
    let others = keys.drop_first();
    let tail = keys_wire(others);
    assert(keys[0].len() == 32);
    assert forall|j: int| 0 <= j < others.len() implies (#[trigger] others[j]).len() == 32 by {
        assert(others[j] == keys[j + 1]);
    }
    if others.len() > 0 {
        lemma_keys_layout(
            others,
            if i > 0 {
                i - 1
            } else {
                0
            },
        );
    }
    if i == 0 {
        assert(keys_wire(keys).subrange(0, 32) =~= keys[0]);
    } else {
        assert(keys_wire(keys).subrange(32 * i, 32 * i + 32) =~= tail.subrange(
            32 * (i - 1),
            32 * (i - 1) + 32,
        ));
    }
}

/// Keys are read exactly where so many public keys stand in front, and are just
/// these.
pub proof fn lemma_keys_read(bytes: Seq<u8>, n: nat, keys: Seq<Seq<u8>>, rest: Seq<u8>)
    ensures
        parse_keys(bytes, n) == Some((keys, rest)) <==> {
            &&& keys.len() == n
            &&& bytes == keys_wire(keys) + rest
            &&& forall|i: int|
                0 <= i < keys.len() ==> is_public_key(#[trigger] keys[i]) && keys[i].len() == 32
        },
    decreases n,
{
    let stated = {
        &&& keys.len() == n
        &&& bytes == keys_wire(keys) + rest
        &&& forall|i: int|
            0 <= i < keys.len() ==> is_public_key(#[trigger] keys[i]) && keys[i].len() == 32
    };
    if stated {
        lemma_keys_roundtrip(keys, rest);
    }
    if parse_keys(bytes, n) == Some((keys, rest)) {
        if n == 0 {
            assert(keys_wire(keys) + rest =~= bytes);
        } else {
            let key = bytes.take(32);
            let behind = bytes.skip(32);
            let (others, end) = parse_keys(behind, (n - 1) as nat)->0;
            lemma_keys_read(behind, (n - 1) as nat, others, end);
            assert(keys =~= seq![key] + others);
            assert(keys.drop_first() =~= others);
            assert(keys.first() == key);
            assert(bytes =~= key + behind);
            assert(keys_wire(keys) == key + keys_wire(others));
            assert(keys_wire(keys) + rest =~= bytes);
            assert forall|i: int| 0 <= i < keys.len() implies is_public_key(#[trigger] keys[i])
                && keys[i].len() == 32 by {
                if i > 0 {
                    assert(keys[i] == others[i - 1]);
                }
            }
        }
    }
}

/// A blob's ticket is read exactly where a public key, addresses, the index of a
/// format and a hash stand one behind the other, and says just these.
pub proof fn lemma_blob_ticket_read(bytes: Seq<u8>, ticket: BlobTicketModel)
    ensures
        BlobTicketModel::parse(bytes) == Some(ticket) <==> {
            &&& bytes.len() >= 32
            &&& ticket.provider == bytes.take(32)
            &&& is_public_key(ticket.provider)
            &&& read_transport_addrs(bytes.skip(32), usize::BITS as nat) matches Some((addrs, rest))
            &&& ticket.addrs == addrs
            &&& take_varint(rest, 32) matches Some((index, end))
            &&& index == 0 && ticket.format == BlobFormat::Raw || index == 1 && ticket.format
                == BlobFormat::HashSeq
            &&& end.len() >= 32
            &&& ticket.hash == end.take(32)
        },
{
}

/// A ticket is read exactly where a topic, a number, so many public keys and a
/// blob's ticket stand one behind the other, and says just these.
pub proof fn lemma_ticket_read(bytes: Seq<u8>, ticket: TicketModel)
    ensures
        TicketModel::parse(bytes) == Some(ticket) <==> {
            &&& bytes.len() >= 32
            &&& ticket.topic_id == bytes.take(32)
            &&& take_varint(bytes.skip(32), usize::BITS as nat) matches Some((n, rest))
            &&& parse_keys(rest, n) matches Some((keys, end))
            &&& ticket.bootstrap == keys.to_set()
            &&& BlobTicketModel::parse(end) == Some(ticket.blob_ticket)
        },
{
}

/// The bytes of a ticket: the topic, the number of peers, their keys, the
/// provider, its addresses, the index of the format and the hash.
pub proof fn lemma_ticket_layout(
    topic_id: Seq<u8>,
    keys: Seq<Seq<u8>>,
    blob_ticket: BlobTicketModel,
)
    ensures
        ticket_wire(topic_id, keys, blob_ticket) == topic_id + varint(keys.len()) + keys_wire(keys)
            + blob_ticket.provider + blob_ticket.addrs + seq![
            if blob_ticket.format == BlobFormat::Raw {
                0u8
            } else {
                1u8
            },
        ] + blob_ticket.hash,
{
    assert(ticket_wire(topic_id, keys, blob_ticket) =~= topic_id + varint(keys.len()) + keys_wire(
        keys,
    ) + blob_ticket.provider + blob_ticket.addrs + seq![
        if blob_ticket.format == BlobFormat::Raw {
            0u8
        } else {
            1u8
        },
    ] + blob_ticket.hash);
}

/// Why a text stands for no ticket: it does not begin with the kind, or what
/// follows, in capital letters, is the base32 of no bytes, or of bytes that make
/// up no ticket. Otherwise it stands for the ticket that they make up.
pub proof fn lemma_ticket_errors(text: Seq<char>, bytes: Seq<u8>, ticket: TicketModel)
    ensures
        parse_ticket_text(text) == Err::<TicketModel, TicketError>(TicketError::WrongPrefix)
            <==> !"peerplay"@.is_prefix_of(text),
        parse_ticket_text(text) == Err::<TicketModel, TicketError>(TicketError::BadEncoding)
            <==> "peerplay"@.is_prefix_of(text) && forall|other: Seq<u8>| #[trigger]
            base32(other) != raised(text.skip(8)),
        "peerplay"@.is_prefix_of(text) && base32(bytes) == raised(text.skip(8)) ==> {
            &&& parse_ticket_text(text) == Err::<TicketModel, TicketError>(TicketError::BadPayload)
                <==> TicketModel::parse(bytes) is None
            &&& parse_ticket_text(text) == Ok::<TicketModel, TicketError>(ticket)
                <==> TicketModel::parse(bytes) == Some(ticket)
        },
{
    reveal_strlit("peerplay");
    if "peerplay"@.is_prefix_of(text) && base32(bytes) == raised(text.skip(8)) {
        lemma_parse_ticket_text(text, bytes);
    }
}

/// The text of a ticket is its kind and, behind it, the base32 of its bytes with
/// the same digits and the same letters, all of them small.
pub proof fn lemma_ticket_text_form(bytes: Seq<u8>, i: int)
    requires
        0 <= i < base32(bytes).len(),
    ensures
        ticket_text(bytes).len() == 8 + base32(bytes).len(),
        ticket_text(bytes).take(8) == "peerplay"@,
        '2' <= base32(bytes)[i] <= '7' ==> ticket_text(bytes)[8 + i] == base32(bytes)[i],
        'A' <= base32(bytes)[i] <= 'Z' ==> ticket_text(bytes)[8 + i] as int == base32(bytes)[i]
            as int + 32,
{
    reveal_strlit("peerplay");
    assert(ticket_text(bytes).take(8) =~= "peerplay"@);
    assert(ticket_text(bytes)[8 + i] == lower(base32(bytes)[i]));
}

} // verus!
