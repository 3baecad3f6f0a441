//! Sound on its way to the output device.
//!
//! The decoder writes samples into a ring and the output device takes them
//! out. A sample is the four bytes of a single-precision number, in the order of
//! the machine, so the silent sample is zero in all of them.

use ringbuf::traits::{Consumer, Producer, Split};
use vstd::prelude::*;

verus! {

/// The samples per second and channel at which sound is played.
pub const SAMPLE_RATE: u32 = 48000;

/// How far the decoder may lag behind the output device, in milliseconds.
pub const LATENCY_MS: u32 = 150;

/// A ring of samples that nobody else has access to.
#[verifier::external_body]
pub struct SampleRing {
    ring: ringbuf::HeapRb<[u8; 4]>,
}

/// The writing end of a ring that is shared with its reading end.
#[verifier::external_body]
pub struct SampleProducer {
    half: ringbuf::HeapProd<[u8; 4]>,
}

/// The reading end of a ring that is shared with its writing end.
#[verifier::external_body]
pub struct SampleConsumer {
    half: ringbuf::HeapCons<[u8; 4]>,
}

/// The samples in a ring, the oldest first.
pub uninterp spec fn ring_samples(ring: SampleRing) -> Seq<[u8; 4]>;

/// How many samples a ring holds at most.
pub uninterp spec fn ring_capacity(ring: SampleRing) -> nat;

/// All samples that were put in at a writing end, the oldest first.
pub uninterp spec fn put_in(producer: SampleProducer) -> Seq<[u8; 4]>;

/// Whether each sample that was offered at a writing end was put in, the oldest
/// first.
pub uninterp spec fn offers(producer: SampleProducer) -> Seq<bool>;

/// How many samples the ring of a writing end holds at most.
pub uninterp spec fn room(producer: SampleProducer) -> nat;

/// What came of all attempts to take a sample out at a reading end, the oldest
/// first.
pub uninterp spec fn attempts(consumer: SampleConsumer) -> Seq<Option<[u8; 4]>>;

/// All samples that a reading end has found in its ring, the oldest first, with
/// those that it has taken out.
pub uninterp spec fn arrived(consumer: SampleConsumer) -> Seq<[u8; 4]>;

/// All samples that were taken out at a reading end, the oldest first.
pub open spec fn taken_out(consumer: SampleConsumer) -> Seq<[u8; 4]> {
    played(attempts(consumer))
}

/// The samples among the slots of an output block, in their order.
pub open spec fn played(slots: Seq<Option<[u8; 4]>>) -> Seq<[u8; 4]>
    decreases slots.len(),
{
    if slots.len() == 0 {
        Seq::empty()
    } else {
        match slots.last() {
            Some(sample) => played(slots.drop_last()).push(sample),
            None => played(slots.drop_last()),
        }
    }
}

/// The sample at position `at`, where there is one.
pub open spec fn sample_at(samples: Seq<[u8; 4]>, at: int) -> Option<[u8; 4]> {
    if 0 <= at < samples.len() {
        Some(samples[at])
    } else {
        None
    }
}

/// Makes a ring with `ringbuf::HeapRb::new`.
///
/// Trusted: the ring is empty and has the capacity that was asked for. The
/// call panics for no capacity and where the memory cannot be addressed, which
/// is left out.
#[verifier::external_body]
fn new_ring(capacity: usize) -> (ring: SampleRing)
    requires
        0 < capacity,
        capacity * 4 <= isize::MAX,
    ensures
        ring_samples(ring) == Seq::<[u8; 4]>::empty(),
        ring_capacity(ring) == capacity,
{
    SampleRing { ring: ringbuf::HeapRb::new(capacity) }
}

/// Puts a sample into a ring with `ringbuf::traits::Producer::try_push`.
///
/// Trusted: the sample is put behind the others where there is room, and the
/// ring stays as it is where there is none.
#[verifier::external_body]
fn push_sample(ring: &mut SampleRing, sample: [u8; 4]) -> (accepted: bool)
    ensures
        accepted == (ring_samples(*old(ring)).len() < ring_capacity(*old(ring))),
        accepted ==> ring_samples(*final(ring)) == ring_samples(*old(ring)).push(sample),
        !accepted ==> ring_samples(*final(ring)) == ring_samples(*old(ring)),
        ring_capacity(*final(ring)) == ring_capacity(*old(ring)),
{
    ring.ring.try_push(sample).is_ok()
}

/// Shares a ring between its two ends with `ringbuf::traits::Split::split`.
///
/// Trusted: what is in the ring was put in at the writing end and is what the
/// reading end has found. The capacity stays, and nothing was offered or tried
/// yet at the two ends.
#[verifier::external_body]
fn split_ring(ring: SampleRing) -> (ends: (SampleProducer, SampleConsumer))
    ensures
        put_in(ends.0) == ring_samples(ring),
        room(ends.0) == ring_capacity(ring),
        offers(ends.0) == Seq::<bool>::empty(),
        attempts(ends.1) == Seq::<Option<[u8; 4]>>::empty(),
        arrived(ends.1) == ring_samples(ring),
{
    let (producer, consumer) = ring.ring.split();
    (SampleProducer { half: producer }, SampleConsumer { half: consumer })
}

/// Puts a sample in at a writing end with
/// `ringbuf::traits::Producer::try_push`.
///
/// Trusted: this is one offer, and the result is what came of it. The sample is
/// put in behind the others, or it is refused and nothing is put in. It is not refused as long as all that was ever put in
/// would fit. Beyond that it depends on the reading end whether there is room,
/// which is left open.
#[verifier::external_body]
fn produce(producer: &mut SampleProducer, sample: [u8; 4]) -> (accepted: bool)
    ensures
        offers(*final(producer)) == offers(*old(producer)).push(accepted),
        put_in(*old(producer)).len() < room(*old(producer)) ==> accepted,
        accepted ==> put_in(*final(producer)) == put_in(*old(producer)).push(sample),
        !accepted ==> put_in(*final(producer)) == put_in(*old(producer)),
        room(*final(producer)) == room(*old(producer)),
{
    producer.half.try_push(sample).is_ok()
}

/// Takes a sample out at a reading end with
/// `ringbuf::traits::Consumer::try_pop`.
///
/// Trusted: the reading end may find that more samples have arrived. The sample
/// that is taken out is the first that was found and not yet taken out, and
/// there is none exactly where all were. What arrives depends on the writing
/// end, which may be in use elsewhere at the same time, and is left open.
#[verifier::external_body]
fn consume(consumer: &mut SampleConsumer) -> (popped: Option<[u8; 4]>)
    ensures
        attempts(*final(consumer)) == attempts(*old(consumer)).push(popped),
        arrived(*old(consumer)).is_prefix_of(arrived(*final(consumer))),
        popped == sample_at(arrived(*final(consumer)), taken_out(*old(consumer)).len() as int),
{
    consumer.half.try_pop()
}

/// The samples that are played within the latency, in all channels together.
pub open spec fn latency_of(channels: u16) -> int {
    (LATENCY_MS * SAMPLE_RATE / 1000) * channels
}

/// That many silent samples.
pub open spec fn silence(n: int) -> Seq<[u8; 4]> {
    Seq::new(n as nat, |i: int| [0u8, 0u8, 0u8, 0u8])
}

/// The samples that are played within the latency, in all channels together.
pub fn latency_samples(channels: u16) -> (samples: usize)
    ensures
        samples == latency_of(channels),
        samples == 7200 * channels,
{
    let frames: usize = 7200;
    assert(frames * channels <= 7200 * 65535) by (nonlinear_arith)
        requires
            frames == 7200,
            channels <= 65535,
    ;
    frames * channels as usize
}

/// The two ends of a new ring for sound in some channels. The ring holds twice
/// what is played within the latency, and starts half full, of silence.
pub fn sample_ring(channels: u16) -> (ends: (SampleProducer, SampleConsumer))
    requires
        0 < channels,
        8 * latency_of(channels) <= isize::MAX,
    ensures
        put_in(ends.0) == silence(latency_of(channels)),
        room(ends.0) == 2 * latency_of(channels),
        offers(ends.0) == Seq::<bool>::empty(),
        attempts(ends.1) == Seq::<Option<[u8; 4]>>::empty(),
        arrived(ends.1) == silence(latency_of(channels)),
        put_in(ends.0).len() == 7200 * channels,
        room(ends.0) == 14400 * channels,
        arrived(ends.1) == put_in(ends.0),
        forall|i: int|
            0 <= i < 7200 * channels ==> #[trigger] arrived(ends.1)[i] == [0u8, 0u8, 0u8, 0u8],
{
    let latency = latency_samples(channels);
    let mut ring = new_ring(latency * 2);
    let mut i: usize = 0;
    while i < latency
        invariant
            i <= latency,
            ring_samples(ring) == silence(i as int),
            ring_capacity(ring) == 2 * latency,
        decreases latency - i,
    {
        let _ = push_sample(&mut ring, [0u8, 0u8, 0u8, 0u8]);
        i = i + 1;
        assert(ring_samples(ring) =~= silence(i as int));
    }
    split_ring(ring)
}

/// What comes of offering samples until one is refused: `n` are put in, and then
/// one is refused where they are not `all`.
pub open spec fn offered(n: nat, all: bool) -> Seq<bool> {
    let accepted = Seq::new(n, |i: int| true);
    if all {
        accepted
    } else {
        accepted.push(false)
    }
}

/// Samples of which some have been put in at a writing end.
#[derive(Debug)]
pub struct PendingSamples {
    samples: Vec<[u8; 4]>,
    written: usize,
}

impl View for PendingSamples {
    type V = Seq<[u8; 4]>;

    /// The samples that are still to be put in.
    closed spec fn view(&self) -> Seq<[u8; 4]> {
        self.samples@.skip(self.written as int)
    }
}

impl PendingSamples {
    #[verifier::type_invariant]
    spec fn well_formed(self) -> bool {
        self.written <= self.samples@.len()
    }

    /// Samples of which none has been put in.
    pub fn new(samples: Vec<[u8; 4]>) -> (pending: PendingSamples)
        ensures
            pending@ == samples@,
    {
        let pending = PendingSamples { samples, written: 0 };
        assert(pending.samples@.skip(0) =~= samples@);
        pending
    }

    /// Puts samples in until one is refused, and says whether all are put in.
    ///
    /// What was put in and what is still to be put in stay the same taken
    /// together. None is refused as long as all that was ever put in fits into
    /// the ring.
    pub fn offer(&mut self, producer: &mut SampleProducer) -> (done: bool)
        ensures
            put_in(*final(producer)) + final(self)@ == put_in(*old(producer)) + old(self)@,
            final(self)@.len() <= old(self)@.len(),
            room(*final(producer)) == room(*old(producer)),
            done == (final(self)@.len() == 0),
            !done ==> put_in(*final(producer)).len() >= room(*final(producer)),
            offers(*final(producer)) == offers(*old(producer)) + offered(
                (old(self)@.len() - final(self)@.len()) as nat,
                done,
            ),
            !done ==> offers(*final(producer)).len() > offers(*old(producer)).len() && !offers(
                *final(producer),
            ).last(),
            done ==> offers(*final(producer)).len() == offers(*old(producer)).len()
                + old(self)@.len(),
    {
        proof {
            use_type_invariant(&*self);
        }
        let ghost all = put_in(*producer) + self@;
        assert(offers(*producer) + offered(0, true) =~= offers(*producer));
        while self.written < self.samples.len()
            invariant
                self.written <= self.samples@.len(),
                put_in(*producer) + self@ == all,
                all == put_in(*old(producer)) + old(self)@,
                self@.len() <= old(self)@.len(),
                room(*producer) == room(*old(producer)),
                offers(*producer) == offers(*old(producer)) + offered(
                    (old(self)@.len() - self@.len()) as nat,
                    true,
                ),
            decreases self.samples@.len() - self.written,
        {
            let ghost before = put_in(*producer);
            let ghost rest = self@;
            let ghost n = (old(self)@.len() - self@.len()) as nat;
            if !produce(producer, self.samples[self.written]) {
                assert(offers(*producer) =~= offers(*old(producer)) + offered(n, false));
                return false;
            }
            assert(offers(*producer) =~= offers(*old(producer)) + offered(n + 1, true));
            self.written = self.written + 1;
            assert(rest =~= seq![rest[0]] + self@);
            assert(put_in(*producer) + self@ =~= before + rest);
        }
        true
    }
}

/// A block of `n` slots out of the samples from position `from` on: a sample in
/// each slot as long as there are any, and none in the others.
pub open spec fn block_of(samples: Seq<[u8; 4]>, from: int, n: int) -> Seq<Option<[u8; 4]>> {
    Seq::new(n as nat, |i: int| sample_at(samples, from + i))
}

/// Whether no sample follows an empty slot.
pub open spec fn gapless(slots: Seq<Option<[u8; 4]>>) -> bool {
    forall|i: int, j: int| 0 <= i < j < slots.len() && slots[i] is None ==> slots[j] is None
}

/// The samples of two blocks, one behind the other.
pub proof fn lemma_played_concat(first: Seq<Option<[u8; 4]>>, second: Seq<Option<[u8; 4]>>)
    ensures
        played(first + second) == played(first) + played(second),
    decreases second.len(),
{
    if second.len() == 0 {
        assert(first + second =~= first);
        assert(played(first) + played(second) =~= played(first));
    } else {
        assert((first + second).drop_last() =~= first + second.drop_last());
        lemma_played_concat(first, second.drop_last());
        assert(played(first + second) =~= played(first) + played(second));
    }
}

/// A block out of a queue plays the front of the queue: as many samples as
/// there are slots, or all where there are fewer.
pub proof fn lemma_block_plays_the_front(samples: Seq<[u8; 4]>, from: int, n: int)
    requires
        0 <= from <= samples.len(),
        0 <= n,
    ensures
        gapless(block_of(samples, from, n)),
        played(block_of(samples, from, n)) == samples.skip(from).take(
            if n <= samples.len() - from {
                n
            } else {
                samples.len() - from
            },
        ),
    decreases n,
{
    if n > 0 {
        lemma_block_plays_the_front(samples, from, n - 1);
        assert(block_of(samples, from, n).drop_last() =~= block_of(samples, from, n - 1));
        if n <= samples.len() - from {
            assert(samples.skip(from).take(n) =~= samples.skip(from).take(n - 1).push(
                samples[from + n - 1],
            ));
        }
    } else {
        assert(samples.skip(from).take(0) =~= Seq::empty());
    }
}

impl SampleConsumer {
    /// Fills an output block of `n` slots with samples, and says how many are
    /// played. There is one attempt for each slot, and a slot for which there is
    /// no sample stays empty.
    ///
    /// What the reading end had found in the ring comes first, without gaps. The
    /// block is the front of what it has found in the end, unless samples arrive
    /// after the ring was found empty.
    pub fn fill(&mut self, slots: &mut Vec<Option<[u8; 4]>>, n: usize) -> (count: u64)
        ensures
            final(slots)@.len() == n,
            attempts(*final(self)) == attempts(*old(self)) + final(slots)@,
            taken_out(*final(self)) == taken_out(*old(self)) + played(final(slots)@),
            count == played(final(slots)@).len(),
            count <= n,
            arrived(*old(self)).is_prefix_of(arrived(*final(self))),
            taken_out(*old(self)).is_prefix_of(arrived(*old(self))) ==> taken_out(
                *final(self),
            ).is_prefix_of(arrived(*final(self))),
            taken_out(*old(self)).len() + n <= arrived(*old(self)).len() ==> count == n,
            forall|i: int|
                0 <= i < n && taken_out(*old(self)).len() + i < arrived(*old(self)).len()
                    ==> #[trigger] final(slots)@[i] == Some(
                    arrived(*old(self))[taken_out(*old(self)).len() + i],
                ),
            arrived(*final(self)) == arrived(*old(self)) ==> gapless(final(slots)@),
            arrived(*final(self)) == arrived(*old(self)) ==> forall|i: int|
                0 <= i < n && taken_out(*old(self)).len() + i >= arrived(*old(self)).len()
                    ==> #[trigger] final(slots)@[i] is None,
            (forall|i: int, j: int|
                0 <= i < j < n && final(slots)@[i] is None ==> final(slots)@[j] is None)
                ==> forall|i: int|
                0 <= i < n ==> #[trigger] final(slots)@[i] == (if taken_out(*old(self)).len() + i
                    < arrived(*final(self)).len() {
                    Some(arrived(*final(self))[taken_out(*old(self)).len() + i])
                } else {
                    None
                }),
            gapless(final(slots)@) ==> final(slots)@ == block_of(
                arrived(*final(self)),
                taken_out(*old(self)).len() as int,
                n as int,
            ),
    {
        let ghost first_attempts = attempts(*self);
        let ghost supply = arrived(*self);
        let ghost from = taken_out(*self).len() as int;
        slots.clear();
        let mut count: u64 = 0;
        let mut i: usize = 0;
        assert(first_attempts + slots@ =~= first_attempts);
        assert(block_of(supply, from, 0) =~= slots@);
        while i < n
            invariant
                i <= n,
                first_attempts == attempts(*old(self)),
                supply == arrived(*old(self)),
                from == taken_out(*old(self)).len(),
                slots@.len() == i,
                attempts(*self) == first_attempts + slots@,
                supply.is_prefix_of(arrived(*self)),
                taken_out(*old(self)).is_prefix_of(supply) ==> taken_out(*self).is_prefix_of(
                    arrived(*self),
                ),
                count == played(slots@).len(),
                count <= i,
                from + i <= supply.len() ==> count == i,
                forall|j: int|
                    0 <= j < i && from + j < supply.len() ==> #[trigger] slots@[j] == Some(
                        supply[from + j],
                    ),
                arrived(*self) == supply ==> gapless(slots@),
                gapless(slots@) ==> slots@ == block_of(arrived(*self), from, i as int),
                gapless(slots@) && count < i ==> slots@[i - 1] is None && from + count
                    >= arrived(*self).len(),
                gapless(slots@) ==> forall|j: int|
                    0 <= j < i && #[trigger] slots@[j] is None ==> count <= j,
            decreases n - i,
        {
            let ghost shorter = slots@;
            let ghost found = arrived(*self);
            let ghost so_far = count;
            proof {
                lemma_played_concat(first_attempts, shorter);
            }
            let sample = consume(self);
            if sample.is_some() {
                count = count + 1;
            }
            slots.push(sample);
            proof {
                assert(slots@.drop_last() =~= shorter);
                assert(attempts(*self) =~= first_attempts + slots@);
                assert(attempts(*self).drop_last() =~= first_attempts + shorter);
                let now = arrived(*self);
                assert(found.is_prefix_of(now));
                assert(forall|k: int| 0 <= k < found.len() ==> now[k] == found[k]);
                assert(forall|k: int| 0 <= k < supply.len() ==> found[k] == supply[k]);
                if gapless(slots@) {
                    assert forall|j: int, k: int|
                        0 <= j < k < shorter.len() && shorter[j] is None implies shorter[k]
                        is None by {
                        assert(slots@[j] == shorter[j] && slots@[k] == shorter[k]);
                    }
                    assert(gapless(shorter));
                    if i > 0 && shorter[i - 1] is None {
                        assert(slots@[i - 1] is None);
                        assert(slots@[i as int] is None);
                    }
                    assert forall|j: int| 0 <= j < i + 1 implies slots@[j] == sample_at(
                        now,
                        from + j,
                    ) by {
                        if j < i {
                            assert(slots@[j] == shorter[j]);
                            assert(shorter[j] == block_of(found, from, i as int)[j]);
                            if shorter[j] is None {
                                assert(slots@[i as int] is None);
                                assert(so_far <= j);
                            }
                        }
                    }
                    assert(slots@ =~= block_of(now, from, i + 1));
                }
                if now == supply {
                    assert(found =~= supply);
                    assert forall|j: int, k: int|
                        0 <= j < k < slots@.len() && slots@[j] is None implies slots@[k] is None by {
                        assert(shorter[j] == slots@[j]);
                        assert(shorter[j] is None);
                        assert(so_far <= j);
                        if k < i {
                            assert(shorter[k] == slots@[k]);
                        }
                    }
                }
            }
            i = i + 1;
        }
        proof {
            lemma_played_concat(first_attempts, slots@);
            if gapless(slots@) {
                assert forall|i: int| 0 <= i < n implies #[trigger] slots@[i] == sample_at(
                    arrived(*self),
                    from + i,
                ) by {
                    assert(slots@[i] == block_of(arrived(*self), from, n as int)[i]);
                }
            }
        }
        count
    }
}

/// What is played of a block is its samples: one more slot adds its sample where
/// it has one, and an empty slot adds nothing.
pub proof fn lemma_played_of_one_more(slots: Seq<Option<[u8; 4]>>, sample: [u8; 4])
    ensures
        played(slots.push(Some(sample))) == played(slots).push(sample),
        played(slots.push(None)) == played(slots),
        played(Seq::<Option<[u8; 4]>>::empty()) == Seq::<[u8; 4]>::empty(),
{
    assert(slots.push(Some(sample)).drop_last() =~= slots);
    assert(slots.push(None).drop_last() =~= slots);
}

/// Within the latency of 150 milliseconds at 48000 samples a second and channel,
/// 7200 samples are played for each channel, all of which are silent at first.
pub proof fn lemma_latency(channels: u16, i: int)
    ensures
        latency_of(channels) == 7200 * channels,
        1000 * latency_of(channels) == 7_200_000 * channels,
        silence(latency_of(channels)).len() == 7200 * channels,
        0 <= i < 7200 * channels ==> silence(latency_of(channels))[i] == [0u8, 0u8, 0u8, 0u8],
{
}

} // verus!
