//! Frames that wait for their time to be shown.

use std::collections::VecDeque;
use std::sync::Arc;
use vstd::prelude::*;

verus! {

/// Gives out a frame with `Arc::clone`.
///
/// Trusted: the clone points to the same frame.
#[verifier::external_body]
fn share<T>(frame: &Arc<T>) -> (shared: Arc<T>)
    ensures
        shared == *frame,
{
    Arc::clone(frame)
}

/// Frames in the order in which they came, each with its time stamp in ticks
/// of the stream's time base.
pub struct FrameCache<T> {
    frames: VecDeque<(i64, Arc<T>)>,
    max_size: usize,
}

/// Whether a frame is due at the time `timestamp` or later.
pub open spec fn is_due<T>(timestamp: i64) -> spec_fn((i64, Arc<T>)) -> bool {
    |frame: (i64, Arc<T>)| frame.0 >= timestamp
}

/// The frames that are due at the time `timestamp` or later, in their order.
pub open spec fn due<T>(frames: Seq<(i64, Arc<T>)>, timestamp: i64) -> Seq<(i64, Arc<T>)> {
    frames.filter(is_due(timestamp))
}

/// The first of some frames.
pub open spec fn first_frame<T>(frames: Seq<(i64, Arc<T>)>) -> Option<Arc<T>> {
    if frames.len() > 0 {
        Some(frames[0].1)
    } else {
        None
    }
}

impl<T> View for FrameCache<T> {
    type V = Seq<(i64, Arc<T>)>;

    closed spec fn view(&self) -> Seq<(i64, Arc<T>)> {
        self.frames@
    }
}

impl<T> FrameCache<T> {
    /// The number of frames from which on the cache counts as full.
    pub closed spec fn limit(&self) -> usize {
        self.max_size
    }

    /// A cache without frames. There has to be room in memory for `max_size`
    /// of them, sixteen bytes each.
    pub fn new(max_size: usize) -> (cache: FrameCache<T>)
        requires
            16 * max_size <= isize::MAX,
        ensures
            cache@ == Seq::<(i64, Arc<T>)>::empty(),
            cache.limit() == max_size,
    {
        FrameCache { frames: VecDeque::with_capacity(max_size), max_size }
    }

    /// Puts a frame behind the others, also where the cache is full.
    pub fn insert(&mut self, timestamp: i64, frame: Arc<T>)
        ensures
            final(self)@ == old(self)@.push((timestamp, frame)),
            final(self).limit() == old(self).limit(),
    {
        self.frames.push_back((timestamp, frame));
    }

    /// Drops the frames that were due before `timestamp`, and gives the first
    /// of those that are left.
    pub fn get_and_evict(&mut self, timestamp: i64) -> (frame: Option<Arc<T>>)
        ensures
            final(self)@ == due(old(self)@, timestamp),
            frame == first_frame(final(self)@),
            final(self)@.len() > 0 ==> frame == Some(final(self)@[0].1),
            final(self)@.len() == 0 ==> frame is None,
            final(self).limit() == old(self).limit(),
    {
        let ghost all = self.frames@;
        let ghost limit = self.max_size;
        let n = self.frames.len();
        let mut i: usize = 0;
        assert(all.take(0).filter(is_due(timestamp)) =~= Seq::empty());
        assert(all.skip(0) + Seq::<(i64, Arc<T>)>::empty() =~= all);
        while i < n
            invariant
                i <= n,
                n == all.len(),
                self.frames@ == all.skip(i as int) + due(all.take(i as int), timestamp),
                self.max_size == limit,
            decreases n - i,
        {
            let ghost before = self.frames@;
            let ghost kept = due(all.take(i as int), timestamp);
            assert(before[0] == all[i as int]);
            if let Some(entry) = self.frames.pop_front() {
                proof {
                    let longer = all.take(i + 1);
                    assert(longer.drop_last() =~= all.take(i as int));
                    assert(longer.last() == all[i as int]);
                    reveal(Seq::filter);
                    assert(self.frames@ =~= all.skip(i + 1) + kept);
                }
                if entry.0 >= timestamp {
                    self.frames.push_back(entry);
                    assert(self.frames@ =~= all.skip(i + 1) + due(all.take(i + 1), timestamp));
                }
            }
            i = i + 1;
        }
        assert(all.take(n as int) =~= all);
        assert(self.frames@ =~= due(all, timestamp));
        if self.frames.len() > 0 {
            Some(share(&self.frames[0].1))
        } else {
            None
        }
    }

    /// Whether the cache takes no more frames.
    pub fn is_full(&self) -> (full: bool)
        ensures
            full == (self@.len() >= self.limit()),
    {
        self.frames.len() >= self.max_size
    }
}

/// Every frame that is left is due, and every due frame is left.
pub proof fn lemma_due_exactly<T>(frames: Seq<(i64, Arc<T>)>, timestamp: i64, frame: (i64, Arc<T>))
    ensures
        due(frames, timestamp).contains(frame) <==> frames.contains(frame) && frame.0 >= timestamp,
    decreases frames.len(),
{
    reveal(Seq::filter);
    if frames.len() > 0 {
        let shorter = frames.drop_last();
        lemma_due_exactly(shorter, timestamp, frame);
        assert(frames =~= shorter.push(frames.last()));
        lemma_contains_push(shorter, frames.last(), frame);
        lemma_contains_push(due(shorter, timestamp), frames.last(), frame);
    }
}

/// What a sequence with one more frame contains.
proof fn lemma_contains_push<T>(
    frames: Seq<(i64, Arc<T>)>,
    last: (i64, Arc<T>),
    frame: (i64, Arc<T>),
)
    ensures
        frames.push(last).contains(frame) <==> frames.contains(frame) || frame == last,
{
    let longer = frames.push(last);
    if longer.contains(frame) {
        let i = choose|i: int| 0 <= i < longer.len() && longer[i] == frame;
        if i < frames.len() {
            assert(frames[i] == frame);
        }
    }
    if frames.contains(frame) {
        let i = choose|i: int| 0 <= i < frames.len() && frames[i] == frame;
        assert(longer[i] == frame);
    }
    assert(longer[frames.len() as int] == last);
}

/// Asking at two times leaves what asking at the later one leaves. So asking
/// twice at one time changes nothing, and going back in time brings nothing
/// back.
pub proof fn lemma_due_twice<T>(frames: Seq<(i64, Arc<T>)>, first: i64, second: i64)
    ensures
        due(due(frames, first), second) == due(
            frames,
            if first <= second {
                second
            } else {
                first
            },
        ),
    decreases frames.len(),
{
    reveal(Seq::filter);
    if frames.len() > 0 {
        let shorter = frames.drop_last();
        lemma_due_twice(shorter, first, second);
        if frames.last().0 >= first {
            assert(due(frames, first).drop_last() =~= due(shorter, first));
        }
    }
}

/// Whether every frame is due no later than those behind it.
pub open spec fn in_time_order<T>(frames: Seq<(i64, Arc<T>)>) -> bool {
    forall|i: int, j: int| 0 <= i <= j < frames.len() ==> frames[i].0 <= frames[j].0
}

/// From frames in the order of time a front part is dropped, so that the frame
/// that is given is the earliest one that is due.
pub proof fn lemma_due_in_order<T>(frames: Seq<(i64, Arc<T>)>, timestamp: i64) -> (dropped: int)
    requires
        in_time_order(frames),
    ensures
        0 <= dropped <= frames.len(),
        due(frames, timestamp) == frames.skip(dropped),
        forall|i: int| 0 <= i < dropped ==> frames[i].0 < timestamp,
        forall|i: int| dropped <= i < frames.len() ==> frames[i].0 >= timestamp,
    decreases frames.len(),
{
    reveal(Seq::filter);
    if frames.len() == 0 {
        assert(due(frames, timestamp) =~= frames.skip(0));
        0
    } else {
        let shorter = frames.drop_last();
        let n = shorter.len() as int;
        let dropped = lemma_due_in_order(shorter, timestamp);
        assert forall|i: int| 0 <= i < dropped implies frames[i].0 < timestamp by {
            assert(shorter[i] == frames[i]);
        }
        assert forall|i: int| dropped <= i < n implies frames[i].0 >= timestamp by {
            assert(shorter[i] == frames[i]);
        }
        if frames.last().0 >= timestamp {
            assert(frames.skip(dropped) =~= shorter.skip(dropped).push(frames.last()));
            dropped
        } else {
            assert forall|i: int| 0 <= i < n implies frames[i].0 < timestamp by {
                assert(frames[i].0 <= frames[n].0);
            }
            if dropped < n {
                assert(frames[dropped].0 >= timestamp);
            }
            assert(frames.skip(n + 1) =~= shorter.skip(n));
            n + 1
        }
    }
}

/// The frame that is given is the front one of those that are left: the first in
/// the cache that is due at the time `timestamp` or later. None is given exactly
/// where no frame in the cache is.
pub proof fn lemma_shown_frame<T>(frames: Seq<(i64, Arc<T>)>, timestamp: i64, at: int)
    requires
        0 <= at < frames.len(),
        frames[at].0 >= timestamp,
        forall|i: int| 0 <= i < at ==> (#[trigger] frames[i]).0 < timestamp,
    ensures
        first_frame(due(frames, timestamp)) == Some(frames[at].1),
        due(frames, timestamp).len() > 0,
        due(frames, timestamp)[0] == frames[at],
    decreases frames.len(),
{
    reveal(Seq::filter);
    let shorter = frames.drop_last();
    if at < shorter.len() {
        assert(shorter[at] == frames[at]);
        assert forall|i: int| 0 <= i < at implies (#[trigger] shorter[i]).0 < timestamp by {
            assert(shorter[i] == frames[i]);
        }
        lemma_shown_frame(shorter, timestamp, at);
    } else {
        lemma_none_shown(shorter, timestamp);
        assert(due(frames, timestamp) =~= seq![frames.last()]);
    }
}

/// No frame is given where the time of all is over.
pub proof fn lemma_none_shown<T>(frames: Seq<(i64, Arc<T>)>, timestamp: i64)
    requires
        forall|i: int| 0 <= i < frames.len() ==> (#[trigger] frames[i]).0 < timestamp,
    ensures
        first_frame(due(frames, timestamp)) is None,
        due(frames, timestamp) == Seq::<(i64, Arc<T>)>::empty(),
    decreases frames.len(),
{
    reveal(Seq::filter);
    if frames.len() > 0 {
        let shorter = frames.drop_last();
        assert(frames[frames.len() - 1].0 < timestamp);
        assert forall|i: int| 0 <= i < shorter.len() implies (#[trigger] shorter[i]).0
            < timestamp by {
            assert(shorter[i] == frames[i]);
        }
        lemma_none_shown(shorter, timestamp);
    }
    assert(due(frames, timestamp) =~= Seq::empty());
}

/// Of frames in the order of time, the one that is given is due, and it is the
/// earliest that is: none in the cache that is due comes before it.
pub proof fn lemma_shown_is_earliest<T>(
    frames: Seq<(i64, Arc<T>)>,
    timestamp: i64,
    other: int,
) -> (at: int)
    requires
        in_time_order(frames),
        0 <= other < frames.len(),
        frames[other].0 >= timestamp,
    ensures
        0 <= at <= other,
        first_frame(due(frames, timestamp)) == Some(frames[at].1),
        timestamp <= frames[at].0 <= frames[other].0,
{
    let at = lemma_due_in_order(frames, timestamp);
    if other < at {
        assert(frames[other].0 < timestamp);
    }
    assert(frames[at].0 >= timestamp);
    lemma_shown_frame(frames, timestamp, at);
    at
}

/// One more frame behind the others is left exactly where it is due, behind
/// those of the others that are, and changes nothing else.
pub proof fn lemma_due_of_one_more<T>(
    frames: Seq<(i64, Arc<T>)>,
    frame: (i64, Arc<T>),
    timestamp: i64,
)
    ensures
        frame.0 >= timestamp ==> due(frames.push(frame), timestamp) == due(frames, timestamp).push(
            frame,
        ),
        frame.0 < timestamp ==> due(frames.push(frame), timestamp) == due(frames, timestamp),
        due(Seq::<(i64, Arc<T>)>::empty(), timestamp) == Seq::<(i64, Arc<T>)>::empty(),
{
    reveal(Seq::filter);
    assert(frames.push(frame).drop_last() =~= frames);
    lemma_none_shown(Seq::<(i64, Arc<T>)>::empty(), timestamp);
}

} // verus!
