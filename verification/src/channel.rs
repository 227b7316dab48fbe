//! The request channel: a bounded first-in first-out queue of move
//! requests between the transport task (producer) and the dispatch loop
//! (the single consumer).  A full queue refuses a request and hands it
//! back unchanged — backpressure, never a silent drop.

use vstd::prelude::*;

use std::collections::VecDeque;

use crate::command::ServoMoveRequest;

verus! {

/// How many requests the channel holds at most.
pub const CHANNEL_CAPACITY: usize = 64;

/// A bounded queue of move requests, oldest first.
pub struct RequestChannel {
    queue: VecDeque<ServoMoveRequest>,
}

impl View for RequestChannel {
    type V = Seq<ServoMoveRequest>;

    closed spec fn view(&self) -> Seq<ServoMoveRequest> {
        self.queue@
    }
}

impl RequestChannel {
    /// The channel never holds more than its capacity.
    pub open spec fn wf(&self) -> bool {
        self@.len() <= CHANNEL_CAPACITY
    }

    /// A new, empty channel.
    pub fn new() -> (c: Self)
        ensures
            c@ == Seq::<ServoMoveRequest>::empty(),
            c.wf(),
    {
        RequestChannel { queue: VecDeque::new() }
    }

    /// How many requests are queued.
    pub fn len(&self) -> (n: usize)
        ensures
            n == self@.len(),
    {
        self.queue.len()
    }

    /// Whether the channel holds nothing.
    pub fn is_empty(&self) -> (r: bool)
        ensures
            r == (self@.len() == 0),
    {
        self.queue.len() == 0
    }

    /// Whether the channel is at capacity.
    pub fn is_full(&self) -> (r: bool)
        ensures
            r == (self@.len() >= CHANNEL_CAPACITY),
    {
        self.queue.len() >= CHANNEL_CAPACITY
    }

    /// Enqueues a request at the back, unless the channel is full; a full
    /// channel is left unchanged and the request comes back to the caller,
    /// who must retry once a consumer has made room.
    pub fn try_send(&mut self, request: ServoMoveRequest) -> (r: Result<(), ServoMoveRequest>)
        requires
            old(self).wf(),
        ensures
            final(self).wf(),
            old(self)@.len() < CHANNEL_CAPACITY ==> r == Ok::<(), ServoMoveRequest>(())
                && final(self)@ == old(self)@.push(request),
            old(self)@.len() >= CHANNEL_CAPACITY ==> r == Err::<(), ServoMoveRequest>(request)
                && final(self)@ == old(self)@,
    {
        if self.queue.len() < CHANNEL_CAPACITY {
            self.queue.push_back(request);
            Ok(())
        } else {
            Err(request)
        }
    }

    /// Dequeues the oldest request, or nothing when the channel is empty.
    pub fn try_receive(&mut self) -> (r: Option<ServoMoveRequest>)
        requires
            old(self).wf(),
        ensures
            final(self).wf(),
            old(self)@.len() == 0 ==> r is None && final(self)@ == old(self)@,
            old(self)@.len() > 0 ==> r == Some(old(self)@[0])
                && final(self)@ == old(self)@.skip(1),
    {
        let r = self.queue.pop_front();
        proof {
            if old(self)@.len() > 0 {
                assert(self@ =~= old(self)@.skip(1));
            }
        }
        r
    }
}

/// First-in first-out: enqueuing `a` then `b` into an empty channel and
/// dequeuing twice yields `a` then `b`, never `b` then `a`.  The contents
/// follow the model of `try_send` (push at the back) and `try_receive`
/// (take from the front).
pub proof fn lemma_channel_fifo(a: ServoMoveRequest, b: ServoMoveRequest)
    ensures
        Seq::<ServoMoveRequest>::empty().push(a).push(b)[0] == a,
        Seq::<ServoMoveRequest>::empty().push(a).push(b).skip(1)[0] == b,
        Seq::<ServoMoveRequest>::empty().push(a).push(b).skip(1).skip(1)
            =~= Seq::<ServoMoveRequest>::empty(),
{
}

/// More generally, the order of arrival is the order of departure: in any
/// channel contents, a request enqueued earlier stands closer to the front
/// than one enqueued after it, and successive receives walk the contents
/// from the front.
pub proof fn lemma_fifo_order(s: Seq<ServoMoveRequest>, a: ServoMoveRequest, b: ServoMoveRequest)
    ensures
        s.push(a).push(b)[s.len() as int] == a,
        s.push(a).push(b)[s.len() as int + 1] == b,
        forall|i: int| 0 <= i < s.len() ==> s.push(a).push(b)[i] == s[i],
{
}

/// Backpressure loses nothing: a refused request comes back to its
/// producer while the contents stand unchanged (that is `try_send`'s
/// contract on a full channel), and after a single receive there is room,
/// so the retried request is accepted behind everything already queued.
pub proof fn lemma_backpressure(s: Seq<ServoMoveRequest>, r: ServoMoveRequest)
    requires
        s.len() == CHANNEL_CAPACITY,
    ensures
        s.skip(1).len() < CHANNEL_CAPACITY,
        s.skip(1).push(r).len() <= CHANNEL_CAPACITY,
        s.skip(1).push(r).last() == r,
        forall|i: int| 0 <= i < s.len() - 1 ==> s.skip(1).push(r)[i] == s[i + 1],
{
}

} // verus!
