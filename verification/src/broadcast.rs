//! Lossy single-producer fan-out: one publisher, many independent
//! subscribers, each with a bounded buffer.
//!
//! `publish` never blocks and never grows a buffer past its capacity: a
//! subscriber that falls behind loses its oldest unread items, never the
//! newest ("slow consumer loses data", not producer backpressure). A new
//! subscriber starts at "now": nothing published earlier is replayed.
//! What an unread buffer holds after a burst of publishes is pinned by
//! [`crate::arith::lemma_bounded_push_all_keeps_latest`] and
//! [`crate::arith::lemma_fresh_queue_keeps_latest`].

use vstd::prelude::*;

use crate::arith::bounded_push;
use crate::{PratyabhijnaError, RVMetric};

verus! {

/// First index of the subscriber with the given id, or `-1` if none has it.
pub open spec fn find_queue(s: Seq<(u64, Vec<RVMetric>)>, id: u64) -> int
    decreases s.len(),
{
    if s.len() == 0 {
        -1
    } else if s[0].0 == id {
        0
    } else {
        let rest = find_queue(s.drop_first(), id);
        if rest == -1 {
            -1
        } else {
            rest + 1
        }
    }
}

/// `find_queue` returns the index of the first match.
proof fn lemma_find_queue_at(s: Seq<(u64, Vec<RVMetric>)>, id: u64, i: int)
    requires
        0 <= i < s.len(),
        s[i].0 == id,
        forall|j: int| 0 <= j < i ==> s[j].0 != id,
    ensures
        find_queue(s, id) == i,
    decreases i,
{
    if i > 0 {
        lemma_find_queue_at(s.drop_first(), id, i - 1);
    }
}

/// `find_queue` returns `-1` exactly when no id matches.
proof fn lemma_find_queue_none(s: Seq<(u64, Vec<RVMetric>)>, id: u64)
    requires
        forall|j: int| 0 <= j < s.len() ==> s[j].0 != id,
    ensures
        find_queue(s, id) == -1,
    decreases s.len(),
{
    if s.len() > 0 {
        lemma_find_queue_none(s.drop_first(), id);
    }
}

/// The fan-out distribution primitive: a registry of bounded per-subscriber
/// queues with non-blocking, overflow-dropping publish.
#[derive(Debug)]
pub struct Broadcaster {
    pub queues: Vec<(u64, Vec<RVMetric>)>,
    pub capacity: usize,
    pub next_id: u64,
}

/// What one `publish` of `m` does to a broadcaster: the registry keeps its
/// shape, and every subscriber's buffer absorbs `m` with drop-oldest
/// overflow.
pub open spec fn published(pre: Broadcaster, post: Broadcaster, m: RVMetric) -> bool {
    &&& post.capacity == pre.capacity
    &&& post.next_id == pre.next_id
    &&& post.queues@.len() == pre.queues@.len()
    &&& forall|j: int|
        0 <= j < pre.queues@.len() ==> (#[trigger] post.queues@[j]).0 == pre.queues@[j].0
    &&& forall|j: int|
        0 <= j < pre.queues@.len() ==> (#[trigger] post.queues@[j]).1@ == bounded_push(
            pre.queues@[j].1@,
            m,
            pre.capacity as nat,
        )
}

impl Broadcaster {
    /// Well-formedness: positive capacity, ids unique and below the next
    /// fresh id, and no buffer past its capacity.
    pub open spec fn wf(&self) -> bool {
        &&& self.capacity >= 1
        &&& forall|i: int|
            0 <= i < self.queues@.len() ==> (#[trigger] self.queues@[i]).1@.len() <= self.capacity
        &&& forall|i: int| 0 <= i < self.queues@.len() ==> (#[trigger] self.queues@[i]).0 < self.next_id
        &&& forall|i: int, j: int|
            0 <= i < j < self.queues@.len() ==> self.queues@[i].0 != self.queues@[j].0
    }

    /// A new broadcaster whose subscribers each get a buffer of `capacity`
    /// items. Fails with `ConfigurationError` exactly when the capacity is
    /// zero.
    pub fn new(capacity: usize) -> (r: Result<Broadcaster, PratyabhijnaError>)
        ensures
            match r {
                Ok(b) => {
                    &&& capacity >= 1
                    &&& b.wf()
                    &&& b.capacity == capacity
                    &&& b.queues@.len() == 0
                    &&& b.next_id == 0
                },
                Err(e) => {
                    &&& e == PratyabhijnaError::ConfigurationError
                    &&& capacity == 0
                },
            },
    {
        if capacity == 0 {
            return Err(PratyabhijnaError::ConfigurationError);
        }
        Ok(Broadcaster { queues: Vec::new(), capacity, next_id: 0 })
    }

    /// Attach a new subscriber and return its id. The new buffer starts
    /// empty: nothing published before this call is replayed.
    pub fn subscribe(&mut self) -> (id: u64)
        requires
            old(self).wf(),
            old(self).next_id < u64::MAX,
        ensures
            final(self).wf(),
            id == old(self).next_id,
            final(self).next_id == old(self).next_id + 1,
            final(self).capacity == old(self).capacity,
            final(self).queues@.len() == old(self).queues@.len() + 1,
            forall|j: int|
                0 <= j < old(self).queues@.len() ==> final(self).queues@[j] == old(self).queues@[j],
            final(self).queues@.last().0 == id,
            final(self).queues@.last().1@ =~= Seq::<RVMetric>::empty(),
    {
        let id = self.next_id;
        self.next_id = self.next_id + 1;
        self.queues.push((id, Vec::new()));
        id
    }

    /// Detach the subscriber with the given id, if it exists. Only that
    /// subscriber is affected.
    pub fn unsubscribe(&mut self, id: u64)
        requires
            old(self).wf(),
        ensures
            final(self).wf(),
            final(self).capacity == old(self).capacity,
            final(self).next_id == old(self).next_id,
            ({
                let idx = find_queue(old(self).queues@, id);
                if idx >= 0 {
                    final(self).queues@ == old(self).queues@.remove(idx)
                } else {
                    final(self).queues@ == old(self).queues@
                }
            }),
    {
        let n = self.queues.len();
        let mut i: usize = 0;
        while i < n
            invariant
                i <= n,
                n == self.queues@.len(),
                self == old(self),
                old(self).wf(),
                forall|j: int| 0 <= j < i ==> self.queues@[j].0 != id,
            decreases n - i,
        {
            if self.queues[i].0 == id {
                proof {
                    lemma_find_queue_at(self.queues@, id, i as int);
                    self.queues@.remove_ensures(i as int);
                }
                self.queues.remove(i);
                return ;
            }
            i = i + 1;
        }
        proof {
            lemma_find_queue_none(self.queues@, id);
        }
    }

    /// Publish one observation to every subscriber without blocking: each
    /// buffer gets a copy, and a full buffer drops its oldest item to admit
    /// the newest. Fails with `ChannelClosed` exactly when no subscriber is
    /// attached (the buffers are then trivially unchanged).
    pub fn publish(&mut self, metric: &RVMetric) -> (r: Result<(), PratyabhijnaError>)
        requires
            old(self).wf(),
        ensures
            final(self).wf(),
            published(*old(self), *final(self), *metric),
            r matches Err(e) ==> e == PratyabhijnaError::ChannelClosed,
            (r is Err) == (old(self).queues@.len() == 0),
    {
        let n = self.queues.len();
        if n == 0 {
            return Err(PratyabhijnaError::ChannelClosed);
        }
        let mut i: usize = 0;
        while i < n
            invariant
                i <= n,
                n == self.queues@.len(),
                n == old(self).queues@.len(),
                self.capacity == old(self).capacity,
                self.next_id == old(self).next_id,
                old(self).wf(),
                self.capacity >= 1,
                forall|j: int|
                    i <= j < n ==> #[trigger] self.queues@[j] == old(self).queues@[j],
                forall|j: int|
                    0 <= j < i ==> (#[trigger] self.queues@[j]).0 == old(self).queues@[j].0,
                forall|j: int|
                    0 <= j < i ==> (#[trigger] self.queues@[j]).1@ == bounded_push(
                        old(self).queues@[j].1@,
                        *metric,
                        old(self).capacity as nat,
                    ),
                forall|j: int|
                    0 <= j < n ==> (#[trigger] self.queues@[j]).1@.len() <= self.capacity,
            decreases n - i,
        {
            let copy = metric.duplicate();
            let entry = &mut self.queues[i];
            entry.1.push(copy);
            if entry.1.len() > self.capacity {
                entry.1.remove(0);
                proof {
                    assert(old(self).queues@[i as int].1@.push(*metric).remove(0)
                        =~= old(self).queues@[i as int].1@.push(*metric).drop_first());
                }
            }
            i = i + 1;
        }
        Ok(())
    }

    /// Read the oldest unread observation of the given subscriber, if the
    /// subscriber exists and its buffer is non-empty. Only that buffer is
    /// affected.
    pub fn recv(&mut self, id: u64) -> (r: Option<RVMetric>)
        requires
            old(self).wf(),
        ensures
            final(self).wf(),
            final(self).capacity == old(self).capacity,
            final(self).next_id == old(self).next_id,
            final(self).queues@.len() == old(self).queues@.len(),
            ({
                let idx = find_queue(old(self).queues@, id);
                if idx >= 0 && old(self).queues@[idx].1@.len() > 0 {
                    &&& r == Some(old(self).queues@[idx].1@[0])
                    &&& final(self).queues@[idx].0 == old(self).queues@[idx].0
                    &&& final(self).queues@[idx].1@ == old(self).queues@[idx].1@.drop_first()
                    &&& forall|j: int|
                        0 <= j < old(self).queues@.len() && j != idx ==> final(self).queues@[j]
                            == old(self).queues@[j]
                } else {
                    &&& r is None
                    &&& final(self).queues@ == old(self).queues@
                }
            }),
    {
        let n = self.queues.len();
        let mut i: usize = 0;
        while i < n
            invariant
                i <= n,
                n == self.queues@.len(),
                self == old(self),
                old(self).wf(),
                forall|j: int| 0 <= j < i ==> self.queues@[j].0 != id,
            decreases n - i,
        {
            if self.queues[i].0 == id {
                proof {
                    lemma_find_queue_at(self.queues@, id, i as int);
                }
                let entry = &mut self.queues[i];
                if entry.1.len() == 0 {
                    proof {
                        assert(self.queues@ =~= old(self).queues@);
                    }
                    return None;
                }
                let front = entry.1.remove(0);
                proof {
                    assert(old(self).queues@[i as int].1@.remove(0)
                        =~= old(self).queues@[i as int].1@.drop_first());
                }
                return Some(front);
            }
            i = i + 1;
        }
        proof {
            lemma_find_queue_none(self.queues@, id);
        }
        None
    }

    /// How many subscribers are attached.
    pub fn subscriber_count(&self) -> (r: usize)
        ensures
            r == self.queues@.len(),
    {
        self.queues.len()
    }
}

} // verus!
