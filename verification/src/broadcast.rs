//! Best-effort pub/sub fan-out of state changes.
//!
//! Subscribers listen on a job channel, a batch channel or the global one,
//! each with a bounded buffer.  Delivery is at most once per event per
//! subscriber: when a buffer is full its oldest event is discarded, so
//! publishing never blocks job execution on a slow consumer.

use vstd::prelude::*;

use crate::job::JobStatus;
use crate::job::Progress;

verus! {

/// One state-change notification.
#[derive(Debug)]
pub struct ProgressEvent {
    /// The job or batch the event is about.
    pub subject_id: u128,
    /// Its status when the event was published.
    pub status: JobStatus,
    /// Its progress snapshot, if it had one.
    pub progress: Option<Progress>,
    /// When the event was published, milliseconds.
    pub timestamp: u64,
}

impl Clone for ProgressEvent {
    /// An exact copy.
    fn clone(&self) -> (res: Self)
        ensures
            res == *self,
    {
        let res = ProgressEvent {
            subject_id: self.subject_id,
            status: self.status,
            progress: self.progress.clone(),
            timestamp: self.timestamp,
        };
        proof {
            assert(res.progress == self.progress);
        }
        res
    }
}

/// What a subscriber listens to.
#[derive(Clone, Copy, Debug, PartialEq, Eq, Structural)]
pub enum Channel {
    /// Events about one job.
    Job(u128),
    /// Events about one batch.
    Batch(u128),
    /// Every event.
    Global,
}

/// Whether a subscriber on `listening` receives an event published on
/// `published`.
pub open spec fn channel_matches(listening: Channel, published: Channel) -> bool {
    listening == Channel::Global || listening == published
}

/// One subscriber and its bounded buffer.
#[derive(Debug)]
pub struct Subscriber {
    pub id: u64,
    pub channel: Channel,
    pub capacity: usize,
    pub buffer: Vec<ProgressEvent>,
}

/// The mathematical value of a subscriber.
#[verifier::ext_equal]
pub ghost struct SubscriberView {
    pub id: u64,
    pub channel: Channel,
    pub capacity: nat,
    pub buffer: Seq<ProgressEvent>,
}

impl View for Subscriber {
    type V = SubscriberView;

    open spec fn view(&self) -> SubscriberView {
        SubscriberView {
            id: self.id,
            channel: self.channel,
            capacity: self.capacity as nat,
            buffer: self.buffer@,
        }
    }
}

impl SubscriberView {
    /// The buffer never exceeds its bound.
    pub open spec fn wf(self) -> bool {
        self.buffer.len() <= self.capacity
    }
}

/// What one delivery does to one subscriber: nothing on another channel or
/// with no room at all; otherwise the event is appended, displacing the
/// oldest buffered event when the buffer is full.
pub open spec fn deliver_spec(s: SubscriberView, published: Channel, event: ProgressEvent)
    -> SubscriberView {
    if !channel_matches(s.channel, published) || s.capacity == 0 {
        s
    } else if s.buffer.len() >= s.capacity {
        SubscriberView { buffer: s.buffer.skip(1).push(event), ..s }
    } else {
        SubscriberView { buffer: s.buffer.push(event), ..s }
    }
}

/// One delivery keeps the buffer within its bound.
pub proof fn lemma_deliver_wf(s: SubscriberView, published: Channel, event: ProgressEvent)
    requires
        s.wf(),
    ensures
        deliver_spec(s, published, event).wf(),
{
}

/// Some subscriber in `s` carries this id.
pub open spec fn has_subscriber(s: Seq<SubscriberView>, id: u64) -> bool {
    exists|i: int| 0 <= i < s.len() && s[i].id == id
}

/// The index of the subscriber with this id.
pub open spec fn subscriber_index(s: Seq<SubscriberView>, id: u64) -> int {
    choose|i: int| 0 <= i < s.len() && s[i].id == id
}

/// Every subscriber within its bound.
pub open spec fn all_subscribers_wf(s: Seq<SubscriberView>) -> bool {
    forall|i: int| 0 <= i < s.len() ==> #[trigger] s[i].wf()
}

/// No two subscribers share an id.
pub open spec fn unique_subscriber_ids(s: Seq<SubscriberView>) -> bool {
    forall|i: int, j: int| 0 <= i < j < s.len() ==> s[i].id != s[j].id
}

/// Pub/sub fan-out keyed by job or batch id, with a global channel.
#[derive(Debug)]
pub struct ProgressBroadcaster {
    subscribers: Vec<Subscriber>,
    next_id: u64,
}

impl View for ProgressBroadcaster {
    type V = Seq<SubscriberView>;

    closed spec fn view(&self) -> Seq<SubscriberView> {
        Seq::new(self.subscribers@.len(), |i: int| self.subscribers@[i]@)
    }
}

impl ProgressBroadcaster {
    /// The next id a subscription will take; ids below it are in use.
    pub closed spec fn spec_next_id(&self) -> u64 {
        self.next_id
    }

    /// Broadcaster invariant: ids unique and below the counter, buffers
    /// within bound.
    pub open spec fn wf(self) -> bool {
        &&& unique_subscriber_ids(self@)
        &&& all_subscribers_wf(self@)
        &&& forall|i: int| 0 <= i < self@.len() ==> (#[trigger] self@[i].id)
            < self.spec_next_id()
    }

    /// A broadcaster with no subscribers.
    pub fn new() -> (b: ProgressBroadcaster)
        ensures
            b@ == Seq::<SubscriberView>::empty(),
            b.wf(),
    {
        let b = ProgressBroadcaster { subscribers: Vec::new(), next_id: 0 };
        proof {
            assert(b@ =~= Seq::<SubscriberView>::empty());
        }
        b
    }

    /// Register a subscriber with a bounded buffer and hand back its id;
    /// refused only once the id space is exhausted.
    pub fn subscribe(&mut self, channel: Channel, capacity: usize) -> (r: Option<u64>)
        requires
            old(self).wf(),
        ensures
            final(self).wf(),
            r.is_some() == (old(self).spec_next_id() < u64::MAX),
            r matches Some(id) ==> id == old(self).spec_next_id() && final(self)@ == old(
                self,
            )@.push(SubscriberView {
                id,
                channel,
                capacity: capacity as nat,
                buffer: Seq::empty(),
            }),
            r.is_none() ==> final(self)@ == old(self)@,
    {
        if self.next_id == u64::MAX {
            return None;
        }
        let id = self.next_id;
        self.next_id = self.next_id + 1;
        let ghost before = self@;
        self.subscribers.push(Subscriber { id, channel, capacity, buffer: Vec::new() });
        proof {
            assert(self@ =~= before.push(SubscriberView {
                id,
                channel,
                capacity: capacity as nat,
                buffer: Seq::empty(),
            }));
            assert forall|a: int, b: int| 0 <= a < b < self@.len() implies self@[a].id
                != self@[b].id by {
                if b < before.len() {
                    assert(before[a].id != before[b].id);
                } else {
                    assert(before[a].id < id);
                }
            }
            assert forall|a: int| 0 <= a < self@.len() implies #[trigger] self@[a].wf() by {
                if a < before.len() {
                    assert(before[a].wf());
                }
            }
        }
        Some(id)
    }

    /// Drop a subscriber, as when its consumer disconnects.  Returns
    /// whether it existed.
    pub fn unsubscribe(&mut self, id: u64) -> (b: bool)
        requires
            old(self).wf(),
        ensures
            final(self).wf(),
            b == has_subscriber(old(self)@, id),
            b ==> final(self)@ == old(self)@.remove(subscriber_index(old(self)@, id)),
            !b ==> final(self)@ == old(self)@,
    {
        let mut i: usize = 0;
        while i < self.subscribers.len()
            invariant
                old(self) == self,
                self.wf(),
                0 <= i <= self@.len(),
                forall|k: int| 0 <= k < i ==> self@[k].id != id,
            decreases self@.len() - i,
        {
            if self.subscribers[i].id == id {
                proof {
                    assert(self@[i as int].id == id);
                    assert(has_subscriber(self@, id));
                    let k = subscriber_index(self@, id);
                    if k < i as int {
                        assert(self@[k].id != self@[i as int].id);
                    } else if (i as int) < k {
                        assert(self@[i as int].id != self@[k].id);
                    }
                }
                let ghost before = self@;
                self.subscribers.remove(i);
                proof {
                    assert(self@ =~= before.remove(i as int));
                    assert forall|a: int, b: int| 0 <= a < b < self@.len() implies self@[a].id
                        != self@[b].id by {
                        let a0 = if a < i as int {
                            a
                        } else {
                            a + 1
                        };
                        let b0 = if b < i as int {
                            b
                        } else {
                            b + 1
                        };
                        assert(before[a0].id != before[b0].id);
                    }
                    assert forall|a: int| 0 <= a < self@.len() implies #[trigger] self@[a].wf()
                        by {
                        let a0 = if a < i as int {
                            a
                        } else {
                            a + 1
                        };
                        assert(before[a0].wf());
                    }
                    assert forall|a: int| 0 <= a < self@.len() implies (#[trigger] self@[a].id)
                        < self.spec_next_id() by {
                        let a0 = if a < i as int {
                            a
                        } else {
                            a + 1
                        };
                        assert(before[a0].id < self.spec_next_id());
                    }
                }
                return true;
            }
            i += 1;
        }
        false
    }

    /// Deliver one event to every subscriber of the published channel,
    /// at most once each, discarding the oldest buffered event of any full
    /// buffer.  No subscriber and no publisher ever waits.
    pub fn publish(&mut self, published: Channel, event: &ProgressEvent)
        requires
            old(self).wf(),
        ensures
            final(self).wf(),
            final(self)@.len() == old(self)@.len(),
            forall|i: int| 0 <= i < old(self)@.len() ==> #[trigger] final(self)@[i]
                == deliver_spec(old(self)@[i], published, *event),
    {
        let ghost orig = self@;
        let mut i: usize = 0;
        while i < self.subscribers.len()
            invariant
                self@.len() == orig.len(),
                unique_subscriber_ids(orig),
                all_subscribers_wf(orig),
                forall|k: int| 0 <= k < orig.len() ==> (#[trigger] orig[k].id)
                    < self.spec_next_id(),
                0 <= i <= orig.len(),
                forall|k: int| 0 <= k < i ==> #[trigger] self@[k] == deliver_spec(orig[k],
                    published, *event),
                forall|k: int| i <= k < orig.len() ==> #[trigger] self@[k] == orig[k],
            decreases orig.len() - i,
        {
            let matches_channel = match (self.subscribers[i].channel, published) {
                (Channel::Global, _) => true,
                (Channel::Job(a), Channel::Job(b)) => a == b,
                (Channel::Batch(a), Channel::Batch(b)) => a == b,
                _ => false,
            };
            proof {
                assert(self@[i as int] == self.subscribers@[i as int]@);
                assert(self@[i as int] == orig[i as int]);
                assert(self.subscribers@[i as int]@.channel == orig[i as int].channel);
                assert(matches_channel == channel_matches(orig[i as int].channel, published));
            }
            if matches_channel && self.subscribers[i].capacity > 0 {
                let mut sub = self.subscribers[i].clone_subscriber();
                if sub.buffer.len() >= sub.capacity {
                    sub.buffer.remove(0);
                }
                sub.buffer.push(event.clone());
                let ghost before = self@;
                let ghost sv = sub@;
                self.subscribers.set(i, sub);
                proof {
                    assert(before[i as int] == orig[i as int]);
                    assert(sv.buffer =~= deliver_spec(orig[i as int], published, *event).buffer);
                    assert(sv =~= deliver_spec(orig[i as int], published, *event));
                    assert(self@ =~= before.update(i as int, sv));
                }
            } else {
                proof {
                    assert(self@[i as int] == deliver_spec(orig[i as int], published, *event));
                }
            }
            i += 1;
        }
        proof {
            assert forall|a: int, b: int| 0 <= a < b < self@.len() implies self@[a].id
                != self@[b].id by {
                assert(orig[a].id != orig[b].id);
            }
            assert forall|a: int| 0 <= a < self@.len() implies #[trigger] self@[a].wf() by {
                assert(orig[a].wf());
                lemma_deliver_wf(orig[a], published, *event);
            }
            assert forall|a: int| 0 <= a < self@.len() implies (#[trigger] self@[a].id)
                < self.spec_next_id() by {
                assert(orig[a].id < self.spec_next_id());
            }
        }
    }

    /// Hand a subscriber its buffered events and clear its buffer.
    pub fn drain(&mut self, id: u64) -> (r: Option<Vec<ProgressEvent>>)
        requires
            old(self).wf(),
        ensures
            final(self).wf(),
            r.is_some() == has_subscriber(old(self)@, id),
            r.is_none() ==> final(self)@ == old(self)@,
            r matches Some(events) ==> {
                let k = subscriber_index(old(self)@, id);
                &&& events@ == old(self)@[k].buffer
                &&& final(self)@ == old(self)@.update(k, (SubscriberView {
                    buffer: Seq::empty(),
                    ..old(self)@[k]
                }))
            },
    {
        let mut i: usize = 0;
        while i < self.subscribers.len()
            invariant
                old(self) == self,
                self.wf(),
                0 <= i <= self@.len(),
                forall|k: int| 0 <= k < i ==> self@[k].id != id,
            decreases self@.len() - i,
        {
            if self.subscribers[i].id == id {
                proof {
                    assert(self@[i as int].id == id);
                    assert(has_subscriber(self@, id));
                    let k = subscriber_index(self@, id);
                    if k < i as int {
                        assert(self@[k].id != self@[i as int].id);
                    } else if (i as int) < k {
                        assert(self@[i as int].id != self@[k].id);
                    }
                }
                let ghost before = self@;
                let mut sub = self.subscribers[i].clone_subscriber();
                let events = sub.buffer;
                sub.buffer = Vec::new();
                let ghost sv = sub@;
                self.subscribers.set(i, sub);
                proof {
                    assert(self@ =~= before.update(i as int, sv));
                    assert(sv =~= (SubscriberView { buffer: Seq::empty(), ..before[i as int] }));
                    assert forall|a: int, b: int| 0 <= a < b < self@.len() implies self@[a].id
                        != self@[b].id by {
                        assert(before[a].id != before[b].id);
                    }
                    assert forall|a: int| 0 <= a < self@.len() implies #[trigger] self@[a].wf()
                        by {
                        assert(before[a].wf());
                    }
                    assert forall|a: int| 0 <= a < self@.len() implies (#[trigger] self@[a].id)
                        < self.spec_next_id() by {
                        assert(before[a].id < self.spec_next_id());
                    }
                }
                return Some(events);
            }
            i += 1;
        }
        None
    }
}

impl Subscriber {
    /// An exact copy of a subscriber record.
    fn clone_subscriber(&self) -> (res: Subscriber)
        ensures
            res@ == self@,
    {
        let mut buffer: Vec<ProgressEvent> = Vec::new();
        let mut i: usize = 0;
        while i < self.buffer.len()
            invariant
                0 <= i <= self.buffer.len(),
                buffer@ =~= self.buffer@.take(i as int),
            decreases self.buffer.len() - i,
        {
            buffer.push(self.buffer[i].clone());
            i += 1;
        }
        proof {
            assert(buffer@ =~= self.buffer@);
        }
        let res = Subscriber { id: self.id, channel: self.channel, capacity: self.capacity, buffer };
        proof {
            assert(res@ =~= self@);
        }
        res
    }
}

} // verus!
