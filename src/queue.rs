//! The hand-off between a stream's producer and its single consumer: an
//! unbounded, closable first-in first-out queue, and the rule by which a
//! framed line reaches it.
use vstd::prelude::*;

use std::collections::VecDeque;

use crate::frame::FrameOutcome;

verus! {

/// The result of one pull.
#[derive(Clone, Debug)]
pub enum Pull<T> {
    /// The oldest undelivered event.
    Item(T),
    /// Nothing yet; the producer may still send.
    Empty,
    /// Nothing left, and nothing more will come.
    Closed,
}

pub struct EventQueue<T> {
    items: VecDeque<T>,
    closed: bool,
}

impl<T> EventQueue<T> {
    /// The events pushed and not yet pulled, oldest first.
    pub closed spec fn items_spec(&self) -> Seq<T> {
        self.items@
    }

    pub closed spec fn closed_spec(&self) -> bool {
        self.closed
    }

    pub fn new() -> (r: Self)
        ensures
            r.items_spec() == Seq::<T>::empty(),
            !r.closed_spec(),
    {
        EventQueue { items: VecDeque::new(), closed: false }
    }

    pub fn len(&self) -> (r: usize)
        ensures
            r == self.items_spec().len(),
    {
        self.items.len()
    }

    pub fn is_closed(&self) -> (r: bool)
        ensures
            r == self.closed_spec(),
    {
        self.closed
    }

    /// Appends an event behind all others. A closed queue takes nothing
    /// more and returns `false`.
    pub fn push(&mut self, event: T) -> (r: bool)
        ensures
            r == !old(self).closed_spec(),
            final(self).closed_spec() == old(self).closed_spec(),
            r ==> final(self).items_spec() == old(self).items_spec().push(event),
            !r ==> final(self).items_spec() == old(self).items_spec(),
    {
        if self.closed {
            false
        } else {
            self.items.push_back(event);
            true
        }
    }

    /// Marks the end of the stream. Events already queued stay pullable.
    pub fn close(&mut self)
        ensures
            final(self).closed_spec(),
            final(self).items_spec() == old(self).items_spec(),
    {
        self.closed = true;
    }

    /// Takes the oldest event. An empty queue answers `Empty` while open
    /// and `Closed` once closed, so a consumer never waits on a finished
    /// stream.
    pub fn pull(&mut self) -> (r: Pull<T>)
        ensures
            final(self).closed_spec() == old(self).closed_spec(),
            old(self).items_spec().len() > 0 ==> {
                &&& r == Pull::Item(old(self).items_spec()[0])
                &&& final(self).items_spec() == old(self).items_spec().drop_first()
            },
            old(self).items_spec().len() == 0 ==> {
                &&& final(self).items_spec() == old(self).items_spec()
                &&& r == (if old(self).closed_spec() {
                    Pull::<T>::Closed
                } else {
                    Pull::<T>::Empty
                })
            },
    {
        match self.items.pop_front() {
            Some(e) => {
                proof {
                    assert(old(self).items_spec().drop_first() =~= self.items@);
                }
                Pull::Item(e)
            },
            None => if self.closed {
                Pull::Closed
            } else {
                Pull::Empty
            },
        }
    }
}

/// Hands one framed line to the queue: a keep-alive changes nothing, a
/// record is queued behind the earlier ones, and a malformed line closes
/// the queue. Returns whether the producer goes on reading.
pub fn deliver<T>(queue: &mut EventQueue<T>, outcome: FrameOutcome<T>) -> (go_on: bool)
    ensures
        match outcome {
            FrameOutcome::KeepAlive => go_on == !old(queue).closed_spec() && *final(queue)
                == *old(queue),
            FrameOutcome::Event(e) => {
                &&& go_on == !old(queue).closed_spec()
                &&& final(queue).closed_spec() == old(queue).closed_spec()
                &&& final(queue).items_spec() == if go_on {
                    old(queue).items_spec().push(e)
                } else {
                    old(queue).items_spec()
                }
            },
            FrameOutcome::Malformed => {
                &&& !go_on
                &&& final(queue).closed_spec()
                &&& final(queue).items_spec() == old(queue).items_spec()
            },
        },
{
    match outcome {
        FrameOutcome::KeepAlive => !queue.is_closed(),
        FrameOutcome::Event(e) => queue.push(e),
        FrameOutcome::Malformed => {
            queue.close();
            false
        },
    }
}

/// The records among `outs`, in order.
pub open spec fn delivered<T>(outs: Seq<FrameOutcome<T>>) -> Seq<T>
    decreases outs.len(),
{
    if outs.len() == 0 {
        Seq::empty()
    } else {
        let d = delivered(outs.drop_last());
        match outs.last() {
            FrameOutcome::Event(e) => d.push(e),
            _ => d,
        }
    }
}

/// Delivery keeps arrival order across chunks: the records of the lines of
/// successive chunks are those of the first chunk followed by those of the
/// second. With `pump`'s contract, pumping chunk after chunk queues every
/// record of the stream once, in the order its lines arrived.
pub proof fn lemma_delivered_append<T>(a: Seq<FrameOutcome<T>>, b: Seq<FrameOutcome<T>>)
    ensures
        delivered(a + b) == delivered(a) + delivered(b),
    decreases b.len(),
{
    if b.len() == 0 {
        assert(a + b =~= a);
        assert(delivered(a) + delivered(b) =~= delivered(a));
    } else {
        assert((a + b).drop_last() =~= a + b.drop_last());
        assert((a + b).last() == b.last());
        lemma_delivered_append(a, b.drop_last());
        assert(delivered(a + b) =~= delivered(a) + delivered(b));
    }
}

impl<T> EventQueue<T> {
    /// Pulls until the queue answers anything but an event, and returns the
    /// events in order with that last answer. Once the stream has ended, a
    /// consumer gets every queued event, oldest first, and then `Closed`; it
    /// never waits.
    pub fn drain(&mut self) -> (r: (Vec<T>, Pull<T>))
        ensures
            r.0@ == old(self).items_spec(),
            final(self).items_spec() == Seq::<T>::empty(),
            final(self).closed_spec() == old(self).closed_spec(),
            r.1 == (if old(self).closed_spec() {
                Pull::<T>::Closed
            } else {
                Pull::<T>::Empty
            }),
    {
        let mut out: Vec<T> = Vec::new();
        loop
            invariant
                out@ + self.items_spec() == old(self).items_spec(),
                self.closed_spec() == old(self).closed_spec(),
            decreases self.items_spec().len(),
        {
            let ghost before = self.items_spec();
            match self.pull() {
                Pull::Item(e) => {
                    proof {
                        assert(out@.push(e) + self.items_spec() =~= out@ + before);
                    }
                    out.push(e);
                },
                other => {
                    proof {
                        assert(out@ =~= old(self).items_spec());
                    }
                    return (out, other);
                },
            }
        }
    }
}

/// `m` is the position of the first malformed line of `outs`.
pub open spec fn first_malformed<T>(outs: Seq<FrameOutcome<T>>, m: int) -> bool {
    &&& 0 <= m < outs.len()
    &&& outs[m] is Malformed
    &&& forall|j: int| 0 <= j < m ==> !(outs[j] is Malformed)
}

/// Hands the outcomes of a chunk's lines to an open queue, in order. The
/// records before the first malformed line are queued behind the earlier
/// ones, in the order of their lines; a malformed line closes the queue
/// and nothing after it is queued. Returns whether the producer goes on.
pub fn pump<T>(queue: &mut EventQueue<T>, outcomes: Vec<FrameOutcome<T>>) -> (go_on: bool)
    requires
        !old(queue).closed_spec(),
    ensures
        go_on == !final(queue).closed_spec(),
        (forall|j: int| 0 <= j < outcomes@.len() ==> !(outcomes@[j] is Malformed)) ==> {
            &&& go_on
            &&& final(queue).items_spec() == old(queue).items_spec() + delivered(outcomes@)
        },
        forall|m: int| #[trigger]
            first_malformed(outcomes@, m) ==> {
                &&& !go_on
                &&& final(queue).items_spec() == old(queue).items_spec() + delivered(
                    outcomes@.subrange(0, m),
                )
            },
{
    let mut rest = outcomes;
    let ghost all = rest@;
    let n = rest.len();
    let mut i: usize = 0;
    proof {
        assert(all == outcomes@);
        assert(all.subrange(0, 0) =~= Seq::<FrameOutcome<T>>::empty());
        assert(queue.items_spec() =~= old(queue).items_spec() + delivered(all.subrange(0, 0)));
    }
    while rest.len() > 0
        invariant
            i + rest@.len() == all.len(),
            rest@ == all.subrange(i as int, all.len() as int),
            !queue.closed_spec(),
            all == outcomes@,
            all.len() == n,
            forall|j: int| 0 <= j < i ==> !(all[j] is Malformed),
            queue.items_spec() == old(queue).items_spec() + delivered(all.subrange(0, i as int)),
        decreases rest@.len(),
    {
        let o = rest.remove(0);
        proof {
            assert(o == all[i as int]);
            assert(rest@ =~= all.subrange(i + 1, all.len() as int));
            assert(all.subrange(0, i + 1).drop_last() =~= all.subrange(0, i as int));
            assert(all.subrange(0, i + 1).last() == o);
        }
        let go_on = deliver(queue, o);
        if !go_on {
            proof {
                assert(o is Malformed);
                assert(first_malformed(all, i as int));
                assert forall|m: int| #[trigger] first_malformed(all, m) implies m == i by {
                    if m < i {
                        assert(!(all[m] is Malformed));
                    }
                    if m > i {
                        assert(!(all[i as int] is Malformed));
                    }
                }
            }
            return false;
        }
        proof {
            assert(queue.items_spec() =~= old(queue).items_spec() + delivered(
                all.subrange(0, i + 1),
            ));
        }
        i += 1;
    }
    proof {
        assert(all.subrange(0, i as int) =~= all);
        assert forall|m: int| #[trigger] first_malformed(all, m) implies false by {
            assert(!(all[m] is Malformed));
        }
    }
    true
}

} // verus!
