//! The hand-off queue: an unbounded first-in-first-out channel of batches
//! between the generator workers and the writer workers.
//!
//! The queue itself is single-threaded. Workers share it behind one lock
//! and hold the lock for one operation at a time, so a batch is taken off
//! the queue by exactly one of them.

use crate::data_generator::views;
use crate::model::person::{Person, PersonView};
use std::collections::VecDeque;
use vstd::prelude::*;

verus! {

/// The mathematical value of a queue.
pub struct QueueView {
    /// The batches that wait, oldest first.
    pub batches: Seq<Seq<PersonView>>,
    /// The number of producer handles that are still held.
    pub producers: nat,
    /// The number of consumer handles that are still held.
    pub consumers: nat,
    /// Every batch that the queue has ever accepted, in order.
    pub accepted: Seq<Seq<PersonView>>,
    /// Every batch that the queue has ever handed out, in order.
    pub delivered: Seq<Seq<PersonView>>,
}

/// What a receive found.
pub enum Received {
    /// The oldest waiting batch, now off the queue.
    Batch(Vec<Person>),
    /// Nothing waits, but a producer may still send: try again later.
    Empty,
    /// Nothing waits and nothing will come: the end of the stream.
    Closed,
}

/// What a receive found, as a mathematical value.
pub enum ReceivedView {
    Batch(Seq<PersonView>),
    Empty,
    Closed,
}

impl View for Received {
    type V = ReceivedView;

    open spec fn view(&self) -> ReceivedView {
        match self {
            Received::Batch(b) => ReceivedView::Batch(views(b@)),
            Received::Empty => ReceivedView::Empty,
            Received::Closed => ReceivedView::Closed,
        }
    }
}

impl QueueView {
    /// What has been accepted is what has been handed out followed by what
    /// still waits: nothing is lost, duplicated or reordered.
    pub open spec fn wf(self) -> bool {
        self.accepted == self.delivered + self.batches
    }

    /// A new queue: empty, with one producer handle and one consumer handle.
    pub open spec fn init() -> QueueView {
        QueueView {
            batches: Seq::empty(),
            producers: 1,
            consumers: 1,
            accepted: Seq::empty(),
            delivered: Seq::empty(),
        }
    }

    /// Whether the queue is closed: every producer handle has been given
    /// up. A closed queue stays closed.
    pub open spec fn closed(self) -> bool {
        self.producers == 0
    }

    /// Whether a send is accepted: the queue is not closed, and some
    /// consumer is left to receive what is sent.
    pub open spec fn accepts(self) -> bool {
        self.producers > 0 && self.consumers > 0
    }

    /// The queue after `batch` was offered to it.
    pub open spec fn send(self, batch: Seq<PersonView>) -> QueueView {
        if self.accepts() {
            QueueView {
                batches: self.batches.push(batch),
                accepted: self.accepted.push(batch),
                ..self
            }
        } else {
            self
        }
    }

    /// What a receive finds.
    pub open spec fn front(self) -> ReceivedView {
        if self.batches.len() > 0 {
            ReceivedView::Batch(self.batches[0])
        } else if self.closed() {
            ReceivedView::Closed
        } else {
            ReceivedView::Empty
        }
    }

    /// The queue after a receive.
    pub open spec fn recv(self) -> QueueView {
        if self.batches.len() > 0 {
            QueueView {
                batches: self.batches.drop_first(),
                delivered: self.delivered.push(self.batches[0]),
                ..self
            }
        } else {
            self
        }
    }

    /// The queue after a producer handle was cloned. There is none to
    /// clone once the queue is closed.
    pub open spec fn clone_producer(self) -> QueueView {
        if self.closed() {
            self
        } else {
            QueueView { producers: self.producers + 1, ..self }
        }
    }

    /// The queue after one producer handle was given up.
    pub open spec fn drop_producer(self) -> QueueView {
        QueueView {
            producers: if self.producers > 0 {
                (self.producers - 1) as nat
            } else {
                0
            },
            ..self
        }
    }

    /// The queue after one more consumer handle was made.
    pub open spec fn clone_consumer(self) -> QueueView {
        QueueView { consumers: self.consumers + 1, ..self }
    }

    /// The queue after one consumer handle was given up.
    pub open spec fn drop_consumer(self) -> QueueView {
        QueueView {
            consumers: if self.consumers > 0 {
                (self.consumers - 1) as nat
            } else {
                0
            },
            ..self
        }
    }
}

/// The values of the batches of a queue, in order.
pub open spec fn batch_views(batches: Seq<Vec<Person>>) -> Seq<Seq<PersonView>> {
    batches.map_values(|b: Vec<Person>| views(b@))
}

/// The hand-off queue.
pub struct HandoffQueue {
    batches: VecDeque<Vec<Person>>,
    producers: usize,
    consumers: usize,
    accepted: Ghost<Seq<Seq<PersonView>>>,
    delivered: Ghost<Seq<Seq<PersonView>>>,
}

impl View for HandoffQueue {
    type V = QueueView;

    closed spec fn view(&self) -> QueueView {
        QueueView {
            batches: batch_views(self.batches@),
            producers: self.producers as nat,
            consumers: self.consumers as nat,
            accepted: self.accepted@,
            delivered: self.delivered@,
        }
    }
}

impl HandoffQueue {
    /// The queue's invariant: that of its value.
    pub open spec fn wf(&self) -> bool {
        self@.wf()
    }

    /// An empty queue with one producer handle and one consumer handle,
    /// those of its maker.
    pub fn new() -> (queue: HandoffQueue)
        ensures
            queue.wf(),
            queue@ == QueueView::init(),
    {
        let queue = HandoffQueue {
            batches: VecDeque::new(),
            producers: 1,
            consumers: 1,
            accepted: Ghost(Seq::empty()),
            delivered: Ghost(Seq::empty()),
        };
        assert(batch_views(queue.batches@) == Seq::<Seq<PersonView>>::empty());
        assert(queue@.delivered + queue@.batches == Seq::<Seq<PersonView>>::empty());
        queue
    }

    /// The number of producer handles that are held.
    pub fn producers(&self) -> (n: usize)
        ensures
            n == self@.producers,
    {
        self.producers
    }

    /// The number of consumer handles that are held.
    pub fn consumers(&self) -> (n: usize)
        ensures
            n == self@.consumers,
    {
        self.consumers
    }

    /// The number of batches that wait.
    pub fn len(&self) -> (n: usize)
        ensures
            n == self@.batches.len(),
    {
        self.batches.len()
    }

    /// Registers one more producer handle, a clone of one that is held.
    /// A closed queue has none, and stays closed.
    pub fn clone_producer(&mut self)
        requires
            old(self).wf(),
            old(self)@.producers < usize::MAX,
        ensures
            final(self).wf(),
            final(self)@ == old(self)@.clone_producer(),
    {
        if self.producers > 0 {
            self.producers = self.producers + 1;
        }
    }

    /// Gives up one producer handle. When the last one is gone and the
    /// queue has run empty, receivers see the end of the stream.
    pub fn drop_producer(&mut self)
        requires
            old(self).wf(),
        ensures
            final(self).wf(),
            final(self)@ == old(self)@.drop_producer(),
    {
        if self.producers > 0 {
            self.producers = self.producers - 1;
        }
    }

    /// Registers one more consumer handle.
    pub fn clone_consumer(&mut self)
        requires
            old(self).wf(),
            old(self)@.consumers < usize::MAX,
        ensures
            final(self).wf(),
            final(self)@ == old(self)@.clone_consumer(),
    {
        self.consumers = self.consumers + 1;
    }

    /// Gives up one consumer handle. When the last one is gone, sends are
    /// refused.
    pub fn drop_consumer(&mut self)
        requires
            old(self).wf(),
        ensures
            final(self).wf(),
            final(self)@ == old(self)@.drop_consumer(),
    {
        if self.consumers > 0 {
            self.consumers = self.consumers - 1;
        }
    }

    /// Offers `batch` to the queue. It is appended behind everything that
    /// waits, unless the queue is closed or no consumer is left: then the
    /// queue is unchanged and the batch comes back.
    pub fn send(&mut self, batch: Vec<Person>) -> (refused: Result<(), Vec<Person>>)
        requires
            old(self).wf(),
        ensures
            final(self).wf(),
            final(self)@ == old(self)@.send(views(batch@)),
            refused is Ok <==> old(self)@.accepts(),
            refused matches Err(back) ==> back == batch,
    {
        if self.producers == 0 || self.consumers == 0 {
            return Err(batch);
        }
        let ghost row_views = views(batch@);
        let ghost before = self.batches@;
        self.batches.push_back(batch);
        self.accepted = Ghost(self.accepted@.push(row_views));
        proof {
            assert(batch_views(before.push(batch)) == batch_views(before).push(row_views));
            assert(self@.delivered + self@.batches == self@.accepted);
        }
        Ok(())
    }

    /// Takes the oldest waiting batch off the queue, if there is one;
    /// otherwise says whether more may come.
    pub fn recv(&mut self) -> (received: Received)
        requires
            old(self).wf(),
        ensures
            final(self).wf(),
            final(self)@ == old(self)@.recv(),
            received@ == old(self)@.front(),
    {
        let ghost before = self.batches@;
        match self.batches.pop_front() {
            Some(batch) => {
                self.delivered = Ghost(self.delivered@.push(views(batch@)));
                proof {
                    assert(batch_views(before.subrange(1, before.len() as int)) == batch_views(
                        before,
                    ).drop_first());
                    assert(batch_views(before)[0] == views(batch@));
                    assert(self@.delivered + self@.batches == self@.accepted);
                }
                Received::Batch(batch)
            },
            None => {
                if self.producers == 0 {
                    Received::Closed
                } else {
                    Received::Empty
                }
            },
        }
    }
}

} // verus!
