//! The batch writer: the decisions of one writer worker.
//!
//! A writer owns one storage connection and one transaction for its whole
//! run. It drains the hand-off queue, splits each batch into sub-batches of
//! a fixed size, inserts them one by one, and commits once, after the queue
//! has run dry. The storage and the queue are outside this module: the
//! caller does what the writer asks for and reports what happened.

use crate::data_generator::views;
use crate::model::person::{Person, PersonView};
use vstd::prelude::*;
use vstd::slice::slice_subrange;

verus! {

/// How a writer's run ended.
#[derive(Clone, Copy, Debug, PartialEq, Eq, Structural)]
pub enum WriterOutcome {
    /// Every batch it received was inserted, and the transaction was
    /// committed.
    Committed,
    /// No connection could be had: nothing was received.
    ConnectionFailed,
    /// The transaction could not be opened: nothing was received.
    TransactionFailed,
    /// The queue's lock could not be taken: the transaction was left open.
    QueueFailed,
    /// A sub-batch insert failed: the transaction was left open.
    InsertFailed,
    /// The final commit failed.
    CommitFailed,
}

/// Where a writer stands.
#[derive(Clone, Copy, Debug, PartialEq, Eq, Structural)]
pub enum WriterPhase {
    /// Waiting for a connection.
    Connecting,
    /// Waiting for the transaction to open.
    Beginning,
    /// Waiting for the next batch from the queue.
    Receiving,
    /// Waiting for the insert of the current sub-batch.
    Inserting,
    /// Waiting for the commit.
    Committing,
    /// Done.
    Finished(WriterOutcome),
}

/// What the writer asks its caller to do next.
#[derive(Clone, Copy, Debug, PartialEq, Eq, Structural)]
pub enum WriterAction {
    /// Take a connection from the pool.
    Connect,
    /// Open the transaction.
    Begin,
    /// Lock the queue, receive one batch, and release the lock.
    Receive,
    /// Insert the rows of `BatchWriter::rows` with one multi-row statement.
    Insert,
    /// Commit the transaction.
    Commit,
    /// Nothing more: the run is over.
    Stop,
}

/// What happened to the action the writer asked for.
pub enum WriterEvent {
    Connected,
    ConnectionFailed,
    Begun,
    BeginFailed,
    /// The queue handed out this batch.
    Received(Vec<Person>),
    /// The queue is closed and empty.
    EndOfStream,
    /// The queue's lock could not be taken.
    QueueFailed,
    Inserted,
    InsertFailed,
    Committed,
    CommitFailed,
}

/// An event as a mathematical value.
pub enum WriterEventView {
    Connected,
    ConnectionFailed,
    Begun,
    BeginFailed,
    Received(Seq<PersonView>),
    EndOfStream,
    QueueFailed,
    Inserted,
    InsertFailed,
    Committed,
    CommitFailed,
}

impl View for WriterEvent {
    type V = WriterEventView;

    open spec fn view(&self) -> WriterEventView {
        match self {
            WriterEvent::Connected => WriterEventView::Connected,
            WriterEvent::ConnectionFailed => WriterEventView::ConnectionFailed,
            WriterEvent::Begun => WriterEventView::Begun,
            WriterEvent::BeginFailed => WriterEventView::BeginFailed,
            WriterEvent::Received(batch) => WriterEventView::Received(views(batch@)),
            WriterEvent::EndOfStream => WriterEventView::EndOfStream,
            WriterEvent::QueueFailed => WriterEventView::QueueFailed,
            WriterEvent::Inserted => WriterEventView::Inserted,
            WriterEvent::InsertFailed => WriterEventView::InsertFailed,
            WriterEvent::Committed => WriterEventView::Committed,
            WriterEvent::CommitFailed => WriterEventView::CommitFailed,
        }
    }
}

/// The mathematical value of a writer.
pub struct WriterView {
    pub phase: WriterPhase,
    /// The largest number of rows in one insert.
    pub batch_size: nat,
    /// The batch received last.
    pub current: Seq<PersonView>,
    /// How many rows of `current` have been inserted.
    pub next: nat,
    /// Every row the writer has received, in order.
    pub taken: Seq<PersonView>,
    /// Every row the writer has inserted into its transaction, in order.
    pub inserted: Seq<PersonView>,
}

impl WriterView {
    /// A writer that has not done anything yet.
    pub open spec fn init(batch_size: nat) -> WriterView {
        WriterView {
            phase: WriterPhase::Connecting,
            batch_size,
            current: Seq::empty(),
            next: 0,
            taken: Seq::empty(),
            inserted: Seq::empty(),
        }
    }

    /// The writer's invariant. What it has inserted, followed by the rest
    /// of its current batch, is what it has received; and a writer that is
    /// not in the middle of a batch has inserted all of it.
    pub open spec fn wf(self) -> bool {
        &&& self.batch_size >= 1
        &&& self.next <= self.current.len()
        &&& self.inserted + self.current.skip(self.next as int) == self.taken
        &&& self.phase == WriterPhase::Inserting ==> self.next < self.current.len()
        &&& self.phase != WriterPhase::Inserting && self.phase != WriterPhase::Finished(
            WriterOutcome::InsertFailed,
        ) ==> self.next == self.current.len()
        &&& self.phase == WriterPhase::Connecting || self.phase == WriterPhase::Beginning
            || self.phase == WriterPhase::Finished(WriterOutcome::ConnectionFailed) || self.phase
            == WriterPhase::Finished(WriterOutcome::TransactionFailed) ==> self.taken.len() == 0
    }

    /// Whether the run is over.
    pub open spec fn finished(self) -> bool {
        self.phase is Finished
    }

    /// The action that the writer waits for.
    pub open spec fn pending(self) -> WriterAction {
        match self.phase {
            WriterPhase::Connecting => WriterAction::Connect,
            WriterPhase::Beginning => WriterAction::Begin,
            WriterPhase::Receiving => WriterAction::Receive,
            WriterPhase::Inserting => WriterAction::Insert,
            WriterPhase::Committing => WriterAction::Commit,
            WriterPhase::Finished(_) => WriterAction::Stop,
        }
    }

    /// Where the sub-batch that starts at `next` ends.
    pub open spec fn sub_batch_end(self) -> nat {
        if self.next + self.batch_size < self.current.len() {
            self.next + self.batch_size
        } else {
            self.current.len()
        }
    }

    /// The rows of the next insert: up to `batch_size` rows of the current
    /// batch, from `next` on.
    pub open spec fn sub_batch(self) -> Seq<PersonView> {
        self.current.subrange(self.next as int, self.sub_batch_end() as int)
    }

    /// The rows that the writer has made durable: all it has inserted, once
    /// its commit has succeeded, and nothing before that or without it.
    pub open spec fn committed(self) -> Seq<PersonView> {
        if self.phase == WriterPhase::Finished(WriterOutcome::Committed) {
            self.inserted
        } else {
            Seq::empty()
        }
    }

    /// The rows that the writer has inserted into a transaction that is
    /// not committed: they are lost if the run ends without a commit.
    pub open spec fn uncommitted(self) -> Seq<PersonView> {
        if self.phase == WriterPhase::Finished(WriterOutcome::Committed) {
            Seq::empty()
        } else {
            self.inserted
        }
    }

    /// The rows that the writer has received and not inserted.
    pub open spec fn not_inserted(self) -> Seq<PersonView> {
        self.current.skip(self.next as int)
    }

    /// The writer after `event`. An event that does not answer the pending
    /// action changes nothing.
    pub open spec fn step(self, event: WriterEventView) -> WriterView {
        match (self.phase, event) {
            (WriterPhase::Connecting, WriterEventView::Connected) => WriterView {
                phase: WriterPhase::Beginning,
                ..self
            },
            (WriterPhase::Connecting, WriterEventView::ConnectionFailed) => WriterView {
                phase: WriterPhase::Finished(WriterOutcome::ConnectionFailed),
                ..self
            },
            (WriterPhase::Beginning, WriterEventView::Begun) => WriterView {
                phase: WriterPhase::Receiving,
                ..self
            },
            (WriterPhase::Beginning, WriterEventView::BeginFailed) => WriterView {
                phase: WriterPhase::Finished(WriterOutcome::TransactionFailed),
                ..self
            },
            (WriterPhase::Receiving, WriterEventView::Received(batch)) => WriterView {
                phase: if batch.len() > 0 {
                    WriterPhase::Inserting
                } else {
                    WriterPhase::Receiving
                },
                current: batch,
                next: 0,
                taken: self.taken + batch,
                ..self
            },
            (WriterPhase::Receiving, WriterEventView::EndOfStream) => WriterView {
                phase: WriterPhase::Committing,
                ..self
            },
            (WriterPhase::Receiving, WriterEventView::QueueFailed) => WriterView {
                phase: WriterPhase::Finished(WriterOutcome::QueueFailed),
                ..self
            },
            (WriterPhase::Inserting, WriterEventView::Inserted) => WriterView {
                phase: if self.sub_batch_end() < self.current.len() {
                    WriterPhase::Inserting
                } else {
                    WriterPhase::Receiving
                },
                next: self.sub_batch_end(),
                inserted: self.inserted + self.sub_batch(),
                ..self
            },
            (WriterPhase::Inserting, WriterEventView::InsertFailed) => WriterView {
                phase: WriterPhase::Finished(WriterOutcome::InsertFailed),
                ..self
            },
            (WriterPhase::Committing, WriterEventView::Committed) => WriterView {
                phase: WriterPhase::Finished(WriterOutcome::Committed),
                ..self
            },
            (WriterPhase::Committing, WriterEventView::CommitFailed) => WriterView {
                phase: WriterPhase::Finished(WriterOutcome::CommitFailed),
                ..self
            },
            _ => self,
        }
    }
}

/// A step keeps the writer's invariant, never forgets a row it received or
/// inserted, and never leaves the finished state.
pub proof fn lemma_step_wf(w: WriterView, event: WriterEventView)
    requires
        w.wf(),
    ensures
        w.step(event).wf(),
        w.step(event).batch_size == w.batch_size,
        w.finished() ==> w.step(event) == w,
        w.taken == w.step(event).taken.take(w.taken.len() as int),
        w.inserted == w.step(event).inserted.take(w.inserted.len() as int),
{
    let after = w.step(event);
    assert(w.taken.take(w.taken.len() as int) == w.taken);
    assert(w.inserted.take(w.inserted.len() as int) == w.inserted);
    match (w.phase, event) {
        (WriterPhase::Receiving, WriterEventView::Received(batch)) => {
            assert(w.current.skip(w.next as int) == Seq::<PersonView>::empty());
            assert(w.inserted == w.taken);
            assert(batch.skip(0) == batch);
            assert((w.taken + batch).take(w.taken.len() as int) == w.taken);
        },
        (WriterPhase::Inserting, WriterEventView::Inserted) => {
            let end = w.sub_batch_end() as int;
            assert(w.current.skip(w.next as int) == w.sub_batch() + w.current.skip(end));
            assert(after.inserted + after.current.skip(end) == w.inserted + (w.sub_batch()
                + w.current.skip(end)));
            assert((w.inserted + w.sub_batch()).take(w.inserted.len() as int) == w.inserted);
        },
        _ => {},
    }
}

/// How far a writer has come: a connection, a transaction, the batches,
/// the commit, the end.
pub open spec fn progress(phase: WriterPhase) -> nat {
    match phase {
        WriterPhase::Connecting => 0,
        WriterPhase::Beginning => 1,
        WriterPhase::Receiving => 2,
        WriterPhase::Inserting => 2,
        WriterPhase::Committing => 3,
        WriterPhase::Finished(_) => 4,
    }
}

/// A writer never goes back. Whenever it has asked for a connection, for
/// a transaction or for a commit and is answered, it moves on: so it
/// takes one connection, opens one transaction and commits at most once
/// in its whole run.
pub proof fn lemma_step_forward(w: WriterView, event: WriterEventView)
    ensures
        progress(w.step(event).phase) >= progress(w.phase),
        w.step(event) != w && w.phase != WriterPhase::Receiving && w.phase
            != WriterPhase::Inserting ==> progress(w.step(event).phase) > progress(w.phase),
        w.step(event).phase == WriterPhase::Finished(WriterOutcome::Committed) && w.phase
            != WriterPhase::Finished(WriterOutcome::Committed) ==> w.phase
            == WriterPhase::Committing,
{
}

/// Every row a writer has received is durable, or inserted and not
/// committed, or not inserted. All or nothing: a writer whose commit
/// succeeded has made durable every row of every batch it received, in
/// order; a writer that ended in any other way has made nothing durable,
/// whatever it had inserted.
pub proof fn lemma_all_or_nothing(w: WriterView)
    requires
        w.wf(),
    ensures
        w.taken == w.committed() + w.uncommitted() + w.not_inserted(),
        w.phase == WriterPhase::Finished(WriterOutcome::Committed) ==> w.committed() == w.taken
            && w.uncommitted().len() == 0 && w.not_inserted().len() == 0,
        w.phase != WriterPhase::Finished(WriterOutcome::Committed) ==> w.committed().len() == 0,
{
    if w.phase == WriterPhase::Finished(WriterOutcome::Committed) {
        assert(w.inserted + Seq::<PersonView>::empty() == w.inserted);
        assert(w.committed() + w.uncommitted() == w.inserted);
    } else {
        assert(Seq::<PersonView>::empty() + w.inserted == w.inserted);
    }
}

/// One writer worker.
pub struct BatchWriter {
    phase: WriterPhase,
    batch_size: usize,
    current: Vec<Person>,
    next: usize,
    taken: Ghost<Seq<PersonView>>,
    inserted: Ghost<Seq<PersonView>>,
}

impl View for BatchWriter {
    type V = WriterView;

    closed spec fn view(&self) -> WriterView {
        WriterView {
            phase: self.phase,
            batch_size: self.batch_size as nat,
            current: views(self.current@),
            next: self.next as nat,
            taken: self.taken@,
            inserted: self.inserted@,
        }
    }
}

impl BatchWriter {
    /// The writer's invariant: that of its value.
    pub open spec fn wf(&self) -> bool {
        self@.wf()
    }

    /// A writer that inserts at most `batch_size` rows at a time. Its first
    /// action is `WriterAction::Connect`.
    pub fn new(batch_size: u32) -> (writer: BatchWriter)
        requires
            batch_size >= 1,
        ensures
            writer.wf(),
            writer@ == WriterView::init(batch_size as nat),
    {
        let writer = BatchWriter {
            phase: WriterPhase::Connecting,
            batch_size: batch_size as usize,
            current: Vec::new(),
            next: 0,
            taken: Ghost(Seq::empty()),
            inserted: Ghost(Seq::empty()),
        };
        proof {
            assert(views(writer.current@) == Seq::<PersonView>::empty());
            assert(writer@.inserted + writer@.current.skip(0) == writer@.taken);
        }
        writer
    }

    /// Where the writer stands.
    pub fn phase(&self) -> (phase: WriterPhase)
        ensures
            phase == self@.phase,
    {
        self.phase
    }

    /// The action that the writer waits for.
    pub fn pending(&self) -> (action: WriterAction)
        ensures
            action == self@.pending(),
    {
        match self.phase {
            WriterPhase::Connecting => WriterAction::Connect,
            WriterPhase::Beginning => WriterAction::Begin,
            WriterPhase::Receiving => WriterAction::Receive,
            WriterPhase::Inserting => WriterAction::Insert,
            WriterPhase::Committing => WriterAction::Commit,
            WriterPhase::Finished(_) => WriterAction::Stop,
        }
    }

    /// How the run ended, once it has.
    pub fn outcome(&self) -> (outcome: Option<WriterOutcome>)
        ensures
            outcome == match self@.phase {
                WriterPhase::Finished(o) => Some(o),
                _ => None,
            },
    {
        match self.phase {
            WriterPhase::Finished(o) => Some(o),
            _ => None,
        }
    }

    fn sub_batch_end(&self) -> (end: usize)
        requires
            self.wf(),
        ensures
            end == self@.sub_batch_end(),
            self.next <= end <= self.current.len(),
    {
        assert(views(self.current@).len() == self.current@.len());
        if self.current.len() - self.next > self.batch_size {
            self.next + self.batch_size
        } else {
            self.current.len()
        }
    }

    /// The rows of the insert that the writer waits for: the next
    /// sub-batch of its current batch. Empty when it is not inserting.
    pub fn rows(&self) -> (rows: &[Person])
        requires
            self.wf(),
        ensures
            views(rows@) == self@.sub_batch(),
    {
        let end = self.sub_batch_end();
        let rows = slice_subrange(self.current.as_slice(), self.next, end);
        proof {
            assert(views(self.current@.subrange(self.next as int, end as int)) == views(
                self.current@,
            ).subrange(self.next as int, end as int));
        }
        rows
    }

    /// Tells the writer what happened to the action it waited for, and
    /// returns the action it waits for now.
    pub fn step(&mut self, event: WriterEvent) -> (action: WriterAction)
        requires
            old(self).wf(),
        ensures
            final(self).wf(),
            final(self)@ == old(self)@.step(event@),
            action == final(self)@.pending(),
    {
        proof {
            lemma_step_wf(self@, event@);
        }
        match event {
            WriterEvent::Connected => {
                if self.phase == WriterPhase::Connecting {
                    self.phase = WriterPhase::Beginning;
                }
            },
            WriterEvent::ConnectionFailed => {
                if self.phase == WriterPhase::Connecting {
                    self.phase = WriterPhase::Finished(WriterOutcome::ConnectionFailed);
                }
            },
            WriterEvent::Begun => {
                if self.phase == WriterPhase::Beginning {
                    self.phase = WriterPhase::Receiving;
                }
            },
            WriterEvent::BeginFailed => {
                if self.phase == WriterPhase::Beginning {
                    self.phase = WriterPhase::Finished(WriterOutcome::TransactionFailed);
                }
            },
            WriterEvent::Received(batch) => {
                if self.phase == WriterPhase::Receiving {
                    self.taken = Ghost(self.taken@ + views(batch@));
                    if batch.len() > 0 {
                        self.phase = WriterPhase::Inserting;
                    }
                    assert(views(batch@).len() == batch@.len());
                    self.current = batch;
                    self.next = 0;
                }
            },
            WriterEvent::EndOfStream => {
                if self.phase == WriterPhase::Receiving {
                    self.phase = WriterPhase::Committing;
                }
            },
            WriterEvent::QueueFailed => {
                if self.phase == WriterPhase::Receiving {
                    self.phase = WriterPhase::Finished(WriterOutcome::QueueFailed);
                }
            },
            WriterEvent::Inserted => {
                if self.phase == WriterPhase::Inserting {
                    let end = self.sub_batch_end();
                    self.inserted = Ghost(self.inserted@ + old(self)@.sub_batch());
                    self.next = end;
                    assert(views(self.current@).len() == self.current@.len());
                    if end >= self.current.len() {
                        self.phase = WriterPhase::Receiving;
                    }
                }
            },
            WriterEvent::InsertFailed => {
                if self.phase == WriterPhase::Inserting {
                    self.phase = WriterPhase::Finished(WriterOutcome::InsertFailed);
                }
            },
            WriterEvent::Committed => {
                if self.phase == WriterPhase::Committing {
                    self.phase = WriterPhase::Finished(WriterOutcome::Committed);
                }
            },
            WriterEvent::CommitFailed => {
                if self.phase == WriterPhase::Committing {
                    self.phase = WriterPhase::Finished(WriterOutcome::CommitFailed);
                }
            },
        }
        self.pending()
    }
}

} // verus!
