//! The pipeline as a whole: one hand-off queue and a fixed set of writers,
//! moved forward one atomic step at a time, in any order.
//!
//! This module holds no executable code. It states, over the values of the
//! queue and of the writers, what holds of every run: no row is lost
//! between the queue and the writers, none is delivered twice, and what
//! ends up durable is exactly what the committed writers received.

use crate::batch_writer::{
    lemma_all_or_nothing, lemma_step_wf, WriterEventView, WriterOutcome, WriterPhase, WriterView,
};
use crate::data_generator::{lemma_batch_distinct, synthetic_batch, synthetic_person};
use crate::data_inserter_with_tokio::{
    chunk_size, covered, lemma_chunks_suffice, lemma_shares_sum, worker_offset, worker_share,
};
use crate::handoff_queue::{QueueView, ReceivedView};
use crate::model::person::PersonView;
use vstd::multiset::Multiset;
use vstd::prelude::*;
use vstd::seq_lib::lemma_multiset_commutative;

verus! {

/// The state of a pipeline: the queue and the writers.
pub struct PipelineView {
    pub queue: QueueView,
    pub writers: Seq<WriterView>,
}

/// One atomic step of a pipeline.
pub enum Move {
    /// A generator offers a batch to the queue.
    Send(Seq<PersonView>),
    /// A producer handle is cloned.
    CloneProducer,
    /// A producer handle is given up.
    DropProducer,
    /// A consumer handle is cloned.
    CloneConsumer,
    /// A consumer handle is given up.
    DropConsumer,
    /// The writer with this index, if it waits for a batch, takes the
    /// queue's lock, receives once, and is told what it found.
    Poll(int),
    /// The writer with this index is told what became of its connection,
    /// its transaction, its insert, its commit, or the lock.
    Report(int, WriterEventView),
}

/// The rows of a sequence of batches, in order.
pub open spec fn flat(batches: Seq<Seq<PersonView>>) -> Seq<PersonView>
    decreases batches.len(),
{
    if batches.len() == 0 {
        Seq::empty()
    } else {
        flat(batches.drop_last()) + batches.last()
    }
}

/// All rows that the writers have received, as a multiset.
pub open spec fn taken_bag(writers: Seq<WriterView>) -> Multiset<PersonView>
    decreases writers.len(),
{
    if writers.len() == 0 {
        Multiset::empty()
    } else {
        taken_bag(writers.drop_last()).add(writers.last().taken.to_multiset())
    }
}

/// All rows that the writers have made durable, as a multiset.
pub open spec fn committed_bag(writers: Seq<WriterView>) -> Multiset<PersonView>
    decreases writers.len(),
{
    if writers.len() == 0 {
        Multiset::empty()
    } else {
        committed_bag(writers.drop_last()).add(writers.last().committed().to_multiset())
    }
}

/// All rows that the writers have inserted into transactions that are not
/// committed, as a multiset.
pub open spec fn uncommitted_bag(writers: Seq<WriterView>) -> Multiset<PersonView>
    decreases writers.len(),
{
    if writers.len() == 0 {
        Multiset::empty()
    } else {
        uncommitted_bag(writers.drop_last()).add(writers.last().uncommitted().to_multiset())
    }
}

/// All rows that the writers have received and not inserted, as a
/// multiset.
pub open spec fn not_inserted_bag(writers: Seq<WriterView>) -> Multiset<PersonView>
    decreases writers.len(),
{
    if writers.len() == 0 {
        Multiset::empty()
    } else {
        not_inserted_bag(writers.drop_last()).add(writers.last().not_inserted().to_multiset())
    }
}

/// Whether a writer has been told that the stream has ended.
pub open spec fn saw_end(w: WriterView) -> bool {
    ||| w.phase == WriterPhase::Committing
    ||| w.phase == WriterPhase::Finished(WriterOutcome::Committed)
    ||| w.phase == WriterPhase::Finished(WriterOutcome::CommitFailed)
}

impl PipelineView {
    /// A pipeline at its start: a new queue and `writers` new writers.
    pub open spec fn init(writers: nat, batch_size: nat) -> PipelineView {
        PipelineView {
            queue: QueueView::init(),
            writers: Seq::new(writers, |i: int| WriterView::init(batch_size)),
        }
    }

    /// The pipeline after one step. A step that cannot be taken changes
    /// nothing: a poll by a writer that does not wait for a batch, a
    /// report of something that only a poll can find.
    pub open spec fn next(self, m: Move) -> PipelineView {
        match m {
            Move::Send(batch) => PipelineView { queue: self.queue.send(batch), ..self },
            Move::CloneProducer => PipelineView { queue: self.queue.clone_producer(), ..self },
            Move::DropProducer => PipelineView { queue: self.queue.drop_producer(), ..self },
            Move::CloneConsumer => PipelineView { queue: self.queue.clone_consumer(), ..self },
            Move::DropConsumer => PipelineView { queue: self.queue.drop_consumer(), ..self },
            Move::Poll(w) => if 0 <= w < self.writers.len() && self.writers[w].phase
                == WriterPhase::Receiving {
                match self.queue.front() {
                    ReceivedView::Batch(batch) => PipelineView {
                        queue: self.queue.recv(),
                        writers: self.writers.update(
                            w,
                            self.writers[w].step(WriterEventView::Received(batch)),
                        ),
                    },
                    ReceivedView::Closed => PipelineView {
                        writers: self.writers.update(
                            w,
                            self.writers[w].step(WriterEventView::EndOfStream),
                        ),
                        ..self
                    },
                    ReceivedView::Empty => self,
                }
            } else {
                self
            },
            Move::Report(w, event) => if 0 <= w < self.writers.len() && !(event is Received) && !(
            event is EndOfStream) {
                PipelineView {
                    writers: self.writers.update(w, self.writers[w].step(event)),
                    ..self
                }
            } else {
                self
            },
        }
    }

    /// The pipeline after a sequence of steps.
    pub open spec fn run(self, moves: Seq<Move>) -> PipelineView
        decreases moves.len(),
    {
        if moves.len() == 0 {
            self
        } else {
            self.run(moves.drop_last()).next(moves.last())
        }
    }

    /// What holds of a pipeline at every moment. The queue and the writers
    /// keep their own invariants; the rows that the queue has handed out
    /// are, each as often as it was handed out, the rows that the writers
    /// have received; and once a writer has seen the end of the stream,
    /// the queue is empty and no producer is left.
    pub open spec fn inv(self) -> bool {
        &&& self.queue.wf()
        &&& forall|w: int| 0 <= w < self.writers.len() ==> (#[trigger] self.writers[w]).wf()
        &&& flat(self.queue.delivered).to_multiset() == taken_bag(self.writers)
        &&& forall|w: int|
            0 <= w < self.writers.len() && saw_end(#[trigger] self.writers[w])
                ==> self.queue.producers == 0 && self.queue.batches.len() == 0
    }

    /// Whether every writer's run is over.
    pub open spec fn all_finished(self) -> bool {
        forall|w: int| 0 <= w < self.writers.len() ==> (#[trigger] self.writers[w]).finished()
    }

    /// Whether every writer has committed.
    pub open spec fn all_committed(self) -> bool {
        forall|w: int|
            0 <= w < self.writers.len() ==> (#[trigger] self.writers[w]).phase
                == WriterPhase::Finished(WriterOutcome::Committed)
    }
}

/// No rows make an empty multiset.
pub proof fn lemma_empty_bag(rows: Seq<PersonView>)
    requires
        rows.len() == 0,
    ensures
        rows.to_multiset() == Multiset::<PersonView>::empty(),
{
    rows.to_multiset_ensures();
    vstd::multiset::lemma_multiset_empty_len(rows.to_multiset());
}

/// The rows of some batches followed by one more batch.
pub proof fn lemma_flat_push(batches: Seq<Seq<PersonView>>, batch: Seq<PersonView>)
    ensures
        flat(batches.push(batch)) == flat(batches) + batch,
{
    assert(batches.push(batch).drop_last() == batches);
}

/// The rows of two runs of batches, one after the other.
pub proof fn lemma_flat_concat(a: Seq<Seq<PersonView>>, b: Seq<Seq<PersonView>>)
    ensures
        flat(a + b) == flat(a) + flat(b),
    decreases b.len(),
{
    if b.len() == 0 {
        assert(a + b == a);
        assert(flat(a) + flat(b) == flat(a));
    } else {
        assert((a + b).drop_last() == a + b.drop_last());
        assert((a + b).last() == b.last());
        lemma_flat_concat(a, b.drop_last());
        assert((flat(a) + flat(b.drop_last())) + b.last() == flat(a) + (flat(b.drop_last())
            + b.last()));
    }
}

/// When one writer receives `extra` more rows, the writers together have
/// received `extra` more rows.
pub proof fn lemma_taken_bag_update(
    writers: Seq<WriterView>,
    w: int,
    after: WriterView,
    extra: Seq<PersonView>,
)
    requires
        0 <= w < writers.len(),
        after.taken == writers[w].taken + extra,
    ensures
        taken_bag(writers.update(w, after)) == taken_bag(writers).add(extra.to_multiset()),
    decreases writers.len(),
{
    broadcast use vstd::multiset::group_multiset_axioms;

    let updated = writers.update(w, after);
    if w == writers.len() - 1 {
        assert(updated.drop_last() == writers.drop_last());
        lemma_multiset_commutative(writers[w].taken, extra);
    } else {
        assert(updated.drop_last() == writers.drop_last().update(w, after));
        lemma_taken_bag_update(writers.drop_last(), w, after, extra);
    }
    assert(taken_bag(updated) =~= taken_bag(writers).add(extra.to_multiset()));
}

/// Every step keeps the pipeline's invariant.
pub proof fn lemma_next_inv(s: PipelineView, m: Move)
    requires
        s.inv(),
    ensures
        s.next(m).inv(),
{
    broadcast use vstd::multiset::group_multiset_axioms;

    let t = s.next(m);
    match m {
        Move::Send(batch) => {
            if s.queue.accepts() {
                assert(s.queue.delivered + s.queue.batches.push(batch) == (s.queue.delivered
                    + s.queue.batches).push(batch));
                assert forall|w: int| 0 <= w < t.writers.len() implies !saw_end(
                    #[trigger] t.writers[w],
                ) by {}
            }
        },
        Move::Poll(w) => {
            if 0 <= w < s.writers.len() && s.writers[w].phase == WriterPhase::Receiving {
                match s.queue.front() {
                    ReceivedView::Batch(batch) => {
                        let event = WriterEventView::Received(batch);
                        let after = s.writers[w].step(event);
                        lemma_step_wf(s.writers[w], event);
                        lemma_taken_bag_update(s.writers, w, after, batch);
                        lemma_flat_push(s.queue.delivered, batch);
                        lemma_multiset_commutative(flat(s.queue.delivered), batch);
                        assert(s.queue.delivered.push(batch) + s.queue.batches.drop_first()
                            == s.queue.delivered + s.queue.batches);
                        assert forall|v: int| 0 <= v < t.writers.len() implies !saw_end(
                            #[trigger] t.writers[v],
                        ) by {
                            if v != w {
                                assert(t.writers[v] == s.writers[v]);
                            }
                        }
                    },
                    ReceivedView::Closed => {
                        let event = WriterEventView::EndOfStream;
                        let after = s.writers[w].step(event);
                        lemma_step_wf(s.writers[w], event);
                        assert(after.taken == s.writers[w].taken + Seq::<PersonView>::empty());
                        lemma_taken_bag_update(s.writers, w, after, Seq::empty());
                        lemma_empty_bag(Seq::<PersonView>::empty());
                        assert(taken_bag(t.writers) =~= taken_bag(s.writers));
                    },
                    ReceivedView::Empty => {},
                }
            }
        },
        Move::Report(w, event) => {
            if 0 <= w < s.writers.len() && !(event is Received) && !(event is EndOfStream) {
                let after = s.writers[w].step(event);
                lemma_step_wf(s.writers[w], event);
                assert(after.taken == s.writers[w].taken + Seq::<PersonView>::empty());
                lemma_taken_bag_update(s.writers, w, after, Seq::empty());
                lemma_empty_bag(Seq::<PersonView>::empty());
                assert(taken_bag(t.writers) =~= taken_bag(s.writers));
                assert(saw_end(after) ==> saw_end(s.writers[w]));
                assert forall|v: int|
                    0 <= v < t.writers.len() && saw_end(
                        #[trigger] t.writers[v],
                    ) implies t.queue.producers == 0 && t.queue.batches.len() == 0 by {
                    if v != w {
                        assert(t.writers[v] == s.writers[v]);
                    } else {
                        assert(saw_end(s.writers[w]));
                    }
                }
            }
        },
        _ => {},
    }
}

/// The invariant holds after any sequence of steps from the start,
/// whatever the order in which generators and writers take turns.
pub proof fn lemma_run_inv(writers: nat, batch_size: nat, moves: Seq<Move>)
    requires
        batch_size >= 1,
    ensures
        PipelineView::init(writers, batch_size).run(moves).inv(),
    decreases moves.len(),
{
    broadcast use vstd::multiset::group_multiset_axioms;

    let start = PipelineView::init(writers, batch_size);
    if moves.len() == 0 {
        assert(start.queue.delivered + start.queue.batches == start.queue.accepted);
        lemma_empty_bag(flat(start.queue.delivered));
        lemma_taken_bag_init(start.writers);
        assert forall|w: int| 0 <= w < start.writers.len() implies (
        #[trigger] start.writers[w]).wf() by {
            let v = start.writers[w];
            assert(v.inserted + v.current.skip(0) == v.taken);
        }
    } else {
        lemma_run_inv(writers, batch_size, moves.drop_last());
        lemma_next_inv(start.run(moves.drop_last()), moves.last());
    }
}

/// Writers that have received nothing have received nothing together.
pub proof fn lemma_taken_bag_init(writers: Seq<WriterView>)
    requires
        forall|w: int| 0 <= w < writers.len() ==> (#[trigger] writers[w]).taken.len() == 0,
    ensures
        taken_bag(writers) == Multiset::<PersonView>::empty(),
    decreases writers.len(),
{
    broadcast use vstd::multiset::group_multiset_axioms;

    if writers.len() > 0 {
        lemma_taken_bag_init(writers.drop_last());
        assert(writers.last() == writers[writers.len() - 1]);
        lemma_empty_bag(writers.last().taken);
        assert(taken_bag(writers) =~= Multiset::empty());
    }
}

/// What the writers have received is what they have made durable, what
/// they have inserted without a commit, and what they have not inserted.
pub proof fn lemma_taken_split(writers: Seq<WriterView>)
    requires
        forall|w: int| 0 <= w < writers.len() ==> (#[trigger] writers[w]).wf(),
    ensures
        taken_bag(writers) == committed_bag(writers).add(uncommitted_bag(writers)).add(
            not_inserted_bag(writers),
        ),
    decreases writers.len(),
{
    broadcast use vstd::multiset::group_multiset_axioms;

    if writers.len() > 0 {
        let rest = writers.drop_last();
        let last = writers.last();
        assert forall|w: int| 0 <= w < rest.len() implies (#[trigger] rest[w]).wf() by {
            assert(rest[w] == writers[w]);
        }
        lemma_taken_split(rest);
        assert(last == writers[writers.len() - 1]);
        lemma_all_or_nothing(last);
        lemma_multiset_commutative(last.committed() + last.uncommitted(), last.not_inserted());
        lemma_multiset_commutative(last.committed(), last.uncommitted());
    }
    assert(taken_bag(writers) =~= committed_bag(writers).add(uncommitted_bag(writers)).add(
        not_inserted_bag(writers),
    ));
}

/// What the writers have made durable is part of what they have received.
pub proof fn lemma_committed_within_taken(writers: Seq<WriterView>, row: PersonView)
    requires
        forall|w: int| 0 <= w < writers.len() ==> (#[trigger] writers[w]).wf(),
    ensures
        committed_bag(writers).count(row) <= taken_bag(writers).count(row),
    decreases writers.len(),
{
    broadcast use vstd::multiset::group_multiset_axioms;

    if writers.len() > 0 {
        let rest = writers.drop_last();
        let last = writers.last();
        assert forall|w: int| 0 <= w < rest.len() implies (#[trigger] rest[w]).wf() by {
            assert(rest[w] == writers[w]);
        }
        lemma_committed_within_taken(rest, row);
        assert(last == writers[writers.len() - 1]);
        if last.phase == WriterPhase::Finished(WriterOutcome::Committed) {
            lemma_all_or_nothing(last);
        } else {
            lemma_empty_bag(last.committed());
        }
    }
}

/// No row is made durable more often than the queue accepted it: with
/// several writers on one queue, a batch still reaches at most one of
/// them. In particular, where the accepted rows are all different, none
/// is inserted twice.
pub proof fn lemma_never_twice(s: PipelineView, row: PersonView)
    requires
        s.inv(),
    ensures
        committed_bag(s.writers).count(row) <= flat(s.queue.accepted).to_multiset().count(row),
{
    broadcast use vstd::multiset::group_multiset_axioms;

    lemma_committed_within_taken(s.writers, row);
    lemma_flat_concat(s.queue.delivered, s.queue.batches);
    lemma_multiset_commutative(flat(s.queue.delivered), flat(s.queue.batches));
}

/// Once a writer has seen the end of the stream, every row that the queue
/// accepted is accounted for: it is durable, or it sits in a transaction
/// that is not committed, or it was received and not inserted. Where every
/// writer has committed, the durable rows are all the accepted rows, each
/// as often as it was accepted.
pub proof fn lemma_all_accounted(s: PipelineView, witness: int)
    requires
        s.inv(),
        0 <= witness < s.writers.len(),
        saw_end(s.writers[witness]),
    ensures
        flat(s.queue.accepted).to_multiset() == committed_bag(s.writers).add(
            uncommitted_bag(s.writers),
        ).add(not_inserted_bag(s.writers)),
        committed_bag(s.writers).len() + uncommitted_bag(s.writers).len() + not_inserted_bag(
            s.writers,
        ).len() == flat(s.queue.accepted).len(),
        s.all_committed() ==> committed_bag(s.writers) == flat(s.queue.accepted).to_multiset()
            && committed_bag(s.writers).len() == flat(s.queue.accepted).len(),
{
    broadcast use vstd::multiset::group_multiset_axioms;

    assert(s.queue.batches =~= Seq::empty());
    assert(s.queue.delivered + s.queue.batches == s.queue.delivered);
    lemma_taken_split(s.writers);
    flat(s.queue.accepted).to_multiset_ensures();
    if s.all_committed() {
        lemma_committed_only(s.writers);
        assert(committed_bag(s.writers).add(Multiset::empty()).add(Multiset::empty())
            =~= committed_bag(s.writers));
    }
}

/// Where every writer has committed, no received row is left in an open
/// transaction or outside one.
pub proof fn lemma_committed_only(writers: Seq<WriterView>)
    requires
        forall|w: int| 0 <= w < writers.len() ==> (#[trigger] writers[w]).wf(),
        forall|w: int|
            0 <= w < writers.len() ==> (#[trigger] writers[w]).phase == WriterPhase::Finished(
                WriterOutcome::Committed,
            ),
    ensures
        uncommitted_bag(writers) == Multiset::<PersonView>::empty(),
        not_inserted_bag(writers) == Multiset::<PersonView>::empty(),
    decreases writers.len(),
{
    broadcast use vstd::multiset::group_multiset_axioms;

    if writers.len() > 0 {
        let rest = writers.drop_last();
        let last = writers.last();
        assert forall|w: int| 0 <= w < rest.len() implies (#[trigger] rest[w]).wf() by {
            assert(rest[w] == writers[w]);
        }
        assert forall|w: int| 0 <= w < rest.len() implies (#[trigger] rest[w]).phase
            == WriterPhase::Finished(WriterOutcome::Committed) by {
            assert(rest[w] == writers[w]);
        }
        lemma_committed_only(rest);
        assert(last == writers[writers.len() - 1]);
        lemma_all_or_nothing(last);
        lemma_empty_bag(last.uncommitted());
        lemma_empty_bag(last.not_inserted());
        assert(uncommitted_bag(writers) =~= Multiset::empty());
        assert(not_inserted_bag(writers) =~= Multiset::empty());
    }
}

/// Where every writer but one has committed, the rows that are not
/// durable are those of that one writer.
pub proof fn lemma_single_loser(writers: Seq<WriterView>, loser: int)
    requires
        forall|w: int| 0 <= w < writers.len() ==> (#[trigger] writers[w]).wf(),
        0 <= loser < writers.len(),
        forall|w: int|
            0 <= w < writers.len() && w != loser ==> (#[trigger] writers[w]).phase
                == WriterPhase::Finished(WriterOutcome::Committed),
    ensures
        uncommitted_bag(writers) == writers[loser].uncommitted().to_multiset(),
        not_inserted_bag(writers) == writers[loser].not_inserted().to_multiset(),
    decreases writers.len(),
{
    broadcast use vstd::multiset::group_multiset_axioms;

    let rest = writers.drop_last();
    let last = writers.last();
    assert(last == writers[writers.len() - 1]);
    assert forall|w: int| 0 <= w < rest.len() implies (#[trigger] rest[w]).wf() by {
        assert(rest[w] == writers[w]);
    }
    if loser == writers.len() - 1 {
        assert forall|w: int| 0 <= w < rest.len() implies (#[trigger] rest[w]).phase
            == WriterPhase::Finished(WriterOutcome::Committed) by {
            assert(rest[w] == writers[w]);
        }
        lemma_committed_only(rest);
    } else {
        assert forall|w: int| 0 <= w < rest.len() && w != loser implies (#[trigger] rest[w]).phase
            == WriterPhase::Finished(WriterOutcome::Committed) by {
            assert(rest[w] == writers[w]);
        }
        assert(rest[loser] == writers[loser]);
        lemma_single_loser(rest, loser);
        lemma_all_or_nothing(last);
        lemma_empty_bag(last.uncommitted());
        lemma_empty_bag(last.not_inserted());
    }
    assert(uncommitted_bag(writers) =~= writers[loser].uncommitted().to_multiset());
    assert(not_inserted_bag(writers) =~= writers[loser].not_inserted().to_multiset());
}

/// One writer fails, the others commit. The failed writer's transaction
/// is never committed, so everything it had received is missing from the
/// durable rows: what it had inserted and what it had not. Everything
/// else that the queue accepted is durable.
pub proof fn lemma_one_writer_fails(s: PipelineView, loser: int, other: int)
    requires
        s.inv(),
        0 <= loser < s.writers.len(),
        0 <= other < s.writers.len(),
        other != loser,
        s.writers[loser].finished(),
        s.writers[loser].phase != WriterPhase::Finished(WriterOutcome::Committed),
        forall|w: int|
            0 <= w < s.writers.len() && w != loser ==> (#[trigger] s.writers[w]).phase
                == WriterPhase::Finished(WriterOutcome::Committed),
    ensures
        committed_bag(s.writers).len() == flat(s.queue.accepted).len()
            - s.writers[loser].taken.len(),
        s.writers[loser].taken.len() == s.writers[loser].inserted.len()
            + s.writers[loser].not_inserted().len(),
        s.writers[loser].inserted.len() == 0 ==> committed_bag(s.writers).len() == flat(
            s.queue.accepted,
        ).len() - s.writers[loser].not_inserted().len(),
{
    broadcast use vstd::multiset::group_multiset_axioms;

    assert(saw_end(s.writers[other]));
    lemma_all_accounted(s, other);
    lemma_single_loser(s.writers, loser);
    lemma_all_or_nothing(s.writers[loser]);
    s.writers[loser].uncommitted().to_multiset_ensures();
    s.writers[loser].not_inserted().to_multiset_ensures();
}

/// The batches that the first `n` generator workers make in a run of
/// `count` records, in worker order. The batch of a worker that is skipped
/// is empty.
pub open spec fn planned_batches(count: nat, workers: nat, n: nat) -> Seq<Seq<PersonView>> {
    Seq::new(
        n,
        |i: int|
            synthetic_batch(
                worker_share(count, workers, i as nat),
                worker_offset(count, workers, i as nat),
            ),
    )
}

/// The batches of the first `n` workers, one after the other, are the
/// records with the numbers below what these workers cover: no number is
/// left out and none comes twice.
pub proof fn lemma_planned_rows(count: nat, workers: nat, n: nat)
    requires
        workers > 0,
    ensures
        flat(planned_batches(count, workers, n)) == synthetic_batch(covered(count, workers, n), 0),
    decreases n,
{
    let batches = planned_batches(count, workers, n);
    if n == 0 {
        assert(covered(count, workers, 0) == 0) by {
            assert(0 * chunk_size(count, workers) == 0) by (nonlinear_arith);
        }
        assert(flat(batches) == synthetic_batch(0, 0));
    } else {
        let last = (n - 1) as nat;
        let share = worker_share(count, workers, last);
        let offset = worker_offset(count, workers, last);
        lemma_planned_rows(count, workers, last);
        lemma_shares_sum(count, workers, last);
        lemma_shares_sum(count, workers, n);
        assert(batches.drop_last() == planned_batches(count, workers, last));
        assert(batches.last() == synthetic_batch(share, offset));
        let before = covered(count, workers, last);
        assert(before + share == covered(count, workers, n));
        assert(share > 0 ==> offset == before);
        assert(synthetic_batch(before, 0) + synthetic_batch(share, offset) == synthetic_batch(
            before + share,
            0,
        ));
    }
}

/// The generator workers of one run make, between them, the records with
/// the numbers 0 to `count - 1`, each once.
pub proof fn lemma_run_rows(count: nat, workers: nat)
    requires
        workers > 0,
    ensures
        flat(planned_batches(count, workers, workers)) == synthetic_batch(count, 0),
        synthetic_batch(count, 0).no_duplicates(),
{
    lemma_planned_rows(count, workers, workers);
    lemma_chunks_suffice(count, workers);
    lemma_batch_distinct(count, 0);
}

/// A whole run without a failure. Where the queue has accepted what the
/// generator workers of a run of `count` records make, in whatever order,
/// and every writer has committed, the durable rows are the records with
/// the numbers 0 to `count - 1`: `count` rows, each record once.
pub proof fn lemma_populate_complete(s: PipelineView, count: nat, witness: int)
    requires
        s.inv(),
        s.all_committed(),
        0 <= witness < s.writers.len(),
        flat(s.queue.accepted).to_multiset() == synthetic_batch(count, 0).to_multiset(),
    ensures
        committed_bag(s.writers) == synthetic_batch(count, 0).to_multiset(),
        committed_bag(s.writers).len() == count,
        forall|n: nat| n < count ==> committed_bag(s.writers).count(synthetic_person(n)) == 1,
{
    broadcast use vstd::multiset::group_multiset_axioms;

    let rows = synthetic_batch(count, 0);
    assert(saw_end(s.writers[witness]));
    lemma_all_accounted(s, witness);
    lemma_batch_distinct(count, 0);
    rows.to_multiset_ensures();
    rows.lemma_multiset_has_no_duplicates();
    assert forall|n: nat| n < count implies committed_bag(s.writers).count(synthetic_person(n))
        == 1 by {
        assert(rows[n as int] == synthetic_person(n));
        assert(rows.contains(synthetic_person(n)));
    }
}

} // verus!
