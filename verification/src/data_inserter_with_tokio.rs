//! The bulk-load pipeline's orchestration: its settings, its partition
//! plan (how a total record count is divided among the generator workers),
//! and the order in which one run starts, drains and ends.

use crate::data_generator::{lemma_synthetic_distinct, synthetic_batch};
use vstd::prelude::*;

verus! {

/// Rounded-up quotient: the number of records a full generator worker gets.
pub open spec fn chunk_size(count: nat, workers: nat) -> nat {
    count / workers + if count % workers > 0 {
        1nat
    } else {
        0nat
    }
}

/// The sequence number at which worker `i` starts.
pub open spec fn worker_offset(count: nat, workers: nat, i: nat) -> nat {
    i * chunk_size(count, workers)
}

/// The number of records worker `i` generates: a full chunk, clamped to
/// what the workers before it have left, which may be nothing.
pub open spec fn worker_share(count: nat, workers: nat, i: nat) -> nat {
    let chunk = chunk_size(count, workers);
    let offset = i * chunk;
    if offset >= count {
        0
    } else if count - offset < chunk {
        (count - offset) as nat
    } else {
        chunk
    }
}

/// How many of `count` records the first `n` workers are given together.
pub open spec fn covered(count: nat, workers: nat, n: nat) -> nat {
    if n * chunk_size(count, workers) < count {
        n * chunk_size(count, workers)
    } else {
        count
    }
}

/// The sum of the shares of the first `n` workers.
pub open spec fn shares_sum(count: nat, workers: nat, n: nat) -> nat
    decreases n,
{
    if n == 0 {
        0
    } else {
        shares_sum(count, workers, (n - 1) as nat) + worker_share(count, workers, (n - 1) as nat)
    }
}

/// One generator worker's assignment: `count` records numbered from
/// `start_id`.
#[derive(Clone, Copy, Debug, PartialEq, Eq, Structural)]
pub struct GeneratorTask {
    pub count: u32,
    pub start_id: u32,
}

/// The assignment of worker `i`.
pub open spec fn worker_task(count: nat, workers: nat, i: nat) -> GeneratorTask {
    GeneratorTask {
        count: worker_share(count, workers, i) as u32,
        start_id: worker_offset(count, workers, i) as u32,
    }
}

/// The assignments of those of the first `n` workers that have anything to
/// do, in worker order.
pub open spec fn plan_prefix(count: nat, workers: nat, n: nat) -> Seq<GeneratorTask>
    decreases n,
{
    if n == 0 {
        Seq::empty()
    } else if worker_share(count, workers, (n - 1) as nat) > 0 {
        plan_prefix(count, workers, (n - 1) as nat).push(
            worker_task(count, workers, (n - 1) as nat),
        )
    } else {
        plan_prefix(count, workers, (n - 1) as nat)
    }
}

/// The chunks of all workers together hold at least `count` records.
pub proof fn lemma_chunks_suffice(count: nat, workers: nat)
    requires
        workers > 0,
    ensures
        workers * chunk_size(count, workers) >= count,
        chunk_size(count, workers) <= count,
        count > 0 ==> chunk_size(count, workers) > 0,
{
    let q = count / workers;
    let r = count % workers;
    assert(count == workers * q + r) by (nonlinear_arith)
        requires
            workers > 0,
            q == count / workers,
            r == count % workers,
    ;
    assert(0 <= r < workers);
    if r > 0 {
        assert(workers * (q + 1) == workers * q + workers) by (nonlinear_arith);
        assert(q + 1 <= count) by (nonlinear_arith)
            requires
                count == workers * q + r,
                workers >= 1,
                r >= 1,
                q >= 0,
        ;
    } else {
        assert(q <= workers * q) by (nonlinear_arith)
            requires
                workers >= 1,
                q >= 0,
        ;
    }
}

/// The first `n` workers' shares add up to what they cover, no share is
/// larger than a chunk, and a worker past the end of the count gets
/// nothing.
pub proof fn lemma_shares_sum(count: nat, workers: nat, n: nat)
    requires
        workers > 0,
    ensures
        shares_sum(count, workers, n) == covered(count, workers, n),
        worker_share(count, workers, n) <= chunk_size(count, workers),
        worker_offset(count, workers, n) >= count ==> worker_share(count, workers, n) == 0,
        worker_share(count, workers, n) > 0 ==> worker_offset(count, workers, n) + worker_share(
            count,
            workers,
            n,
        ) == covered(count, workers, n + 1),
    decreases n,
{
    let c = chunk_size(count, workers);
    assert((n + 1) * c == n * c + c) by (nonlinear_arith);
    if n > 0 {
        assert(n * c == (n - 1) * c + c) by (nonlinear_arith)
            requires
                n >= 1,
        ;
        lemma_shares_sum(count, workers, (n - 1) as nat);
    } else {
        assert(0 * c == 0) by (nonlinear_arith);
    }
}

/// The shares of all the workers add up to `count` exactly.
pub proof fn lemma_shares_total(count: nat, workers: nat)
    requires
        workers > 0,
    ensures
        shares_sum(count, workers, workers) == count,
{
    lemma_shares_sum(count, workers, workers);
    lemma_chunks_suffice(count, workers);
}

/// Workers never overlap: a record of one worker and a record of another,
/// or two records of one worker at different positions, carry different
/// sequence numbers.
pub proof fn lemma_ranges_disjoint(count: nat, workers: nat, i: nat, p: nat, j: nat, q: nat)
    requires
        workers > 0,
        p < worker_share(count, workers, i),
        q < worker_share(count, workers, j),
        i != j || p != q,
    ensures
        worker_offset(count, workers, i) + p != worker_offset(count, workers, j) + q,
        worker_offset(count, workers, i) + p < count,
{
    let c = chunk_size(count, workers);
    lemma_shares_sum(count, workers, i);
    lemma_shares_sum(count, workers, j);
    assert((i + 1) * c == i * c + c) by (nonlinear_arith);
    assert((j + 1) * c == j * c + c) by (nonlinear_arith);
    if i < j {
        assert((i + 1) * c <= j * c) by (nonlinear_arith)
            requires
                i + 1 <= j,
                c >= 0,
        ;
    } else if j < i {
        assert((j + 1) * c <= i * c) by (nonlinear_arith)
            requires
                j + 1 <= i,
                c >= 0,
        ;
    }
}

/// Workers leave no gap: every sequence number below `count` belongs to
/// some worker.
pub proof fn lemma_ranges_cover(count: nat, workers: nat, n: nat) -> (at: (nat, nat))
    requires
        workers > 0,
        n < count,
    ensures
        at.0 < workers,
        at.1 < worker_share(count, workers, at.0),
        worker_offset(count, workers, at.0) + at.1 == n,
{
    let c = chunk_size(count, workers);
    lemma_chunks_suffice(count, workers);
    let i = n / c;
    let p = n % c;
    assert(n == i * c + p && 0 <= p < c) by (nonlinear_arith)
        requires
            c > 0,
            i == n / c,
            p == n % c,
    ;
    assert((i + 1) * c == i * c + c) by (nonlinear_arith);
    if i >= workers {
        assert(workers * c <= i * c) by (nonlinear_arith)
            requires
                workers <= i,
                c >= 0,
        ;
    }
    (i, p)
}

/// Across one whole run no two generated records share a name, an email or
/// a phone, whichever workers made them.
pub proof fn lemma_run_records_distinct(
    count: nat,
    workers: nat,
    i: nat,
    p: nat,
    j: nat,
    q: nat,
)
    requires
        workers > 0,
        p < worker_share(count, workers, i),
        q < worker_share(count, workers, j),
        i != j || p != q,
    ensures
        ({
            let a = synthetic_batch(
                worker_share(count, workers, i),
                worker_offset(count, workers, i),
            )[p as int];
            let b = synthetic_batch(
                worker_share(count, workers, j),
                worker_offset(count, workers, j),
            )[q as int];
            a.name != b.name && a.email != b.email && a.phone != b.phone
        }),
{
    lemma_ranges_disjoint(count, workers, i, p, j, q);
    lemma_synthetic_distinct(
        worker_offset(count, workers, i) + p,
        worker_offset(count, workers, j) + q,
    );
}

/// The number of records that the tasks of a plan ask for together.
pub open spec fn plan_rows(tasks: Seq<GeneratorTask>) -> nat
    decreases tasks.len(),
{
    if tasks.len() == 0 {
        0
    } else {
        plan_rows(tasks.drop_last()) + tasks.last().count as nat
    }
}

/// The tasks of the first `n` workers ask for as many records as their
/// shares add up to.
pub proof fn lemma_plan_rows(count: nat, workers: nat, n: nat)
    requires
        workers > 0,
        count <= u32::MAX,
    ensures
        plan_rows(plan_prefix(count, workers, n)) == shares_sum(count, workers, n),
    decreases n,
{
    if n > 0 {
        let i = (n - 1) as nat;
        lemma_plan_rows(count, workers, i);
        lemma_shares_sum(count, workers, i);
        lemma_chunks_suffice(count, workers);
        if worker_share(count, workers, i) > 0 {
            let rest = plan_prefix(count, workers, i);
            assert(rest.push(worker_task(count, workers, i)).drop_last() == rest);
        }
    }
}

/// The plan of a run asks for `count` records in all, in tasks that are
/// never empty.
pub proof fn lemma_plan_total(count: nat, workers: nat)
    requires
        workers > 0,
        count <= u32::MAX,
    ensures
        plan_rows(plan_prefix(count, workers, workers)) == count,
        count == 0 ==> plan_prefix(count, workers, workers).len() == 0,
{
    lemma_plan_rows(count, workers, workers);
    lemma_shares_total(count, workers);
    if count == 0 {
        lemma_plan_empty(workers, workers);
    }
}

/// A run of no records starts no generator worker.
pub proof fn lemma_plan_empty(workers: nat, n: nat)
    requires
        workers > 0,
    ensures
        plan_prefix(0, workers, n).len() == 0,
    decreases n,
{
    if n > 0 {
        lemma_plan_empty(workers, (n - 1) as nat);
        lemma_shares_sum(0, workers, (n - 1) as nat);
        lemma_chunks_suffice(0, workers);
    }
}

/// The plan holds the task of every worker that has a share, and no
/// other: exactly the workers whose share is zero are skipped.
pub proof fn lemma_plan_members(count: nat, workers: nat, n: nat, task: GeneratorTask)
    ensures
        plan_prefix(count, workers, n).contains(task) <==> exists|i: nat|
            i < n && worker_share(count, workers, i) > 0 && task == #[trigger] worker_task(
                count,
                workers,
                i,
            ),
    decreases n,
{
    if n > 0 {
        let last = (n - 1) as nat;
        let rest = plan_prefix(count, workers, last);
        lemma_plan_members(count, workers, last, task);
        if worker_share(count, workers, last) > 0 {
            let plan = rest.push(worker_task(count, workers, last));
            if plan.contains(task) {
                let at = choose|at: int| 0 <= at < plan.len() && plan[at] == task;
                if at < rest.len() {
                    assert(rest[at] == task);
                } else {
                    assert(task == worker_task(count, workers, last));
                }
            }
            if exists|i: nat|
                i < n && worker_share(count, workers, i) > 0 && task == #[trigger] worker_task(
                    count,
                    workers,
                    i,
                ) {
                let i = choose|i: nat|
                    i < n && worker_share(count, workers, i) > 0 && task == #[trigger] worker_task(
                        count,
                        workers,
                        i,
                    );
                if i < last {
                    let at = choose|at: int| 0 <= at < rest.len() && rest[at] == task;
                    assert(plan[at] == task);
                } else {
                    assert(plan[rest.len() as int] == task);
                }
            }
        }
    }
}

/// Where a run stands.
#[derive(Clone, Copy, Debug, PartialEq, Eq, Structural)]
pub enum RunPhase {
    /// Nothing has been started.
    Starting,
    /// The workers run; some generator worker has not ended yet.
    Generating,
    /// Every generator worker has ended; the queue is still open.
    Closing,
    /// The queue is closed; some writer worker has not ended yet.
    Draining,
    /// Every worker has ended.
    Done,
}

/// What the run asks its caller to do next.
#[derive(Clone, Copy, Debug, PartialEq, Eq, Structural)]
pub enum RunAction {
    /// Start one generator worker for each task of the plan, each with a
    /// producer handle of its own, then the writer workers.
    StartWorkers,
    /// Wait until one more generator worker has ended.
    AwaitGenerator,
    /// Give up the run's own producer handle, the last one.
    CloseQueue,
    /// Wait until one more writer worker has ended.
    AwaitWriter,
    /// Report the time that the run took.
    Finish,
}

/// What happened to the action the run asked for. How a worker ended is
/// not part of it: a worker that fails is logged by its caller, and the
/// run goes on.
#[derive(Clone, Copy, Debug, PartialEq, Eq, Structural)]
pub enum RunEvent {
    WorkersStarted,
    GeneratorJoined,
    QueueClosed,
    WriterJoined,
}

/// The mathematical value of a run.
pub struct RunView {
    pub phase: RunPhase,
    /// The tasks of the generator workers that are started.
    pub tasks: Seq<GeneratorTask>,
    /// The number of writer workers that are started.
    pub writers: nat,
    /// The number of generator workers that have not ended yet.
    pub generators_left: nat,
    /// The number of writer workers that have not ended yet.
    pub writers_left: nat,
}

impl RunView {
    /// A run that has started nothing yet.
    pub open spec fn init(tasks: Seq<GeneratorTask>, writers: nat) -> RunView {
        RunView {
            phase: RunPhase::Starting,
            tasks,
            writers,
            generators_left: tasks.len(),
            writers_left: writers,
        }
    }

    /// The run's invariant. The queue is closed only after the last
    /// generator worker has ended, and the run is over only after the last
    /// writer worker has.
    pub open spec fn wf(self) -> bool {
        &&& self.generators_left <= self.tasks.len()
        &&& self.writers_left <= self.writers
        &&& self.phase == RunPhase::Starting ==> self.generators_left == self.tasks.len()
            && self.writers_left == self.writers
        &&& self.phase == RunPhase::Generating ==> self.generators_left > 0 && self.writers_left
            == self.writers
        &&& self.phase == RunPhase::Closing ==> self.generators_left == 0 && self.writers_left
            == self.writers
        &&& self.phase == RunPhase::Draining ==> self.generators_left == 0 && self.writers_left
            > 0
        &&& self.phase == RunPhase::Done ==> self.generators_left == 0 && self.writers_left == 0
    }

    /// The action that the run waits for.
    pub open spec fn pending(self) -> RunAction {
        match self.phase {
            RunPhase::Starting => RunAction::StartWorkers,
            RunPhase::Generating => RunAction::AwaitGenerator,
            RunPhase::Closing => RunAction::CloseQueue,
            RunPhase::Draining => RunAction::AwaitWriter,
            RunPhase::Done => RunAction::Finish,
        }
    }

    /// The run after `event`. An event that does not answer the pending
    /// action changes nothing.
    pub open spec fn step(self, event: RunEvent) -> RunView {
        match (self.phase, event) {
            (RunPhase::Starting, RunEvent::WorkersStarted) => RunView {
                phase: if self.generators_left > 0 {
                    RunPhase::Generating
                } else {
                    RunPhase::Closing
                },
                ..self
            },
            (RunPhase::Generating, RunEvent::GeneratorJoined) => RunView {
                phase: if self.generators_left > 1 {
                    RunPhase::Generating
                } else {
                    RunPhase::Closing
                },
                generators_left: (self.generators_left - 1) as nat,
                ..self
            },
            (RunPhase::Closing, RunEvent::QueueClosed) => RunView {
                phase: if self.writers_left > 0 {
                    RunPhase::Draining
                } else {
                    RunPhase::Done
                },
                ..self
            },
            (RunPhase::Draining, RunEvent::WriterJoined) => RunView {
                phase: if self.writers_left > 1 {
                    RunPhase::Draining
                } else {
                    RunPhase::Done
                },
                writers_left: (self.writers_left - 1) as nat,
                ..self
            },
            _ => self,
        }
    }
}

/// A step keeps the run's invariant. Whatever the events and their order,
/// the run asks to close the queue only when every generator worker has
/// ended, and to finish only when every writer worker has ended too.
pub proof fn lemma_run_order(r: RunView, event: RunEvent)
    requires
        r.wf(),
    ensures
        r.step(event).wf(),
        r.step(event).tasks == r.tasks,
        r.step(event).writers == r.writers,
        r.step(event).pending() == RunAction::CloseQueue ==> r.step(event).generators_left == 0,
        r.step(event).pending() == RunAction::AwaitWriter ==> r.step(event).generators_left == 0,
        r.step(event).pending() == RunAction::Finish ==> r.step(event).generators_left == 0
            && r.step(event).writers_left == 0,
{
}

/// One run of the pipeline, as its orchestrator sees it.
pub struct PopulateRun {
    phase: RunPhase,
    tasks: Vec<GeneratorTask>,
    writers: u32,
    generators_left: usize,
    writers_left: u32,
}

impl View for PopulateRun {
    type V = RunView;

    closed spec fn view(&self) -> RunView {
        RunView {
            phase: self.phase,
            tasks: self.tasks@,
            writers: self.writers as nat,
            generators_left: self.generators_left as nat,
            writers_left: self.writers_left as nat,
        }
    }
}

impl PopulateRun {
    /// The run's invariant: that of its value.
    pub open spec fn wf(&self) -> bool {
        self@.wf()
    }

    /// Where the run stands.
    pub fn phase(&self) -> (phase: RunPhase)
        ensures
            phase == self@.phase,
    {
        self.phase
    }

    /// The tasks of the generator workers to start.
    pub fn tasks(&self) -> (tasks: &Vec<GeneratorTask>)
        ensures
            tasks@ == self@.tasks,
    {
        &self.tasks
    }

    /// The number of writer workers to start.
    pub fn writers(&self) -> (writers: u32)
        ensures
            writers == self@.writers,
    {
        self.writers
    }

    /// The action that the run waits for.
    pub fn pending(&self) -> (action: RunAction)
        ensures
            action == self@.pending(),
    {
        match self.phase {
            RunPhase::Starting => RunAction::StartWorkers,
            RunPhase::Generating => RunAction::AwaitGenerator,
            RunPhase::Closing => RunAction::CloseQueue,
            RunPhase::Draining => RunAction::AwaitWriter,
            RunPhase::Done => RunAction::Finish,
        }
    }

    /// Tells the run what happened to the action it waited for, and
    /// returns the action it waits for now. The queue is closed only once
    /// no generator worker is left, and the run finishes only once no
    /// writer worker is left.
    pub fn step(&mut self, event: RunEvent) -> (action: RunAction)
        requires
            old(self).wf(),
        ensures
            final(self).wf(),
            final(self)@ == old(self)@.step(event),
            action == final(self)@.pending(),
            action == RunAction::CloseQueue ==> final(self)@.generators_left == 0,
            action == RunAction::Finish ==> final(self)@.generators_left == 0,
            action == RunAction::Finish ==> final(self)@.writers_left == 0,
    {
        match event {
            RunEvent::WorkersStarted => {
                if self.phase == RunPhase::Starting {
                    self.phase = if self.generators_left > 0 {
                        RunPhase::Generating
                    } else {
                        RunPhase::Closing
                    };
                }
            },
            RunEvent::GeneratorJoined => {
                if self.phase == RunPhase::Generating {
                    self.generators_left = self.generators_left - 1;
                    if self.generators_left == 0 {
                        self.phase = RunPhase::Closing;
                    }
                }
            },
            RunEvent::QueueClosed => {
                if self.phase == RunPhase::Closing {
                    self.phase = if self.writers_left > 0 {
                        RunPhase::Draining
                    } else {
                        RunPhase::Done
                    };
                }
            },
            RunEvent::WriterJoined => {
                if self.phase == RunPhase::Draining {
                    self.writers_left = self.writers_left - 1;
                    if self.writers_left == 0 {
                        self.phase = RunPhase::Done;
                    }
                }
            },
        }
        self.pending()
    }
}

/// The fixed settings of the bulk-load pipeline.
pub struct DataInserterWithTokio {
    generator_threads: u32,
    inserter_threads: u32,
    batch_size: u32,
}

impl DataInserterWithTokio {
    /// Whether every setting is at least one.
    pub open spec fn wf(&self) -> bool {
        &&& self.spec_generator_threads() >= 1
        &&& self.spec_inserter_threads() >= 1
        &&& self.spec_batch_size() >= 1
    }

    pub closed spec fn spec_generator_threads(&self) -> u32 {
        self.generator_threads
    }

    pub closed spec fn spec_inserter_threads(&self) -> u32 {
        self.inserter_threads
    }

    pub closed spec fn spec_batch_size(&self) -> u32 {
        self.batch_size
    }

    /// The default settings: 4 generator workers, 2 writer workers, and
    /// sub-batches of 1000 records.
    pub fn new() -> (settings: DataInserterWithTokio)
        ensures
            settings.wf(),
            settings.spec_generator_threads() == 4,
            settings.spec_inserter_threads() == 2,
            settings.spec_batch_size() == 1000,
    {
        DataInserterWithTokio { generator_threads: 4, inserter_threads: 2, batch_size: 1000 }
    }

    /// Settings with the given worker counts and sub-batch size, if none
    /// of them is zero.
    pub fn with_workers(
        generator_threads: u32,
        inserter_threads: u32,
        batch_size: u32,
    ) -> (settings: Option<DataInserterWithTokio>)
        ensures
            settings is Some <==> generator_threads >= 1 && inserter_threads >= 1 && batch_size
                >= 1,
            settings matches Some(s) ==> s.wf() && s.spec_generator_threads() == generator_threads
                && s.spec_inserter_threads() == inserter_threads && s.spec_batch_size()
                == batch_size,
    {
        if generator_threads >= 1 && inserter_threads >= 1 && batch_size >= 1 {
            Some(DataInserterWithTokio { generator_threads, inserter_threads, batch_size })
        } else {
            None
        }
    }

    #[verifier::when_used_as_spec(spec_generator_threads)]
    pub fn generator_threads(&self) -> (n: u32)
        ensures
            n == self.spec_generator_threads(),
    {
        self.generator_threads
    }

    #[verifier::when_used_as_spec(spec_inserter_threads)]
    pub fn inserter_threads(&self) -> (n: u32)
        ensures
            n == self.spec_inserter_threads(),
    {
        self.inserter_threads
    }

    #[verifier::when_used_as_spec(spec_batch_size)]
    pub fn batch_size(&self) -> (n: u32)
        ensures
            n == self.spec_batch_size(),
    {
        self.batch_size
    }

    /// The assignment of generator worker `worker` for a run of `count`
    /// records, or `None` if nothing is left for it.
    pub fn task(&self, count: u32, worker: u32) -> (task: Option<GeneratorTask>)
        requires
            self.wf(),
        ensures
            task == if worker_share(
                count as nat,
                self.spec_generator_threads() as nat,
                worker as nat,
            ) > 0 {
                Some(
                    worker_task(count as nat, self.spec_generator_threads() as nat, worker as nat),
                )
            } else {
                None
            },
    {
        let workers = self.generator_threads;
        proof {
            lemma_chunks_suffice(count as nat, workers as nat);
        }
        let chunk: u32 = count / workers + if count % workers > 0 {
            1u32
        } else {
            0u32
        };
        proof {
            lemma_shares_sum(count as nat, workers as nat, worker as nat);
            assert((worker + 1) * chunk == worker * chunk + chunk) by (nonlinear_arith);
            assert(worker * chunk <= 0xffff_ffff * 0xffff_ffff) by (nonlinear_arith)
                requires
                    worker <= 0xffff_ffff,
                    chunk <= 0xffff_ffff,
            ;
        }
        let offset: u64 = worker as u64 * chunk as u64;
        if offset >= count as u64 {
            None
        } else {
            let left: u64 = count as u64 - offset;
            let share: u64 = if left < chunk as u64 {
                left
            } else {
                chunk as u64
            };
            Some(GeneratorTask { count: share as u32, start_id: offset as u32 })
        }
    }

    /// The partition plan for `count` records: the assignments of the
    /// generator workers that are started, in worker order. A worker whose
    /// share is zero is skipped.
    pub fn plan(&self, count: u32) -> (tasks: Vec<GeneratorTask>)
        requires
            self.wf(),
        ensures
            tasks@ == plan_prefix(
                count as nat,
                self.spec_generator_threads() as nat,
                self.spec_generator_threads() as nat,
            ),
    {
        let mut tasks: Vec<GeneratorTask> = Vec::new();
        let mut worker: u32 = 0;
        while worker < self.generator_threads
            invariant
                self.wf(),
                worker <= self.spec_generator_threads(),
                tasks@ == plan_prefix(
                    count as nat,
                    self.spec_generator_threads() as nat,
                    worker as nat,
                ),
            decreases self.spec_generator_threads() - worker,
        {
            match self.task(count, worker) {
                Some(task) => {
                    tasks.push(task);
                },
                None => {},
            }
            worker += 1;
        }
        tasks
    }

    /// Begins a run that loads `count` records: plans the generator
    /// workers and sets the number of writer workers. Nothing is started
    /// yet; the run's first action is `RunAction::StartWorkers`.
    pub fn populate(&self, count: u32) -> (run: PopulateRun)
        requires
            self.wf(),
        ensures
            run.wf(),
            run@ == RunView::init(
                plan_prefix(
                    count as nat,
                    self.spec_generator_threads() as nat,
                    self.spec_generator_threads() as nat,
                ),
                self.spec_inserter_threads() as nat,
            ),
    {
        let tasks = self.plan(count);
        let generators_left = tasks.len();
        PopulateRun {
            phase: RunPhase::Starting,
            tasks,
            writers: self.inserter_threads,
            generators_left,
            writers_left: self.inserter_threads,
        }
    }
}

} // verus!
