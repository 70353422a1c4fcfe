use person_service::batch_writer::{BatchWriter, WriterAction, WriterEvent, WriterOutcome};
use person_service::data_generator::DataGenerator;
use person_service::data_inserter_with_tokio::{DataInserterWithTokio, RunAction, RunEvent};
use person_service::handoff_queue::{HandoffQueue, Received};
use std::collections::HashSet;

/// A store that keeps each writer's rows in a transaction of its own until
/// the writer commits. `fail_insert` names a writer and the number of the
/// insert (from 0) that fails for it.
struct Store {
    table: Vec<String>,
    open: Vec<Vec<String>>,
    inserts: Vec<usize>,
    fail_insert: Option<(usize, usize)>,
    fail_connect: Option<usize>,
}

struct Report {
    table: Vec<String>,
    outcomes: Vec<Option<WriterOutcome>>,
    inserts: Vec<usize>,
    started_generators: usize,
    refused_sends: usize,
}

/// Runs the pipeline on one thread: the generators one after the other,
/// then the writers in turn, one action each, as the run asks for them.
fn simulate(settings: &DataInserterWithTokio, count: u32, mut store: Store) -> Report {
    let mut run = settings.populate(count);
    let mut queue = HandoffQueue::new();
    let mut writers: Vec<BatchWriter> = Vec::new();
    let mut started_generators = 0;
    let mut refused_sends = 0;
    let mut action = run.pending();
    loop {
        match action {
            RunAction::StartWorkers => {
                for task in run.tasks().clone() {
                    queue.clone_producer();
                    started_generators += 1;
                    let batch = DataGenerator::new().generate(task.count, task.start_id);
                    if queue.send(batch).is_err() {
                        refused_sends += 1;
                    }
                    queue.drop_producer();
                }
                for w in 0..run.writers() as usize {
                    queue.clone_consumer();
                    writers.push(BatchWriter::new(settings.batch_size()));
                    store.open.push(Vec::new());
                    store.inserts.push(0);
                    let event = if store.fail_connect == Some(w) {
                        WriterEvent::ConnectionFailed
                    } else {
                        WriterEvent::Connected
                    };
                    if writers[w].step(event) == WriterAction::Begin {
                        writers[w].step(WriterEvent::Begun);
                    } else {
                        queue.drop_consumer();
                    }
                }
                queue.drop_consumer();
                action = run.step(RunEvent::WorkersStarted);
            }
            RunAction::AwaitGenerator => {
                action = run.step(RunEvent::GeneratorJoined);
            }
            RunAction::CloseQueue => {
                queue.drop_producer();
                action = run.step(RunEvent::QueueClosed);
            }
            RunAction::AwaitWriter => {
                let mut busy = true;
                while busy {
                    busy = false;
                    for w in 0..writers.len() {
                        if turn(&mut writers[w], w, &mut queue, &mut store) {
                            busy = true;
                        }
                    }
                }
                for _ in 0..writers.len() {
                    action = run.step(RunEvent::WriterJoined);
                }
            }
            RunAction::Finish => break,
        }
    }
    Report {
        table: store.table,
        outcomes: writers.iter().map(|w| w.outcome()).collect(),
        inserts: store.inserts,
        started_generators,
        refused_sends,
    }
}

/// Lets one writer do the one action it waits for. Returns whether it did
/// anything.
fn turn(writer: &mut BatchWriter, w: usize, queue: &mut HandoffQueue, store: &mut Store) -> bool {
    match writer.pending() {
        WriterAction::Receive => {
            match queue.recv() {
                Received::Batch(batch) => writer.step(WriterEvent::Received(batch)),
                Received::Closed => writer.step(WriterEvent::EndOfStream),
                Received::Empty => return false,
            };
            true
        }
        WriterAction::Insert => {
            if store.fail_insert == Some((w, store.inserts[w])) {
                writer.step(WriterEvent::InsertFailed);
                queue.drop_consumer();
            } else {
                assert!(!writer.rows().is_empty());
                assert!(writer.rows().len() <= 1000);
                let rows: Vec<String> = writer.rows().iter().map(|p| p.phone.clone()).collect();
                store.open[w].extend(rows);
                store.inserts[w] += 1;
                writer.step(WriterEvent::Inserted);
            }
            true
        }
        WriterAction::Commit => {
            let rows = std::mem::take(&mut store.open[w]);
            store.table.extend(rows);
            writer.step(WriterEvent::Committed);
            queue.drop_consumer();
            true
        }
        WriterAction::Connect | WriterAction::Begin | WriterAction::Stop => false,
    }
}

fn healthy() -> Store {
    Store {
        table: Vec::new(),
        open: Vec::new(),
        inserts: Vec::new(),
        fail_insert: None,
        fail_connect: None,
    }
}

#[test]
fn populate_of_nothing_inserts_nothing() {
    let report = simulate(&DataInserterWithTokio::new(), 0, healthy());
    assert_eq!(report.started_generators, 0);
    assert!(report.table.is_empty());
    assert_eq!(report.inserts, vec![0, 0]);
    assert_eq!(
        report.outcomes,
        vec![Some(WriterOutcome::Committed), Some(WriterOutcome::Committed)]
    );
}

#[test]
fn populate_of_2500_inserts_2500_rows() {
    let report = simulate(&DataInserterWithTokio::new(), 2500, healthy());
    assert_eq!(report.started_generators, 4);
    assert_eq!(report.refused_sends, 0);
    assert_eq!(report.table.len(), 2500);
    let distinct: HashSet<&String> = report.table.iter().collect();
    assert_eq!(distinct.len(), 2500);
    let mut n = 0;
    while n < 2500 {
        assert!(distinct.contains(&format!("{}", n)));
        n += 1;
    }
    assert_eq!(report.inserts.iter().sum::<usize>(), 4);
    assert_eq!(
        report.outcomes,
        vec![Some(WriterOutcome::Committed), Some(WriterOutcome::Committed)]
    );
}

#[test]
fn populate_with_large_batches_splits_them() {
    let settings = DataInserterWithTokio::with_workers(1, 1, 1000).unwrap();
    let report = simulate(&settings, 2500, healthy());
    assert_eq!(report.table.len(), 2500);
    assert_eq!(report.inserts, vec![3]);
    assert_eq!(report.table[0], "0");
    assert_eq!(report.table[2499], "2499");
}

#[test]
fn populate_with_one_worker_each_keeps_the_order() {
    let settings = DataInserterWithTokio::with_workers(1, 1, 7).unwrap();
    let report = simulate(&settings, 100, healthy());
    let expected: Vec<String> = (0..100).map(|n| format!("{}", n)).collect();
    assert_eq!(report.table, expected);
    assert_eq!(report.inserts, vec![15]);
}

#[test]
fn failed_insert_loses_what_that_writer_received_and_nothing_else() {
    let mut store = healthy();
    store.fail_insert = Some((0, 1));
    let report = simulate(&DataInserterWithTokio::new(), 2500, store);
    assert_eq!(
        report.outcomes,
        vec![Some(WriterOutcome::InsertFailed), Some(WriterOutcome::Committed)]
    );
    // Writer 0 took the batches at 0 and at 1250, inserted the first and
    // failed on the second: both are lost. Writer 1 took the other two.
    assert_eq!(report.table.len(), 2500 - 2 * 625);
    let distinct: HashSet<&String> = report.table.iter().collect();
    assert_eq!(distinct.len(), report.table.len());
    assert!(!distinct.contains(&String::from("0")));
    assert!(!distinct.contains(&String::from("1250")));
    assert!(distinct.contains(&String::from("625")));
    assert!(distinct.contains(&String::from("1875")));
    assert!(distinct.contains(&String::from("2499")));
}

#[test]
fn failed_first_insert_loses_exactly_the_rows_not_yet_inserted() {
    let mut store = healthy();
    store.fail_insert = Some((1, 0));
    let report = simulate(&DataInserterWithTokio::new(), 2500, store);
    assert_eq!(
        report.outcomes,
        vec![Some(WriterOutcome::Committed), Some(WriterOutcome::InsertFailed)]
    );
    assert_eq!(report.inserts[1], 0);
    assert_eq!(report.table.len(), 2500 - 625);
    let distinct: HashSet<&String> = report.table.iter().collect();
    assert_eq!(distinct.len(), report.table.len());
    assert!(!distinct.contains(&String::from("625")));
    assert!(!distinct.contains(&String::from("1249")));
}

#[test]
fn writer_without_connection_leaves_the_work_to_the_other() {
    let mut store = healthy();
    store.fail_connect = Some(0);
    let report = simulate(&DataInserterWithTokio::new(), 2500, store);
    assert_eq!(
        report.outcomes,
        vec![Some(WriterOutcome::ConnectionFailed), Some(WriterOutcome::Committed)]
    );
    assert_eq!(report.table.len(), 2500);
}

#[test]
fn no_row_is_inserted_twice_with_many_writers() {
    for writers in [2u32, 3, 5] {
        let settings = DataInserterWithTokio::with_workers(8, writers, 3).unwrap();
        let report = simulate(&settings, 1000, healthy());
        assert_eq!(report.table.len(), 1000);
        let distinct: HashSet<&String> = report.table.iter().collect();
        assert_eq!(distinct.len(), 1000);
    }
}

#[test]
fn row_count_does_not_depend_on_the_distribution() {
    let knobs = [(1u32, 1u32, 1u32), (4, 2, 1000), (7, 3, 10), (16, 1, 64)];
    for (generators, writers, batch) in knobs {
        let settings = DataInserterWithTokio::with_workers(generators, writers, batch).unwrap();
        for count in [0u32, 1, 2, 5, 63, 64, 65, 2500] {
            let report = simulate(&settings, count, healthy());
            assert_eq!(report.table.len(), count as usize);
        }
    }
}
