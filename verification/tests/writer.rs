use person_service::batch_writer::{
    BatchWriter, WriterAction, WriterEvent, WriterOutcome, WriterPhase,
};
use person_service::data_generator::DataGenerator;

fn started(batch_size: u32) -> BatchWriter {
    let mut writer = BatchWriter::new(batch_size);
    assert_eq!(writer.step(WriterEvent::Connected), WriterAction::Begin);
    assert_eq!(writer.step(WriterEvent::Begun), WriterAction::Receive);
    writer
}

fn phones(writer: &BatchWriter) -> Vec<String> {
    writer.rows().iter().map(|p| p.phone.clone()).collect()
}

#[test]
fn new_writer_waits_for_a_connection() {
    let writer = BatchWriter::new(1000);
    assert_eq!(writer.phase(), WriterPhase::Connecting);
    assert_eq!(writer.pending(), WriterAction::Connect);
    assert_eq!(writer.outcome(), None);
    assert!(writer.rows().is_empty());
}

#[test]
fn writer_without_a_connection_stops() {
    let mut writer = BatchWriter::new(1000);
    assert_eq!(writer.step(WriterEvent::ConnectionFailed), WriterAction::Stop);
    assert_eq!(writer.outcome(), Some(WriterOutcome::ConnectionFailed));
    assert_eq!(writer.step(WriterEvent::Connected), WriterAction::Stop);
    assert_eq!(writer.outcome(), Some(WriterOutcome::ConnectionFailed));
}

#[test]
fn writer_without_a_transaction_stops() {
    let mut writer = BatchWriter::new(1000);
    assert_eq!(writer.step(WriterEvent::Connected), WriterAction::Begin);
    assert_eq!(writer.step(WriterEvent::BeginFailed), WriterAction::Stop);
    assert_eq!(writer.outcome(), Some(WriterOutcome::TransactionFailed));
}

#[test]
fn writer_commits_at_the_end_of_the_stream() {
    let mut writer = started(1000);
    assert_eq!(writer.step(WriterEvent::EndOfStream), WriterAction::Commit);
    assert_eq!(writer.phase(), WriterPhase::Committing);
    assert_eq!(writer.step(WriterEvent::Committed), WriterAction::Stop);
    assert_eq!(writer.outcome(), Some(WriterOutcome::Committed));
}

#[test]
fn writer_reports_a_failed_commit() {
    let mut writer = started(1000);
    assert_eq!(writer.step(WriterEvent::EndOfStream), WriterAction::Commit);
    assert_eq!(writer.step(WriterEvent::CommitFailed), WriterAction::Stop);
    assert_eq!(writer.outcome(), Some(WriterOutcome::CommitFailed));
}

#[test]
fn writer_stops_when_the_lock_fails() {
    let mut writer = started(1000);
    assert_eq!(writer.step(WriterEvent::QueueFailed), WriterAction::Stop);
    assert_eq!(writer.outcome(), Some(WriterOutcome::QueueFailed));
}

#[test]
fn batch_is_split_into_sub_batches_of_the_fixed_size() {
    let mut writer = started(1000);
    let batch = DataGenerator::new().generate(2500, 0);
    assert_eq!(writer.step(WriterEvent::Received(batch)), WriterAction::Insert);
    assert_eq!(writer.rows().len(), 1000);
    assert_eq!(writer.rows()[0].phone, "0");
    assert_eq!(writer.rows()[999].phone, "999");
    assert_eq!(writer.step(WriterEvent::Inserted), WriterAction::Insert);
    assert_eq!(writer.rows().len(), 1000);
    assert_eq!(writer.rows()[0].phone, "1000");
    assert_eq!(writer.step(WriterEvent::Inserted), WriterAction::Insert);
    assert_eq!(writer.rows().len(), 500);
    assert_eq!(writer.rows()[0].phone, "2000");
    assert_eq!(writer.rows()[499].phone, "2499");
    assert_eq!(writer.step(WriterEvent::Inserted), WriterAction::Receive);
    assert!(writer.rows().is_empty());
}

#[test]
fn batch_of_exactly_one_sub_batch() {
    let mut writer = started(3);
    assert_eq!(
        writer.step(WriterEvent::Received(DataGenerator::new().generate(3, 40))),
        WriterAction::Insert
    );
    assert_eq!(phones(&writer), vec!["40", "41", "42"]);
    assert_eq!(writer.step(WriterEvent::Inserted), WriterAction::Receive);
}

#[test]
fn small_sub_batches_cover_the_batch_in_order() {
    let mut writer = started(2);
    let mut seen: Vec<String> = Vec::new();
    let mut action = writer.step(WriterEvent::Received(DataGenerator::new().generate(5, 10)));
    while action == WriterAction::Insert {
        assert!(writer.rows().len() <= 2);
        seen.extend(phones(&writer));
        action = writer.step(WriterEvent::Inserted);
    }
    assert_eq!(action, WriterAction::Receive);
    assert_eq!(seen, vec!["10", "11", "12", "13", "14"]);
}

#[test]
fn empty_batch_asks_for_the_next_one() {
    let mut writer = started(1000);
    assert_eq!(writer.step(WriterEvent::Received(Vec::new())), WriterAction::Receive);
    assert_eq!(writer.phase(), WriterPhase::Receiving);
}

#[test]
fn failed_insert_stops_the_writer_without_a_commit() {
    let mut writer = started(1000);
    let batch = DataGenerator::new().generate(2500, 0);
    assert_eq!(writer.step(WriterEvent::Received(batch)), WriterAction::Insert);
    assert_eq!(writer.step(WriterEvent::Inserted), WriterAction::Insert);
    assert_eq!(writer.step(WriterEvent::InsertFailed), WriterAction::Stop);
    assert_eq!(writer.outcome(), Some(WriterOutcome::InsertFailed));
    assert_eq!(writer.step(WriterEvent::Committed), WriterAction::Stop);
    assert_eq!(writer.step(WriterEvent::EndOfStream), WriterAction::Stop);
    assert_eq!(writer.outcome(), Some(WriterOutcome::InsertFailed));
}

#[test]
fn events_that_answer_nothing_change_nothing() {
    let mut writer = BatchWriter::new(10);
    assert_eq!(writer.step(WriterEvent::Begun), WriterAction::Connect);
    assert_eq!(writer.step(WriterEvent::Inserted), WriterAction::Connect);
    assert_eq!(
        writer.step(WriterEvent::Received(DataGenerator::new().generate(1, 1))),
        WriterAction::Connect
    );
    assert_eq!(writer.step(WriterEvent::Committed), WriterAction::Connect);
    assert_eq!(writer.step(WriterEvent::Connected), WriterAction::Begin);
    assert_eq!(writer.step(WriterEvent::Connected), WriterAction::Begin);
    assert_eq!(writer.step(WriterEvent::EndOfStream), WriterAction::Begin);
    assert_eq!(writer.step(WriterEvent::Begun), WriterAction::Receive);
    assert_eq!(writer.step(WriterEvent::Inserted), WriterAction::Receive);
    assert_eq!(writer.step(WriterEvent::Committed), WriterAction::Receive);
    assert_eq!(
        writer.step(WriterEvent::Received(DataGenerator::new().generate(1, 1))),
        WriterAction::Insert
    );
    assert_eq!(
        writer.step(WriterEvent::Received(DataGenerator::new().generate(1, 2))),
        WriterAction::Insert
    );
    assert_eq!(phones(&writer), vec!["1"]);
    assert_eq!(writer.step(WriterEvent::EndOfStream), WriterAction::Insert);
}

#[test]
fn several_batches_one_commit() {
    let mut writer = started(1000);
    for start in [0u32, 625, 1250] {
        let batch = DataGenerator::new().generate(625, start);
        assert_eq!(writer.step(WriterEvent::Received(batch)), WriterAction::Insert);
        assert_eq!(writer.rows().len(), 625);
        assert_eq!(writer.step(WriterEvent::Inserted), WriterAction::Receive);
    }
    assert_eq!(writer.step(WriterEvent::EndOfStream), WriterAction::Commit);
    assert_eq!(writer.step(WriterEvent::Committed), WriterAction::Stop);
}
