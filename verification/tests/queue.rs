use person_service::data_generator::DataGenerator;
use person_service::handoff_queue::{HandoffQueue, Received};

fn first_phone(received: Received) -> String {
    match received {
        Received::Batch(batch) => batch[0].phone.clone(),
        Received::Empty => String::from("<empty>"),
        Received::Closed => String::from("<closed>"),
    }
}

#[test]
fn new_queue_is_empty_with_one_handle_each() {
    let queue = HandoffQueue::new();
    assert_eq!(queue.len(), 0);
    assert_eq!(queue.producers(), 1);
    assert_eq!(queue.consumers(), 1);
}

#[test]
fn batches_come_out_in_the_order_they_went_in() {
    let generator = DataGenerator::new();
    let mut queue = HandoffQueue::new();
    assert!(queue.send(generator.generate(2, 10)).is_ok());
    assert!(queue.send(generator.generate(3, 20)).is_ok());
    assert!(queue.send(generator.generate(1, 30)).is_ok());
    assert_eq!(queue.len(), 3);
    assert_eq!(first_phone(queue.recv()), "10");
    assert_eq!(first_phone(queue.recv()), "20");
    assert_eq!(queue.len(), 1);
    assert_eq!(first_phone(queue.recv()), "30");
    assert_eq!(first_phone(queue.recv()), "<empty>");
}

#[test]
fn a_batch_is_delivered_once() {
    let mut queue = HandoffQueue::new();
    assert!(queue.send(DataGenerator::new().generate(4, 0)).is_ok());
    match queue.recv() {
        Received::Batch(batch) => assert_eq!(batch.len(), 4),
        _ => panic!("the batch was not delivered"),
    }
    assert!(matches!(queue.recv(), Received::Empty));
    assert_eq!(queue.len(), 0);
}

#[test]
fn empty_queue_closes_when_the_last_producer_goes() {
    let mut queue = HandoffQueue::new();
    queue.clone_producer();
    assert_eq!(queue.producers(), 2);
    assert!(matches!(queue.recv(), Received::Empty));
    queue.drop_producer();
    assert!(matches!(queue.recv(), Received::Empty));
    queue.drop_producer();
    assert_eq!(queue.producers(), 0);
    assert!(matches!(queue.recv(), Received::Closed));
    queue.drop_producer();
    assert_eq!(queue.producers(), 0);
}

#[test]
fn closed_queue_is_drained_before_the_end_is_seen() {
    let mut queue = HandoffQueue::new();
    assert!(queue.send(DataGenerator::new().generate(1, 7)).is_ok());
    queue.drop_producer();
    assert_eq!(first_phone(queue.recv()), "7");
    assert!(matches!(queue.recv(), Received::Closed));
    assert!(matches!(queue.recv(), Received::Closed));
}

#[test]
fn send_is_refused_when_no_consumer_is_left() {
    let mut queue = HandoffQueue::new();
    queue.clone_consumer();
    queue.drop_consumer();
    assert!(queue.send(DataGenerator::new().generate(1, 1)).is_ok());
    queue.drop_consumer();
    assert_eq!(queue.consumers(), 0);
    match queue.send(DataGenerator::new().generate(2, 50)) {
        Err(back) => {
            assert_eq!(back.len(), 2);
            assert_eq!(back[0].phone, "50");
        }
        Ok(()) => panic!("the send was accepted"),
    }
    assert_eq!(queue.len(), 1);
    queue.drop_consumer();
    assert_eq!(queue.consumers(), 0);
}

#[test]
fn closed_queue_takes_no_more_batches_and_no_more_producers() {
    let mut queue = HandoffQueue::new();
    queue.drop_producer();
    assert_eq!(queue.producers(), 0);
    match queue.send(DataGenerator::new().generate(1, 3)) {
        Err(back) => assert_eq!(back[0].phone, "3"),
        Ok(()) => panic!("the send was accepted"),
    }
    assert_eq!(queue.len(), 0);
    queue.clone_producer();
    assert_eq!(queue.producers(), 0);
    assert!(matches!(queue.recv(), Received::Closed));
}
