use person_service::data_generator::DataGenerator;
use person_service::data_inserter_with_tokio::DataInserterWithTokio;
use std::collections::HashSet;

#[test]
fn generate_derives_every_field_from_the_sequence_number() {
    let batch = DataGenerator::new().generate(3, 5);
    assert_eq!(batch.len(), 3);
    for (i, p) in batch.iter().enumerate() {
        let n = 5 + i;
        assert_eq!(p.id, 0);
        assert_eq!(p.name, format!("name {}", n));
        assert_eq!(p.email, format!("email{}@example.com", n));
        assert_eq!(p.phone, format!("{}", n));
        assert_eq!(p.address, format!("address {}", n));
        assert_eq!(p.city, format!("city {}", n));
        assert_eq!(p.state, format!("state {}", n));
        assert_eq!(p.version, 0);
    }
}

#[test]
fn generate_of_nothing_is_empty() {
    assert!(DataGenerator::new().generate(0, 0).is_empty());
    assert!(DataGenerator::new().generate(0, 17).is_empty());
}

#[test]
fn generate_one_record_at_zero() {
    let batch = DataGenerator::new().generate(1, 0);
    assert_eq!(batch.len(), 1);
    assert_eq!(batch[0].name, "name 0");
    assert_eq!(batch[0].email, "email0@example.com");
    assert_eq!(batch[0].phone, "0");
}

#[test]
fn generate_past_the_largest_offset_keeps_counting() {
    let batch = DataGenerator::new().generate(2, u32::MAX);
    assert_eq!(batch[0].phone, "4294967295");
    assert_eq!(batch[1].phone, "4294967296");
    assert_eq!(batch[1].name, "name 4294967296");
}

#[test]
fn person_is_the_record_of_one_number() {
    let p = DataGenerator::new().person(1234);
    assert_eq!(p.name, "name 1234");
    assert_eq!(p.email, "email1234@example.com");
    assert_eq!(p.phone, "1234");
    assert_eq!(p.address, "address 1234");
    assert_eq!(p.city, "city 1234");
    assert_eq!(p.state, "state 1234");
}

#[test]
fn records_of_a_whole_run_are_pairwise_distinct() {
    for count in [1u32, 2, 5, 7, 100, 2500] {
        let settings = DataInserterWithTokio::new();
        let mut names = HashSet::new();
        let mut emails = HashSet::new();
        let mut phones = HashSet::new();
        let mut total = 0;
        for task in settings.plan(count) {
            for p in DataGenerator::new().generate(task.count, task.start_id) {
                assert!(names.insert(p.name));
                assert!(emails.insert(p.email));
                assert!(phones.insert(p.phone));
                total += 1;
            }
        }
        assert_eq!(total, count);
        let mut n = 0;
        while n < count {
            assert!(phones.contains(&format!("{}", n)));
            n += 1;
        }
    }
}

#[test]
fn clone_of_a_person_keeps_every_field() {
    let p = DataGenerator::new().person(9);
    let q = p.clone();
    assert_eq!(q.id, p.id);
    assert_eq!(q.name, p.name);
    assert_eq!(q.email, p.email);
    assert_eq!(q.phone, p.phone);
    assert_eq!(q.address, p.address);
    assert_eq!(q.city, p.city);
    assert_eq!(q.state, p.state);
    assert_eq!(q.version, p.version);
}
