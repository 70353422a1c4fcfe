use person_service::server_state::ServerState;

#[test]
fn new_state_holds_nobody() {
    let state = ServerState::new();
    assert!(state.get_person(0).is_none());
    assert!(state.get_person(1).is_none());
    assert!(state.get_person(u32::MAX).is_none());
    assert!(state.has_room());
}

#[test]
fn added_person_is_found_with_its_name_and_age() {
    let mut state = ServerState::new();
    let id = state.add_person(String::from("Ann"), 30);
    let person = state.get_person(id).unwrap();
    assert_eq!(person.id, id);
    assert_eq!(person.name, "Ann");
    assert_eq!(person.email, "30");
    assert_eq!(person.phone, "");
    assert_eq!(person.address, "");
    assert_eq!(person.city, "");
    assert_eq!(person.state, "");
    assert_eq!(person.version, 0);
}

#[test]
fn ids_are_given_out_in_sequence_from_one() {
    let mut state = ServerState::new();
    assert_eq!(state.add_person(String::from("a"), 1), 1);
    assert_eq!(state.add_person(String::from("b"), 2), 2);
    assert_eq!(state.add_person(String::from("c"), 3), 3);
    assert_eq!(state.get_person(2).unwrap().name, "b");
    assert!(state.get_person(0).is_none());
    assert!(state.get_person(4).is_none());
}

#[test]
fn update_of_a_missing_id_changes_nothing() {
    let mut state = ServerState::new();
    assert!(!state.update_person(1, String::from("x"), 1));
    assert!(state.get_person(1).is_none());
    let id = state.add_person(String::from("Ann"), 30);
    assert!(!state.update_person(id + 1, String::from("Bob"), 40));
    assert!(!state.update_person(0, String::from("Bob"), 40));
    let person = state.get_person(id).unwrap();
    assert_eq!(person.name, "Ann");
    assert_eq!(person.email, "30");
    assert!(state.get_person(id + 1).is_none());
    assert_eq!(state.add_person(String::from("next"), 0), id + 1);
}

#[test]
fn update_of_a_stored_id_shows_in_the_next_get() {
    let mut state = ServerState::new();
    let ann = state.add_person(String::from("Ann"), 30);
    let bob = state.add_person(String::from("Bob"), 41);
    assert!(state.update_person(ann, String::from("Anna"), 31));
    let person = state.get_person(ann).unwrap();
    assert_eq!(person.id, ann);
    assert_eq!(person.name, "Anna");
    assert_eq!(person.email, "31");
    assert_eq!(person.version, 0);
    let other = state.get_person(bob).unwrap();
    assert_eq!(other.name, "Bob");
    assert_eq!(other.email, "41");
}
