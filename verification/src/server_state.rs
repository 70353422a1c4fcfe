//! The server's state: the stored persons, by id, and the next id to give
//! out. The server keeps one such value behind one lock, held for one
//! operation at a time.

use crate::model::person::{Person, PersonView};
use crate::text::{decimal, decimal_string};
use vstd::prelude::*;

verus! {

/// The mathematical value of the state.
pub struct StateView {
    /// The stored persons, by id.
    pub persons: Map<u32, PersonView>,
    /// The id that the next person gets.
    pub next_id: nat,
}

/// The record of a person that was entered with a name and an age. The age
/// is kept as a decimal numeral in the field that follows the name; a
/// person has no field of its own for it.
pub open spec fn entered_person(id: u32, name: Seq<char>, age: u32) -> PersonView {
    PersonView {
        id,
        name,
        email: decimal(age as nat),
        phone: Seq::empty(),
        address: Seq::empty(),
        city: Seq::empty(),
        state: Seq::empty(),
        version: 0,
    }
}

impl StateView {
    /// The state of a new server: nobody is stored, and ids start at 1.
    pub open spec fn init() -> StateView {
        StateView { persons: Map::empty(), next_id: 1 }
    }

    /// The state's invariant: the ids that are taken are those from 1 up
    /// to the next id, and each person is stored under its own id.
    pub open spec fn wf(self) -> bool {
        &&& 1 <= self.next_id <= u32::MAX + 1
        &&& forall|id: u32| self.persons.contains_key(id) <==> 1 <= id < self.next_id
        &&& forall|id: u32| self.persons.contains_key(id) ==> (#[trigger] self.persons[id]).id == id
    }

    /// Whether an id is left for one more person.
    pub open spec fn has_room(self) -> bool {
        self.next_id <= u32::MAX
    }

    /// The person with this id, if one is stored.
    pub open spec fn get(self, id: u32) -> Option<PersonView> {
        if self.persons.contains_key(id) {
            Some(self.persons[id])
        } else {
            None
        }
    }

    /// The state after a person with this name and age was added under
    /// the next id.
    pub open spec fn add(self, name: Seq<char>, age: u32) -> StateView {
        StateView {
            persons: self.persons.insert(
                self.next_id as u32,
                entered_person(self.next_id as u32, name, age),
            ),
            next_id: self.next_id + 1,
        }
    }

    /// The state after the name and the age of the person with this id
    /// were replaced. Nothing changes where no such person is stored.
    pub open spec fn update(self, id: u32, name: Seq<char>, age: u32) -> StateView {
        if self.persons.contains_key(id) {
            StateView {
                persons: self.persons.insert(
                    id,
                    PersonView { name, email: decimal(age as nat), ..self.persons[id] },
                ),
                ..self
            }
        } else {
            self
        }
    }
}

/// A person that was added is found under the id it was given, with the
/// name and the age it was added with.
pub proof fn lemma_add_then_get(s: StateView, name: Seq<char>, age: u32)
    requires
        s.wf(),
        s.has_room(),
    ensures
        s.add(name, age).wf(),
        s.add(name, age).get(s.next_id as u32) == Some(
            entered_person(s.next_id as u32, name, age),
        ),
        s.get(s.next_id as u32) is None,
        forall|id: u32| id != s.next_id ==> s.add(name, age).get(id) == s.get(id),
{
}

/// An update of an id that is not stored leaves the state as it was.
pub proof fn lemma_update_missing(s: StateView, id: u32, name: Seq<char>, age: u32)
    requires
        s.get(id) is None,
    ensures
        s.update(id, name, age) == s,
{
}

/// After an update of an id that is stored, the person found under it
/// has the new name and the new age, and is otherwise as before; every
/// other person is as before.
pub proof fn lemma_update_then_get(s: StateView, id: u32, name: Seq<char>, age: u32)
    requires
        s.wf(),
        s.get(id) is Some,
    ensures
        s.update(id, name, age).wf(),
        s.update(id, name, age).get(id) == Some(
            PersonView { name, email: decimal(age as nat), ..s.get(id).unwrap() },
        ),
        forall|other: u32| other != id ==> s.update(id, name, age).get(other) == s.get(other),
{
}

/// The server's state.
pub struct ServerState {
    persons: Vec<Person>,
}

impl View for ServerState {
    type V = StateView;

    closed spec fn view(&self) -> StateView {
        StateView {
            persons: Map::new(
                |id: u32| 1 <= id <= self.persons@.len(),
                |id: u32| self.persons@[id - 1]@,
            ),
            next_id: self.persons@.len() + 1,
        }
    }
}

impl ServerState {
    /// The state's invariant.
    pub closed spec fn wf(&self) -> bool {
        &&& self.persons@.len() <= u32::MAX
        &&& forall|i: int|
            0 <= i < self.persons@.len() ==> (#[trigger] self.persons@[i]).id == i + 1
    }

    /// A state that keeps its invariant has a value that keeps its own.
    pub proof fn lemma_wf(&self)
        requires
            self.wf(),
        ensures
            self@.wf(),
    {
    }

    /// The state of a new server.
    pub fn new() -> (state: ServerState)
        ensures
            state.wf(),
            state@ == StateView::init(),
    {
        let state = ServerState { persons: Vec::new() };
        assert(state@.persons =~= Map::empty());
        state
    }

    /// Tells whether an id is left for one more person.
    pub fn has_room(&self) -> (b: bool)
        requires
            self.wf(),
        ensures
            b == self@.has_room(),
    {
        self.persons.len() < 0xffff_ffff
    }

    /// Looks up the person with this id.
    pub fn get_person(&self, id: u32) -> (person: Option<Person>)
        requires
            self.wf(),
        ensures
            match person {
                Some(p) => self@.get(id) == Some(p@),
                None => self@.get(id) is None,
            },
    {
        if id >= 1 && id as usize <= self.persons.len() {
            Some(self.persons[id as usize - 1].clone())
        } else {
            None
        }
    }

    /// Stores a new person with this name and age and returns the id it
    /// was given: the next one in sequence.
    pub fn add_person(&mut self, name: String, age: u32) -> (id: u32)
        requires
            old(self).wf(),
            old(self)@.has_room(),
        ensures
            final(self).wf(),
            final(self)@ == old(self)@.add(name@, age),
            id == old(self)@.next_id,
    {
        let id: u32 = self.persons.len() as u32 + 1;
        let person = Person {
            id,
            name,
            email: decimal_string(age as u64),
            phone: String::new(),
            address: String::new(),
            city: String::new(),
            state: String::new(),
            version: 0,
        };
        self.persons.push(person);
        assert(self@.persons =~= old(self)@.add(name@, age).persons);
        id
    }

    /// Replaces the name and the age of the person with this id, and tells
    /// whether there was one. Where there was none, nothing changes.
    pub fn update_person(&mut self, id: u32, name: String, age: u32) -> (existed: bool)
        requires
            old(self).wf(),
        ensures
            final(self).wf(),
            existed == old(self)@.get(id) is Some,
            final(self)@ == old(self)@.update(id, name@, age),
    {
        if id >= 1 && id as usize <= self.persons.len() {
            let at = id as usize - 1;
            let before = self.persons[at].clone();
            let person = Person {
                id: before.id,
                name,
                email: decimal_string(age as u64),
                phone: before.phone,
                address: before.address,
                city: before.city,
                state: before.state,
                version: before.version,
            };
            self.persons.set(at, person);
            assert(self@.persons =~= old(self)@.update(id, name@, age).persons);
            true
        } else {
            false
        }
    }
}

} // verus!
