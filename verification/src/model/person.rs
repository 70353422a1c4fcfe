use vstd::prelude::*;

verus! {

/// One stored record.
///
/// `id` is 0 until the store has assigned one; `version` starts at 0.
pub struct Person {
    pub id: u32,
    pub name: String,
    pub email: String,
    pub phone: String,
    pub address: String,
    pub city: String,
    pub state: String,
    pub version: u32,
}

/// The mathematical value of a `Person`: its numbers and the text of its fields.
pub struct PersonView {
    pub id: u32,
    pub name: Seq<char>,
    pub email: Seq<char>,
    pub phone: Seq<char>,
    pub address: Seq<char>,
    pub city: Seq<char>,
    pub state: Seq<char>,
    pub version: u32,
}

impl View for Person {
    type V = PersonView;

    open spec fn view(&self) -> PersonView {
        PersonView {
            id: self.id,
            name: self.name@,
            email: self.email@,
            phone: self.phone@,
            address: self.address@,
            city: self.city@,
            state: self.state@,
            version: self.version,
        }
    }
}

impl Clone for Person {
    fn clone(&self) -> (copy: Person)
        ensures
            copy@ == self@,
    {
        Person {
            id: self.id,
            name: self.name.clone(),
            email: self.email.clone(),
            phone: self.phone.clone(),
            address: self.address.clone(),
            city: self.city.clone(),
            state: self.state.clone(),
            version: self.version,
        }
    }
}

} // verus!
