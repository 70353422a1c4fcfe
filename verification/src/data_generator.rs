//! The record factory: synthetic `Person` records derived from a sequence
//! number, so that different numbers never give colliding records.

use crate::model::person::{Person, PersonView};
use crate::text::{decimal, lemma_decimal_injective, push_decimal};
use vstd::prelude::*;

verus! {

/// The synthetic record with sequence number `n`.
///
/// Every text field is derived from `n`; `id` and `version` are 0, the
/// store assigns the id.
pub open spec fn synthetic_person(n: nat) -> PersonView {
    PersonView {
        id: 0,
        name: "name "@ + decimal(n),
        email: "email"@ + decimal(n) + "@example.com"@,
        phone: decimal(n),
        address: "address "@ + decimal(n),
        city: "city "@ + decimal(n),
        state: "state "@ + decimal(n),
        version: 0,
    }
}

/// The batch of `count` synthetic records numbered `start`, `start + 1`, ...
pub open spec fn synthetic_batch(count: nat, start: nat) -> Seq<PersonView> {
    Seq::new(count, |i: int| synthetic_person((start + i) as nat))
}

/// The values of the records of a batch, in order.
pub open spec fn views(batch: Seq<Person>) -> Seq<PersonView> {
    batch.map_values(|p: Person| p@)
}

/// The values of a batch with one more record are the values of the batch
/// with one more value.
pub proof fn lemma_views_push(batch: Seq<Person>, p: Person)
    ensures
        views(batch.push(p)) == views(batch).push(p@),
{
    assert(views(batch.push(p)).len() == batch.len() + 1);
    assert forall|j: int| 0 <= j < batch.len() + 1 implies views(batch.push(p))[j] == views(
        batch,
    ).push(p@)[j] by {
        if j < batch.len() {
            assert(batch.push(p)[j] == batch[j]);
        }
    }
}

/// Records with different sequence numbers differ in name, in email and in
/// phone.
pub proof fn lemma_synthetic_distinct(a: nat, b: nat)
    requires
        a != b,
    ensures
        synthetic_person(a).name != synthetic_person(b).name,
        synthetic_person(a).email != synthetic_person(b).email,
        synthetic_person(a).phone != synthetic_person(b).phone,
{
    let da = decimal(a);
    let db = decimal(b);
    if da == db {
        lemma_decimal_injective(a, b);
    }
    let name = "name "@;
    if name + da == name + db {
        assert((name + da).subrange(name.len() as int, (name + da).len() as int) == da);
        assert((name + db).subrange(name.len() as int, (name + db).len() as int) == db);
    }
    let pre = "email"@;
    let post = "@example.com"@;
    if pre + da + post == pre + db + post {
        assert((pre + da + post).len() == pre.len() + da.len() + post.len());
        assert((pre + db + post).len() == pre.len() + db.len() + post.len());
        assert((pre + da + post).subrange(pre.len() as int, (pre.len() + da.len()) as int) == da);
        assert((pre + db + post).subrange(pre.len() as int, (pre.len() + db.len()) as int) == db);
    }
}

/// The records of a batch are pairwise different.
pub proof fn lemma_batch_distinct(count: nat, start: nat)
    ensures
        synthetic_batch(count, start).no_duplicates(),
{
    let rows = synthetic_batch(count, start);
    assert forall|i: int, j: int|
        0 <= i < rows.len() && 0 <= j < rows.len() && i != j implies rows[i] != rows[j] by {
        lemma_synthetic_distinct((start + i) as nat, (start + j) as nat);
    }
}

/// The record factory.
pub struct DataGenerator;

impl DataGenerator {
    /// A record factory. It holds nothing: every record it makes depends
    /// on the sequence number alone.
    pub fn new() -> (generator: DataGenerator) {
        DataGenerator
    }

    /// The record with sequence number `n`.
    pub fn person(&self, n: u64) -> (p: Person)
        ensures
            p@ == synthetic_person(n as nat),
    {
        let mut name = "name ".to_owned();
        push_decimal(&mut name, n);
        let mut email = "email".to_owned();
        push_decimal(&mut email, n);
        email.append("@example.com");
        let mut phone = String::new();
        push_decimal(&mut phone, n);
        let mut address = "address ".to_owned();
        push_decimal(&mut address, n);
        let mut city = "city ".to_owned();
        push_decimal(&mut city, n);
        let mut state = "state ".to_owned();
        push_decimal(&mut state, n);
        Person { id: 0, name, email, phone, address, city, state, version: 0 }
    }

    /// Produces `count` records, the one at position `i` with sequence
    /// number `start_id + i`.
    pub fn generate(&self, count: u32, start_id: u32) -> (batch: Vec<Person>)
        ensures
            batch@.len() == count,
            forall|i: int|
                0 <= i < count ==> (#[trigger] batch@[i])@ == synthetic_person(
                    (start_id + i) as nat,
                ),
            views(batch@) == synthetic_batch(count as nat, start_id as nat),
    {
        let mut batch: Vec<Person> = Vec::new();
        let mut i: u32 = 0;
        while i < count
            invariant
                i <= count,
                views(batch@) == synthetic_batch(i as nat, start_id as nat),
            decreases count - i,
        {
            let p = self.person(start_id as u64 + i as u64);
            let ghost before = batch@;
            batch.push(p);
            proof {
                lemma_views_push(before, p);
                assert(synthetic_batch((i + 1) as nat, start_id as nat) == synthetic_batch(
                    i as nat,
                    start_id as nat,
                ).push(synthetic_person((start_id + i) as nat)));
            }
            i += 1;
        }
        proof {
            assert forall|j: int| 0 <= j < count implies (#[trigger] batch@[j])@
                == synthetic_person((start_id + j) as nat) by {
                assert(views(batch@)[j] == batch@[j]@);
            }
        }
        batch
    }
}

} // verus!
