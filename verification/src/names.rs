//! A table of names in which each name has a number: its place in the order
//! in which the names were first entered. It is kept in an `IndexSet`.

use indexmap::IndexSet;
use vstd::prelude::*;

verus! {

#[verifier::external_type_specification]
#[verifier::external_body]
#[verifier::reject_recursive_types(T)]
#[verifier::reject_recursive_types(S)]
pub struct ExIndexSet<T, S>(IndexSet<T, S>);

/// The names that `set` holds, in the order in which they were inserted.
pub uninterp spec fn index_set_names(set: IndexSet<String>) -> Seq<Seq<char>>;

/// Calls `IndexSet::new`. Claimed of it: the new set holds nothing.
#[verifier::external_body]
fn index_set_new() -> (set: IndexSet<String>)
    ensures
        index_set_names(set).len() == 0,
{
    IndexSet::new()
}

/// Calls `IndexSet::insert_full`. Claimed of it: where the set holds an
/// equal name, the set stays as it is, and the place of that name comes
/// back with `false`; else the name is put behind the others, and its place
/// comes back with `true`.
#[verifier::external_body]
fn index_set_insert_full(set: &mut IndexSet<String>, name: String) -> (r: (usize, bool))
    ensures
        r.1 == !index_set_names(*old(set)).contains(name@),
        r.1 ==> index_set_names(*final(set)) == index_set_names(*old(set)).push(name@) && r.0
            == index_set_names(*old(set)).len(),
        !r.1 ==> index_set_names(*final(set)) == index_set_names(*old(set)) && r.0 < index_set_names(
            *old(set),
        ).len() && index_set_names(*old(set))[r.0 as int] == name@,
{
    set.insert_full(name)
}

/// Calls `IndexSet::get_index_of`. Claimed of it: it gives a place at which
/// the set holds `name`, and `None` where the set does not hold it.
#[verifier::external_body]
fn index_set_get_index_of(set: &IndexSet<String>, name: &str) -> (r: Option<usize>)
    ensures
        match r {
            Some(i) => i < index_set_names(*set).len() && index_set_names(*set)[i as int] == name@,
            None => !index_set_names(*set).contains(name@),
        },
{
    set.get_index_of(name)
}

/// Calls `IndexSet::get_index`. Claimed of it: it gives the name at the
/// place `i`, and `None` where the set has no such place.
#[verifier::external_body]
fn index_set_get_index(set: &IndexSet<String>, i: usize) -> (r: Option<&String>)
    ensures
        match r {
            Some(name) => i < index_set_names(*set).len() && name@ == index_set_names(*set)[i as int],
            None => i >= index_set_names(*set).len(),
        },
{
    set.get_index(i)
}

/// Calls `IndexSet::len`. Claimed of it: it gives the number of names held.
#[verifier::external_body]
fn index_set_len(set: &IndexSet<String>) -> (n: usize)
    ensures
        n == index_set_names(*set).len(),
{
    set.len()
}

/// `table` with `name` behind, unless `table` has it.
pub open spec fn with_name(table: Seq<Seq<char>>, name: Seq<char>) -> Seq<Seq<char>> {
    if table.contains(name) {
        table
    } else {
        table.push(name)
    }
}

/// `table` with the first `upto` names of `names` entered in turn.
pub open spec fn with_names(table: Seq<Seq<char>>, names: Seq<Seq<char>>, upto: int) -> Seq<Seq<char>>
    decreases upto,
{
    if upto <= 0 || upto > names.len() {
        table
    } else {
        with_name(with_names(table, names, upto - 1), names[upto - 1])
    }
}

/// The names of a table, each with its place as its number.
pub struct NameTable {
    pub set: IndexSet<String>,
}

impl NameTable {
    /// The names in the order of their numbers.
    pub open spec fn view(&self) -> Seq<Seq<char>> {
        index_set_names(self.set)
    }

    /// No name is held twice.
    pub open spec fn wf(&self) -> bool {
        self@.no_duplicates()
    }

    /// The table without a name.
    pub fn new() -> (table: NameTable)
        ensures
            table@.len() == 0,
            table.wf(),
    {
        NameTable { set: index_set_new() }
    }

    /// Enters `name`, unless the table has it, and gives its number.
    pub fn intern(&mut self, name: String) -> (id: usize)
        requires
            old(self).wf(),
        ensures
            final(self).wf(),
            final(self)@ == with_name(old(self)@, name@),
            id < final(self)@.len(),
            final(self)@[id as int] == name@,
    {
        let ghost before = self@;
        let r = index_set_insert_full(&mut self.set, name);
        proof {
            if r.1 {
                assert forall|a: int, b: int| 0 <= a < self@.len() && 0 <= b < self@.len() && a != b implies self@[a]
                    != self@[b] by {
                    if a == before.len() {
                        assert(before[b] == self@[b]);
                    } else if b == before.len() {
                        assert(before[a] == self@[a]);
                    } else {
                        assert(before[a] == self@[a] && before[b] == self@[b]);
                    }
                }
            }
        }
        r.0
    }

    /// The number of `name`, where the table has it.
    pub fn find(&self, name: &str) -> (id: Option<usize>)
        requires
            self.wf(),
        ensures
            match id {
                Some(i) => i < self@.len() && self@[i as int] == name@ && i == self@.index_of(name@),
                None => !self@.contains(name@),
            },
    {
        let r = index_set_get_index_of(&self.set, name);
        proof {
            if let Some(i) = r {
                assert(self@.contains(name@));
                let j = self@.index_of(name@);
                assert(self@[j] == name@);
            }
        }
        r
    }

    /// The name with the number `id`.
    pub fn name(&self, id: usize) -> (name: &String)
        requires
            id < self@.len(),
        ensures
            name@ == self@[id as int],
    {
        match index_set_get_index(&self.set, id) {
            Some(name) => name,
            None => {
                proof {
                    assert(false);
                }
                unreached()
            },
        }
    }

    /// The number of names.
    pub fn len(&self) -> (n: usize)
        ensures
            n == self@.len(),
    {
        index_set_len(&self.set)
    }
}

} // verus!
