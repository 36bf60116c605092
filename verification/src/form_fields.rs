//! The text fields of a connection form: a map from field name to value,
//! held as a list of distinct names with their values.
use vstd::prelude::*;
use crate::text::text_eq;

verus! {

/// Whether no name occurs twice.
pub open spec fn distinct_names(entries: Seq<(String, String)>) -> bool {
    forall|i: int, j: int|
        0 <= i < j < entries.len() ==> #[trigger] entries[i].0@ != #[trigger] entries[j].0@
}

/// The value stored under `name`, if any.
pub open spec fn value_of(entries: Seq<(String, String)>, name: Seq<char>) -> Option<Seq<char>> {
    if exists|i: int| 0 <= i < entries.len() && entries[i].0@ == name {
        Some(entries[choose|i: int| 0 <= i < entries.len() && entries[i].0@ == name].1@)
    } else {
        None
    }
}

/// The names and values of form fields.
pub struct FormFields {
    entries: Vec<(String, String)>,
}

impl View for FormFields {
    type V = Map<Seq<char>, Seq<char>>;

    closed spec fn view(&self) -> Map<Seq<char>, Seq<char>> {
        Map::new(
            |name: Seq<char>| value_of(self.entries@, name) is Some,
            |name: Seq<char>| value_of(self.entries@, name)->0,
        )
    }
}

/// In a list of distinct names, the value at an index is the value of its
/// name.
proof fn lemma_value_at(entries: Seq<(String, String)>, i: int)
    requires
        distinct_names(entries),
        0 <= i < entries.len(),
    ensures
        value_of(entries, entries[i].0@) == Some(entries[i].1@),
{
    let name = entries[i].0@;
    assert(exists|k: int| 0 <= k < entries.len() && entries[k].0@ == name);
    let k = choose|k: int| 0 <= k < entries.len() && entries[k].0@ == name;
    if k < i {
        assert(entries[k].0@ != entries[i].0@);
    } else if k > i {
        assert(entries[i].0@ != entries[k].0@);
    }
}

/// The index of a name in a list of fields.
fn find_name(entries: &Vec<(String, String)>, name: &str) -> (r: Option<usize>)
    ensures
        match r {
            Some(i) => i < entries@.len() && entries@[i as int].0@ == name@,
            None => forall|i: int| 0 <= i < entries@.len() ==> entries@[i].0@ != name@,
        },
{
    let mut i: usize = 0;
    while i < entries.len()
        invariant
            i <= entries@.len(),
            forall|k: int| 0 <= k < i ==> entries@[k].0@ != name@,
        decreases entries.len() - i,
    {
        if text_eq(entries[i].0.as_str(), name) {
            return Some(i);
        }
        i = i + 1;
    }
    None
}

impl FormFields {
    /// The names are distinct.
    #[verifier::type_invariant]
    closed spec fn inv(self) -> bool {
        distinct_names(self.entries@)
    }

    /// No fields.
    pub fn new() -> (r: Self)
        ensures
            r@ == Map::<Seq<char>, Seq<char>>::empty(),
    {
        let r = FormFields { entries: Vec::new() };
        assert(r@ =~= Map::<Seq<char>, Seq<char>>::empty());
        r
    }

    /// The value of a field.
    pub fn get(&self, name: &str) -> (r: Option<&String>)
        ensures
            match r {
                Some(v) => self@.contains_key(name@) && self@[name@] == v@,
                None => !self@.contains_key(name@),
            },
    {
        proof {
            use_type_invariant(self);
        }
        match find_name(&self.entries, name) {
            Some(i) => {
                proof {
                    lemma_value_at(self.entries@, i as int);
                }
                Some(&self.entries[i].1)
            },
            None => None,
        }
    }

    /// Sets a field, replacing its earlier value.
    pub fn insert(&mut self, name: &str, value: String)
        ensures
            final(self)@ == old(self)@.insert(name@, value@),
    {
        proof {
            use_type_invariant(&*self);
        }
        let ghost before = self.entries@;
        let key = crate::text::owned(name);
        let mut entries: Vec<(String, String)> = Vec::new();
        std::mem::swap(&mut entries, &mut self.entries);
        match find_name(&entries, name) {
            Some(i) => {
                entries.set(i, (key, value));
            },
            None => {
                entries.push((key, value));
            },
        }
        let ghost after = entries@;
        proof {
            assert(distinct_names(after)) by {
                assert forall|i: int, j: int| 0 <= i < j < after.len() implies #[trigger] after[i].0@
                    != #[trigger] after[j].0@ by {
                    if i < before.len() && j < before.len() {
                        if after[i] != before[i] {
                            assert(before[j].0@ != before[i].0@);
                        }
                        if after[j] != before[j] {
                            assert(before[i].0@ != before[j].0@);
                        }
                    }
                }
            }
            assert forall|n: Seq<char>| #[trigger] value_of(after, n) == (if n == name@ {
                Some(value@)
            } else {
                value_of(before, n)
            }) by {
                if n == name@ {
                    let k = if exists|k: int| 0 <= k < before.len() && before[k].0@ == name@ {
                        choose|k: int| 0 <= k < before.len() && before[k].0@ == name@
                    } else {
                        before.len() as int
                    };
                    assert(after[k].0@ == name@ && after[k].1@ == value@);
                    lemma_value_at(after, k);
                } else if value_of(before, n) is Some {
                    let k = choose|k: int| 0 <= k < before.len() && before[k].0@ == n;
                    lemma_value_at(before, k);
                    assert(after[k] == before[k]);
                    lemma_value_at(after, k);
                } else {
                    assert forall|k: int| 0 <= k < after.len() implies after[k].0@ != n by {
                        if k < before.len() && after[k] == before[k] {
                            assert(before[k].0@ != n);
                        }
                    }
                }
            }
        }
        self.entries = entries;
        proof {
            assert(self@ =~= old(self)@.insert(name@, value@));
        }
    }
}

} // verus!
