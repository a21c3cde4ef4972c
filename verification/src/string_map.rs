//! An insertion-ordered mapping from names to values, both text.

use vstd::prelude::*;
use crate::text::text_eq;

verus! {

/// The model of an ordered mapping: its entries in insertion order.
pub type Pairs = Seq<(Seq<char>, Seq<char>)>;

/// No name occurs twice.
pub open spec fn distinct_names(pairs: Pairs) -> bool {
    forall|i: int, j: int|
        0 <= i < pairs.len() && 0 <= j < pairs.len() && i != j ==> pairs[i].0 != pairs[j].0
}

/// Whether some entry carries `name`.
pub open spec fn has_name(pairs: Pairs, name: Seq<char>) -> bool {
    exists|i: int| 0 <= i < pairs.len() && #[trigger] pairs[i].0 == name
}

/// The position of an entry that carries `name`; meaningful where
/// `has_name` holds, and then unique where the names are distinct.
pub open spec fn index_of(pairs: Pairs, name: Seq<char>) -> int {
    choose|i: int| 0 <= i < pairs.len() && #[trigger] pairs[i].0 == name
}

/// The value stored under `name`, if any.
pub open spec fn lookup(pairs: Pairs, name: Seq<char>) -> Option<Seq<char>> {
    if has_name(pairs, name) {
        Some(pairs[index_of(pairs, name)].1)
    } else {
        None
    }
}

/// The entries after storing `value` under `name`: an existing entry is
/// overwritten where it stands, a new one goes to the end.
pub open spec fn with_entry(pairs: Pairs, name: Seq<char>, value: Seq<char>) -> Pairs {
    if has_name(pairs, name) {
        pairs.update(index_of(pairs, name), (name, value))
    } else {
        pairs.push((name, value))
    }
}

/// The entries without the one named `name`; the others keep their order.
pub open spec fn without_name(pairs: Pairs, name: Seq<char>) -> Pairs {
    if has_name(pairs, name) {
        pairs.remove(index_of(pairs, name))
    } else {
        pairs
    }
}

/// An entry that carries `name` at a known position fixes `index_of`.
pub proof fn lemma_index_of(pairs: Pairs, at: int)
    requires
        distinct_names(pairs),
        0 <= at < pairs.len(),
    ensures
        has_name(pairs, pairs[at].0),
        index_of(pairs, pairs[at].0) == at,
        lookup(pairs, pairs[at].0) == Some(pairs[at].1),
{
}

/// Storing keeps the names distinct, makes the stored value the one looked
/// up under its name, and leaves every other name's value alone.
pub proof fn lemma_with_entry(pairs: Pairs, name: Seq<char>, value: Seq<char>)
    requires
        distinct_names(pairs),
    ensures
        distinct_names(with_entry(pairs, name, value)),
        lookup(with_entry(pairs, name, value), name) == Some(value),
        forall|other: Seq<char>|
            other != name ==> lookup(with_entry(pairs, name, value), other) == lookup(
                pairs,
                other,
            ),
        with_entry(pairs, name, value).len() == if has_name(pairs, name) {
            pairs.len()
        } else {
            pairs.len() + 1
        },
{
    let after = with_entry(pairs, name, value);
    let at = if has_name(pairs, name) {
        index_of(pairs, name)
    } else {
        pairs.len() as int
    };
    lemma_index_of(after, at);
    assert forall|other: Seq<char>| other != name implies lookup(after, other) == lookup(
        pairs,
        other,
    ) by {
        if has_name(pairs, other) {
            let i = index_of(pairs, other);
            assert(after[i] == pairs[i]);
            lemma_index_of(after, i);
            lemma_index_of(pairs, i);
        }
    }
}

/// Removing keeps the names distinct, leaves nothing under the removed
/// name, and leaves every other name's value alone.
pub proof fn lemma_without_name(pairs: Pairs, name: Seq<char>)
    requires
        distinct_names(pairs),
    ensures
        distinct_names(without_name(pairs, name)),
        lookup(without_name(pairs, name), name) is None,
        forall|other: Seq<char>|
            other != name ==> lookup(without_name(pairs, name), other) == lookup(pairs, other),
{
    let after = without_name(pairs, name);
    if has_name(pairs, name) {
        let at = index_of(pairs, name);
        assert(forall|i: int| at <= i < after.len() ==> after[i] == pairs[i + 1]);
        assert(distinct_names(after));
        if has_name(after, name) {
            let i = index_of(after, name);
        }
        assert forall|other: Seq<char>| other != name implies lookup(after, other) == lookup(
            pairs,
            other,
        ) by {
            if has_name(pairs, other) {
                let i = index_of(pairs, other);
                let k = if i < at {
                    i
                } else {
                    i - 1
                };
                lemma_index_of(after, k);
                lemma_index_of(pairs, i);
            } else if has_name(after, other) {
                let k = index_of(after, other);
                if k < at {
                    assert(pairs[k].0 == other);
                } else {
                    assert(pairs[k + 1].0 == other);
                }
            }
        }
    }
}

/// The model of a vector of entries.
pub open spec fn pairs_of(entries: Seq<(String, String)>) -> Pairs {
    Seq::new(entries.len(), |i: int| (entries[i].0@, entries[i].1@))
}

/// An insertion-ordered mapping from names to values. A name occurs at
/// most once; storing under a name that is present overwrites in place.
pub struct StringMap {
    entries: Vec<(String, String)>,
}

impl View for StringMap {
    type V = Pairs;

    closed spec fn view(&self) -> Pairs {
        pairs_of(self.entries@)
    }
}

impl StringMap {
    /// What holds of every mapping: no name occurs twice.
    #[verifier::type_invariant]
    pub open spec fn well_formed(&self) -> bool {
        distinct_names(self@)
    }

    /// The empty mapping.
    pub fn new() -> (m: StringMap)
        ensures
            m@ == Pairs::empty(),
    {
        StringMap { entries: Vec::new() }
    }

    /// The number of entries.
    pub fn len(&self) -> (n: usize)
        ensures
            n == self@.len(),
            distinct_names(self@),
    {
        proof {
            use_type_invariant(self);
        }
        self.entries.len()
    }

    /// Whether the mapping has no entries.
    pub fn is_empty(&self) -> (r: bool)
        ensures
            r == (self@.len() == 0),
    {
        self.entries.len() == 0
    }

    /// Moves the entries out, leaving the mapping empty.
    fn take_entries(&mut self) -> (entries: Vec<(String, String)>)
        ensures
            pairs_of(entries@) == old(self)@,
            final(self)@ == Pairs::empty(),
    {
        let mut entries: Vec<(String, String)> = Vec::new();
        core::mem::swap(&mut self.entries, &mut entries);
        entries
    }

    /// The first position whose name is `name`, or the length if none is.
    fn position(&self, name: &str) -> (at: usize)
        ensures
            at <= self@.len(),
            at < self@.len() ==> self@[at as int].0 == name@,
            at == self@.len() ==> !has_name(self@, name@),
    {
        let mut i: usize = 0;
        while i < self.entries.len()
            invariant
                i <= self.entries.len(),
                forall|j: int| 0 <= j < i ==> self@[j].0 != name@,
            decreases self.entries.len() - i,
        {
            if text_eq(self.entries[i].0.as_str(), name) {
                return i;
            }
            i += 1;
        }
        i
    }

    /// The value stored under `name`.
    pub fn get(&self, name: &str) -> (r: Option<&String>)
        ensures
            distinct_names(self@),
            match r {
                Some(v) => lookup(self@, name@) == Some(v@),
                None => lookup(self@, name@) is None,
            },
    {
        proof {
            use_type_invariant(self);
        }
        let at = self.position(name);
        if at < self.entries.len() {
            proof {
                lemma_index_of(self@, at as int);
            }
            Some(&self.entries[at].1)
        } else {
            None
        }
    }

    /// Whether an entry carries `name`.
    pub fn contains_key(&self, name: &str) -> (r: bool)
        ensures
            r == has_name(self@, name@),
            distinct_names(self@),
    {
        proof {
            use_type_invariant(self);
        }
        let at = self.position(name);
        at < self.entries.len()
    }

    /// Stores `value` under `name`.
    pub fn insert(&mut self, name: String, value: String)
        ensures
            final(self)@ == with_entry(old(self)@, name@, value@),
            distinct_names(final(self)@),
    {
        proof {
            use_type_invariant(&*self);
            lemma_with_entry(self@, name@, value@);
        }
        let at = self.position(name.as_str());
        let ghost before = self@;
        let ghost name_view = name@;
        let ghost value_view = value@;
        let mut entries = self.take_entries();
        if at < entries.len() {
            proof {
                lemma_index_of(before, at as int);
            }
            entries.set(at, (name, value));
        } else {
            entries.push((name, value));
        }
        assert(pairs_of(entries@) =~= with_entry(before, name_view, value_view));
        self.entries = entries;
    }

    /// Removes the entry named `name`, if there is one.
    pub fn remove(&mut self, name: &str)
        ensures
            final(self)@ == without_name(old(self)@, name@),
            distinct_names(final(self)@),
    {
        proof {
            use_type_invariant(&*self);
            lemma_without_name(self@, name@);
        }
        let at = self.position(name);
        let ghost before = self@;
        if at < self.entries.len() {
            proof {
                lemma_index_of(before, at as int);
            }
            let mut entries = self.take_entries();
            let _ = entries.remove(at);
            self.entries = entries;
        }
    }

    /// Removes every entry.
    pub fn clear(&mut self)
        ensures
            final(self)@ == Pairs::empty(),
    {
        self.entries = Vec::new();
    }

    /// The name of the entry at position `i`.
    pub fn name_at(&self, i: usize) -> (name: &String)
        requires
            i < self@.len(),
        ensures
            name@ == self@[i as int].0,
    {
        &self.entries[i].0
    }

    /// The value of the entry at position `i`.
    pub fn value_at(&self, i: usize) -> (value: &String)
        requires
            i < self@.len(),
        ensures
            value@ == self@[i as int].1,
    {
        &self.entries[i].1
    }
}

impl Clone for StringMap {
    fn clone(&self) -> (copy: StringMap)
        ensures
            copy@ == self@,
    {
        proof {
            use_type_invariant(self);
        }
        let mut entries: Vec<(String, String)> = Vec::new();
        let mut i: usize = 0;
        while i < self.entries.len()
            invariant
                i <= self.entries.len(),
                entries@.len() == i,
                forall|j: int|
                    0 <= j < i ==> entries@[j].0@ == self.entries@[j].0@ && entries@[j].1@
                        == self.entries@[j].1@,
            decreases self.entries.len() - i,
        {
            entries.push((self.entries[i].0.clone(), self.entries[i].1.clone()));
            i += 1;
        }
        assert(pairs_of(entries@) =~= self@);
        StringMap { entries }
    }
}

} // verus!
