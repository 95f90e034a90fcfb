use crate::bytes;
use crate::text::Text;
use vstd::prelude::*;
use vstd::string::StringSliceAdditionalSpecFns;

verus! {

/// Some entry of `entries` is named `name`.
pub open spec fn holds(entries: Seq<(Seq<u8>, Seq<u8>)>, name: Seq<u8>) -> bool {
    exists|i: int| 0 <= i < entries.len() && (#[trigger] entries[i]).0 == name
}

/// The position of an entry named `name`, where `entries` holds one.
pub open spec fn index_of(entries: Seq<(Seq<u8>, Seq<u8>)>, name: Seq<u8>) -> int {
    choose|i: int| 0 <= i < entries.len() && (#[trigger] entries[i]).0 == name
}

/// The value stored under `name`.
pub open spec fn lookup(entries: Seq<(Seq<u8>, Seq<u8>)>, name: Seq<u8>) -> Option<Seq<u8>> {
    if holds(entries, name) {
        Some(entries[index_of(entries, name)].1)
    } else {
        None
    }
}

/// `entries` with `value` stored under `name`: in place of the old value where
/// the name is already there, else as a new last entry.
pub open spec fn upsert(entries: Seq<(Seq<u8>, Seq<u8>)>, name: Seq<u8>, value: Seq<u8>) -> Seq<
    (Seq<u8>, Seq<u8>),
> {
    if holds(entries, name) {
        entries.update(index_of(entries, name), (name, value))
    } else {
        entries.push((name, value))
    }
}

/// No two entries have the same name.
pub open spec fn names_distinct(entries: Seq<(Seq<u8>, Seq<u8>)>) -> bool {
    forall|i: int, j: int|
        0 <= i < j < entries.len() ==> (#[trigger] entries[i]).0 != (#[trigger] entries[j]).0
}

/// The mapping from each name to its value.
pub open spec fn as_map(entries: Seq<(Seq<u8>, Seq<u8>)>) -> Map<Seq<u8>, Seq<u8>> {
    Map::new(|name: Seq<u8>| holds(entries, name), |name: Seq<u8>| lookup(entries, name)->0)
}

/// Where names are distinct, the entry at `i` is the one found under its name.
pub proof fn lemma_index_of(entries: Seq<(Seq<u8>, Seq<u8>)>, i: int)
    requires
        names_distinct(entries),
        0 <= i < entries.len(),
    ensures
        holds(entries, entries[i].0),
        index_of(entries, entries[i].0) == i,
        lookup(entries, entries[i].0) == Some(entries[i].1),
{
}

/// Storing a value keeps names distinct, and changes the mapping at that one
/// name only.
pub proof fn lemma_upsert(entries: Seq<(Seq<u8>, Seq<u8>)>, name: Seq<u8>, value: Seq<u8>)
    requires
        names_distinct(entries),
    ensures
        names_distinct(upsert(entries, name, value)),
        as_map(upsert(entries, name, value)) == as_map(entries).insert(name, value),
        upsert(entries, name, value).len() == if holds(entries, name) {
            entries.len()
        } else {
            entries.len() + 1
        },
{
    let after = upsert(entries, name, value);
    let at = if holds(entries, name) {
        index_of(entries, name)
    } else {
        entries.len() as int
    };
    assert(after[at] == (name, value));
    assert forall|other: Seq<u8>| holds(after, other) <==> (other == name || holds(
        entries,
        other,
    )) by {
        if holds(after, other) {
            let i = index_of(after, other);
            if i != at {
                assert(entries[i].0 == other);
            }
        }
        if holds(entries, other) && other != name {
            let i = index_of(entries, other);
            assert(after[i].0 == other);
        }
    }
    assert forall|other: Seq<u8>| holds(entries, other) && other != name implies lookup(
        after,
        other,
    ) == lookup(entries, other) by {
        let i = index_of(entries, other);
        assert(after[i] == entries[i]);
        let j = index_of(after, other);
        assert(after[j].0 == other);
    }
    assert(lookup(after, name) == Some(value)) by {
        let j = index_of(after, name);
        assert(after[j].0 == name);
    }
    assert(as_map(after) =~= as_map(entries).insert(name, value));
}

/// Distinct names make a finite mapping with one key for each entry.
pub proof fn lemma_as_map_len(entries: Seq<(Seq<u8>, Seq<u8>)>)
    requires
        names_distinct(entries),
    ensures
        as_map(entries).dom().finite(),
        as_map(entries).dom().len() == entries.len(),
    decreases entries.len(),
{
    if entries.len() == 0 {
        assert(as_map(entries).dom() =~= Set::<Seq<u8>>::empty());
    } else {
        let shorter = entries.drop_last();
        let last = entries.last();
        lemma_as_map_len(shorter);
        assert(!holds(shorter, last.0)) by {
            if holds(shorter, last.0) {
                let i = index_of(shorter, last.0);
                assert(entries[i].0 == last.0);
            }
        }
        assert(upsert(shorter, last.0, last.1) =~= entries);
        lemma_upsert(shorter, last.0, last.1);
        assert(as_map(entries).dom() =~= as_map(shorter).dom().insert(last.0));
    }
}

/// Header fields: names with their values, no name twice, in the order in
/// which the names were first stored.
#[derive(Debug)]
pub struct Headers<S: Text> {
    fields: Vec<(S, S)>,
}

impl<S: Text> View for Headers<S> {
    type V = Map<Seq<u8>, Seq<u8>>;

    /// The mapping from each name's bytes to its value's bytes.
    open spec fn view(&self) -> Map<Seq<u8>, Seq<u8>> {
        as_map(self.entries())
    }
}

impl<S: Text> Headers<S> {
    /// The fields in order, each as the bytes of its name and of its value.
    pub closed spec fn entries(&self) -> Seq<(Seq<u8>, Seq<u8>)> {
        Seq::new(self.fields@.len(), |i: int| (self.fields@[i].0.wire(), self.fields@[i].1.wire()))
    }

    #[verifier::type_invariant]
    spec fn well_formed(&self) -> bool {
        names_distinct(self.entries())
    }

    /// No fields.
    pub fn new() -> (headers: Self)
        ensures
            headers.entries() == Seq::<(Seq<u8>, Seq<u8>)>::empty(),
            headers@ == Map::<Seq<u8>, Seq<u8>>::empty(),
    {
        let headers = Headers { fields: Vec::new() };
        assert(headers.entries() =~= Seq::<(Seq<u8>, Seq<u8>)>::empty());
        assert(headers@ =~= Map::<Seq<u8>, Seq<u8>>::empty());
        headers
    }

    /// The number of fields.
    pub fn len(&self) -> (count: usize)
        ensures
            count == self.entries().len(),
            count == self@.dom().len(),
            names_distinct(self.entries()),
    {
        proof {
            use_type_invariant(self);
            lemma_as_map_len(self.entries());
        }
        self.fields.len()
    }

    /// Whether there is no field.
    pub fn is_empty(&self) -> (empty: bool)
        ensures
            empty == (self.entries().len() == 0),
            empty == (self@.dom().len() == 0),
    {
        proof {
            use_type_invariant(self);
            lemma_as_map_len(self.entries());
        }
        self.fields.len() == 0
    }

    fn position(&self, name: &[u8]) -> (found: Option<usize>)
        ensures
            match found {
                Some(i) => i < self.entries().len() && self.entries()[i as int].0 == name@,
                None => !holds(self.entries(), name@),
            },
    {
        let mut i: usize = 0;
        while i < self.fields.len()
            invariant
                i <= self.fields@.len(),
                forall|j: int| 0 <= j < i ==> (#[trigger] self.entries()[j]).0 != name@,
            decreases self.fields@.len() - i,
        {
            if bytes::equal(self.fields[i].0.as_str().as_bytes(), name) {
                return Some(i);
            }
            i += 1;
        }
        None
    }

    /// The value stored under exactly `name`.
    pub fn get(&self, name: &str) -> (value: Option<&S>)
        ensures
            match value {
                Some(v) => lookup(self.entries(), name.spec_bytes()) == Some(v.wire()),
                None => lookup(self.entries(), name.spec_bytes()) is None,
            },
            match value {
                Some(v) => self@.contains_key(name.spec_bytes()) && self@[name.spec_bytes()]
                    == v.wire(),
                None => !self@.contains_key(name.spec_bytes()),
            },
    {
        proof {
            use_type_invariant(self);
        }
        match self.position(name.as_bytes()) {
            Some(i) => {
                proof {
                    lemma_index_of(self.entries(), i as int);
                }
                Some(&self.fields[i].1)
            },
            None => None,
        }
    }

    /// The name and the value of the field at `index`, counting from zero in
    /// the order of [`Headers::entries`].
    pub fn field(&self, index: usize) -> (found: Option<(&S, &S)>)
        ensures
            match found {
                Some((name, value)) => index < self.entries().len() && self.entries()[index as int]
                    == (name.wire(), value.wire()),
                None => index >= self.entries().len(),
            },
    {
        if index < self.fields.len() {
            Some((&self.fields[index].0, &self.fields[index].1))
        } else {
            None
        }
    }

    /// The same fields with strings of their own.
    pub fn to_owned(&self) -> (owned: Headers<String>)
        ensures
            owned.entries() == self.entries(),
    {
        proof {
            use_type_invariant(self);
        }
        let mut owned: Headers<String> = Headers::new();
        let mut index: usize = 0;
        while index < self.fields.len()
            invariant
                index <= self.fields@.len(),
                names_distinct(self.entries()),
                owned.entries() == self.entries().take(index as int),
            decreases self.fields@.len() - index,
        {
            let name = self.fields[index].0.as_str().to_owned();
            let value = self.fields[index].1.as_str().to_owned();
            proof {
                let stored = self.entries().take(index as int);
                let field = self.entries()[index as int];
                assert(name.wire() == field.0);
                assert(value.wire() == field.1);
                if holds(stored, field.0) {
                    let i = index_of(stored, field.0);
                    assert(self.entries()[i].0 == self.entries()[index as int].0);
                }
                assert(stored.push(field) =~= self.entries().take(index + 1));
            }
            owned.insert(name, value);
            index += 1;
        }
        assert(self.entries().take(index as int) =~= self.entries());
        owned
    }

    /// Stores `value` under `name`. A value already stored under that name is
    /// replaced and keeps its place.
    pub fn insert(&mut self, name: S, value: S)
        ensures
            final(self).entries() == upsert(old(self).entries(), name.wire(), value.wire()),
            final(self)@ == old(self)@.insert(name.wire(), value.wire()),
    {
        proof {
            use_type_invariant(&*self);
            lemma_upsert(self.entries(), name.wire(), value.wire());
        }
        let ghost before = self.entries();
        let found = self.position(name.as_str().as_bytes());
        let mut taken = Headers { fields: Vec::new() };
        assert(taken.entries() =~= Seq::<(Seq<u8>, Seq<u8>)>::empty());
        core::mem::swap(self, &mut taken);
        let Headers { fields: mut fields } = taken;
        match found {
            Some(i) => {
                proof {
                    lemma_index_of(before, i as int);
                }
                fields.set(i, (name, value));
            },
            None => {
                fields.push((name, value));
            },
        }
        let ghost after = Seq::new(fields@.len(), |i: int| (fields@[i].0.wire(), fields@[i].1.wire()));
        assert(after =~= upsert(before, name.wire(), value.wire()));
        *self = Headers { fields };
    }
}

} // verus!
