//! The contract registry: which callable stands behind an address and an
//! entry-point name.
//!
//! The registry is generic in the callable, which it only stores and hands
//! out. Its contents are a map from `(address, name)` to the callable, the
//! name taken as its UTF-8 bytes, so that an entry name that arrives as raw
//! bytes is looked up without being decoded first.

use vstd::prelude::*;
use vstd::slice::slice_to_vec;
use vstd::utf8::encode_utf8;
use crate::types::{Address, address_of, bytes_equal, decode_address};

verus! {

/// What a registry is keyed by: the address and the bytes of the name.
pub type Key = (Seq<u8>, Seq<u8>);

/// The key under which `name` is registered at `address`.
pub open spec fn key_of(address: Seq<u8>, name: Seq<char>) -> Key {
    (address, encode_utf8(name))
}

struct Entry<F> {
    address: Address,
    name: Vec<u8>,
    callable: F,
}

/// The registered callables. No key occurs twice among the entries.
pub struct Registry<F> {
    entries: Vec<Entry<F>>,
}

spec fn key_at<F>(entries: Seq<Entry<F>>, i: int) -> Key {
    (entries[i].address@, entries[i].name@)
}

spec fn holds<F>(entries: Seq<Entry<F>>, k: Key) -> bool {
    exists|i: int| 0 <= i < entries.len() && #[trigger] key_at(entries, i) == k
}

spec fn index_of<F>(entries: Seq<Entry<F>>, k: Key) -> int {
    choose|i: int| 0 <= i < entries.len() && #[trigger] key_at(entries, i) == k
}

spec fn distinct<F>(entries: Seq<Entry<F>>) -> bool {
    forall|i: int, j: int|
        0 <= i < j < entries.len() ==> #[trigger] key_at(entries, i) != #[trigger] key_at(entries, j)
}

spec fn contents<F>(entries: Seq<Entry<F>>) -> Map<Key, F> {
    Map::new(|k: Key| holds(entries, k), |k: Key| entries[index_of(entries, k)].callable)
}

/// Under the key of entry `i` the contents hold the callable of entry `i`.
proof fn lemma_entry<F>(entries: Seq<Entry<F>>, i: int)
    requires
        distinct(entries),
        0 <= i < entries.len(),
    ensures
        contents(entries).contains_key(key_at(entries, i)),
        contents(entries)[key_at(entries, i)] == entries[i].callable,
{
    let k = key_at(entries, i);
    assert(holds(entries, k));
    let j = index_of(entries, k);
    assert(key_at(entries, j) == k);
    if j < i {
        assert(key_at(entries, j) != key_at(entries, i));
    } else if i < j {
        assert(key_at(entries, i) != key_at(entries, j));
    }
}

/// The index of the entry with the given address and name bytes.
fn find<F>(entries: &Vec<Entry<F>>, address: &[u8], name: &[u8]) -> (found: Option<usize>)
    ensures
        match found {
            Some(i) => i < entries@.len() && key_at(entries@, i as int) == (address@, name@),
            None => !holds(entries@, (address@, name@)),
        },
{
    let mut i: usize = 0;
    while i < entries.len()
        invariant
            i <= entries@.len(),
            forall|j: int| 0 <= j < i ==> #[trigger] key_at(entries@, j) != (address@, name@),
        decreases entries@.len() - i,
    {
        let entry = &entries[i];
        if bytes_equal(entry.address.as_slice(), address) && bytes_equal(
            entry.name.as_slice(),
            name,
        ) {
            return Some(i);
        }
        i += 1;
    }
    None
}

/// Puts `callable` under the key `(address, name)`: in place of the entry
/// that has the key, or at the end where none has.
fn upsert<F>(entries: &mut Vec<Entry<F>>, address: Address, name: Vec<u8>, callable: F)
    requires
        distinct(old(entries)@),
    ensures
        distinct(final(entries)@),
        contents(final(entries)@) == contents(old(entries)@).insert((address@, name@), callable),
{
    let ghost k = (address@, name@);
    let ghost before = entries@;
    let found = find(entries, address.as_slice(), name.as_slice());
    let entry = Entry { address, name, callable };
    match found {
        Some(i) => {
            entries.set(i, entry);
        },
        None => {
            entries.push(entry);
        },
    }
    proof {
        let after = entries@;
        let at: int = match found {
            Some(i) => i as int,
            None => before.len() as int,
        };
        assert(key_at(after, at) == k);
        assert forall|j: int| 0 <= j < after.len() && j != at implies #[trigger] key_at(after, j)
            == key_at(before, j) && after[j] == before[j] by {}
        assert(distinct(after)) by {
            assert forall|i: int, j: int| 0 <= i < j < after.len() implies #[trigger] key_at(
                after,
                i,
            ) != #[trigger] key_at(after, j) by {
                if i != at && j != at {
                    assert(key_at(before, i) != key_at(before, j));
                } else if found is Some {
                    assert(key_at(before, i) != key_at(before, j));
                } else {
                    assert(key_at(before, i) != k);
                }
            }
        }
        assert forall|q: Key| #[trigger]
            contents(after).contains_key(q) == contents(before).insert(k, callable).contains_key(
                q,
            ) by {
            if holds(after, q) && q != k {
                let j = index_of(after, q);
                assert(key_at(before, j) == q);
            }
            if holds(before, q) {
                let j = index_of(before, q);
                if j != at {
                    assert(key_at(after, j) == q);
                }
            }
        }
        assert forall|q: Key| #[trigger] contents(after).contains_key(q) implies contents(
            after,
        )[q] == contents(before).insert(k, callable)[q] by {
            let j = index_of(after, q);
            lemma_entry(after, j);
            if q != k {
                assert(key_at(before, j) == q);
                lemma_entry(before, j);
            }
        }
        assert(contents(after) =~= contents(before).insert(k, callable));
    }
}

impl<F> View for Registry<F> {
    type V = Map<Key, F>;

    closed spec fn view(&self) -> Map<Key, F> {
        contents(self.entries@)
    }
}

impl<F> Registry<F> {
    #[verifier::type_invariant]
    spec fn well_formed(self) -> bool {
        distinct(self.entries@)
    }

    /// An empty registry.
    pub fn new() -> (registry: Registry<F>)
        ensures
            registry@ == Map::<Key, F>::empty(),
    {
        let registry = Registry { entries: Vec::new() };
        assert(registry@ =~= Map::<Key, F>::empty());
        registry
    }

    /// Stores `callable` under `address` and `name`. An earlier entry for the
    /// same pair is overwritten: the last registration wins, and no other
    /// entry changes.
    pub fn register(&mut self, address: Address, name: String, callable: F)
        ensures
            final(self)@ == old(self)@.insert(key_of(address@, name@), callable),
    {
        proof {
            use_type_invariant(&*self);
        }
        let bytes = slice_to_vec(name.as_str().as_bytes());
        let mut entries: Vec<Entry<F>> = Vec::new();
        core::mem::swap(&mut self.entries, &mut entries);
        upsert(&mut entries, address, bytes, callable);
        core::mem::swap(&mut self.entries, &mut entries);
    }

    /// The callable registered under `address` and `name`, if there is one.
    pub fn lookup(&self, address: &Address, name: &str) -> (found: Option<&F>)
        ensures
            match found {
                Some(callable) => self@.contains_key(key_of(address@, name@)) && *callable
                    == self@[key_of(address@, name@)],
                None => !self@.contains_key(key_of(address@, name@)),
            },
    {
        self.lookup_bytes(address.as_slice(), name.as_bytes())
    }

    /// The callable registered under the key `(address, name)`, both given
    /// as bytes, if there is one.
    fn lookup_bytes(&self, address: &[u8], name: &[u8]) -> (found: Option<&F>)
        ensures
            match found {
                Some(callable) => self@.contains_key((address@, name@)) && *callable == self@[(
                    address@,
                    name@,
                )],
                None => !self@.contains_key((address@, name@)),
            },
    {
        proof {
            use_type_invariant(self);
        }
        match find(&self.entries, address, name) {
            Some(i) => {
                proof {
                    lemma_entry(self.entries@, i as int);
                }
                Some(&self.entries[i].callable)
            },
            None => None,
        }
    }

    /// The callable that a raw call names: `address` stands for its first
    /// twenty bytes, padded with zeros, and `entry` is the entry-point name
    /// as UTF-8 bytes.
    pub fn resolve(&self, address: &[u8], entry: &[u8]) -> (found: Option<&F>)
        ensures
            match found {
                Some(callable) => self@.contains_key((address_of(address@), entry@)) && *callable
                    == self@[(address_of(address@), entry@)],
                None => !self@.contains_key((address_of(address@), entry@)),
            },
    {
        let decoded = decode_address(address);
        self.lookup_bytes(decoded.as_slice(), entry)
    }
}

} // verus!
