//! Content addresses and the named bundle of them that one transfer carries.

use vstd::prelude::*;
use crate::text::same_text;

verus! {

/// A content address: the 32-byte digest that the content store derives from
/// a blob's bytes. Identical bytes yield the same address.
#[derive(Clone, Copy, Debug, PartialEq, Eq)]
pub struct ContentAddress {
    pub bytes: [u8; 32],
}

impl View for ContentAddress {
    type V = Seq<u8>;

    open spec fn view(&self) -> Seq<u8> {
        self.bytes@
    }
}

/// One file of a collection: its name and the address of its content.
#[derive(Debug, PartialEq, Eq)]
pub struct Entry {
    pub name: String,
    pub hash: ContentAddress,
}

impl View for Entry {
    type V = (Seq<char>, Seq<u8>);

    open spec fn view(&self) -> (Seq<char>, Seq<u8>) {
        (self.name@, self.hash@)
    }
}

impl Entry {
    /// A copy of the entry.
    pub fn duplicate(&self) -> (copy: Entry)
        ensures
            copy@ == self@,
    {
        Entry { name: self.name.clone(), hash: self.hash }
    }
}

/// The entries of a collection as mathematical values, in order.
pub type Entries = Seq<(Seq<char>, Seq<u8>)>;

/// The views of a vector of entries, in order.
pub open spec fn entries_view(entries: Seq<Entry>) -> Entries {
    Seq::new(entries.len(), |i: int| entries[i]@)
}

/// No two entries carry the same name.
pub open spec fn distinct_names(entries: Entries) -> bool {
    forall|i: int, j: int|
        0 <= i < j < entries.len() ==> (#[trigger] entries[i]).0 != (#[trigger] entries[j]).0
}

/// Some entry carries `name`.
pub open spec fn has_name(entries: Entries, name: Seq<char>) -> bool {
    exists|i: int| 0 <= i < entries.len() && (#[trigger] entries[i]).0 == name
}

/// The position of an entry named `name`; meaningful when `has_name` holds.
pub open spec fn index_of(entries: Entries, name: Seq<char>) -> int {
    choose|i: int| 0 <= i < entries.len() && (#[trigger] entries[i]).0 == name
}

/// The address stored under `name`, if any.
pub open spec fn address_of(entries: Entries, name: Seq<char>) -> Option<Seq<u8>> {
    if has_name(entries, name) {
        Some(entries[index_of(entries, name)].1)
    } else {
        None
    }
}

/// The entries after recording that `name` now has content `hash`.
///
/// A new name goes to the end, so that order follows completion; a name
/// already present keeps its place and takes the new address, so that the
/// last write wins.
pub open spec fn recorded(entries: Entries, name: Seq<char>, hash: Seq<u8>) -> Entries {
    if has_name(entries, name) {
        entries.update(index_of(entries, name), (name, hash))
    } else {
        entries.push((name, hash))
    }
}

/// An ordered mapping from file name to content address.
///
/// Names are unique within a collection.
#[derive(Debug, PartialEq, Eq)]
pub struct Collection {
    entries: Vec<Entry>,
}

impl View for Collection {
    type V = Entries;

    closed spec fn view(&self) -> Entries {
        entries_view(self.entries@)
    }
}

impl Collection {
    /// Names are unique: what every constructor establishes and every method
    /// keeps.
    pub open spec fn wf(&self) -> bool {
        distinct_names(self@)
    }

    /// The empty collection.
    pub fn new() -> (collection: Collection)
        ensures
            collection@ == Entries::empty(),
            collection.wf(),
    {
        let collection = Collection { entries: Vec::new() };
        assert(collection@ =~= Entries::empty());
        collection
    }

    /// Number of entries.
    pub fn len(&self) -> (n: usize)
        ensures
            n == self@.len(),
    {
        self.entries.len()
    }

    /// Whether there is nothing to send.
    pub fn is_empty(&self) -> (empty: bool)
        ensures
            empty == (self@.len() == 0),
    {
        self.entries.len() == 0
    }

    /// The entry at `index`, in insertion order.
    pub fn get(&self, index: usize) -> (entry: Option<Entry>)
        ensures
            index < self@.len() ==> entry is Some && entry->0@ == self@[index as int],
            index >= self@.len() ==> entry is None,
    {
        if index < self.entries.len() {
            Some(self.entries[index].duplicate())
        } else {
            None
        }
    }

    /// Position of the entry named `name`.
    pub fn position(&self, name: &str) -> (found: Option<usize>)
        requires
            self.wf(),
        ensures
            found is Some <==> has_name(self@, name@),
            found matches Some(i) ==> i < self@.len() && self@[i as int].0 == name@ && i
                == index_of(self@, name@),
    {
        let mut i: usize = 0;
        while i < self.entries.len()
            invariant
                i <= self.entries.len(),
                forall|k: int| 0 <= k < i ==> (#[trigger] self@[k]).0 != name@,
                self@ == entries_view(self.entries@),
                distinct_names(self@),
            decreases self.entries.len() - i,
        {
            if same_text(self.entries[i].name.as_str(), name) {
                assert(self@[i as int].0 == name@);
                return Some(i);
            }
            i = i + 1;
        }
        None
    }

    /// The address stored under `name`, if any.
    pub fn lookup(&self, name: &str) -> (hash: Option<ContentAddress>)
        requires
            self.wf(),
        ensures
            hash is Some <==> has_name(self@, name@),
            hash matches Some(h) ==> address_of(self@, name@) == Some(h@),
    {
        match self.position(name) {
            Some(i) => Some(self.entries[i].hash),
            None => None,
        }
    }

    /// Records that `name` has content `hash`.
    pub fn insert(&mut self, name: String, hash: ContentAddress)
        requires
            old(self).wf(),
        ensures
            final(self)@ == recorded(old(self)@, name@, hash@),
            final(self).wf(),
    {
        let ghost before = self@;
        proof {
            lemma_recorded(before, name@, hash@, name@);
        }
        match self.position(name.as_str()) {
            Some(i) => {
                self.entries.set(i, Entry { name, hash });
                assert(self@ =~= before.update(i as int, (name@, hash@)));
            },
            None => {
                self.entries.push(Entry { name, hash });
                assert(self@ =~= before.push((name@, hash@)));
            },
        }
    }
}

/// Recording an entry keeps names unique, makes the name resolve to the new
/// address, and leaves every other name as it was.
pub proof fn lemma_recorded(entries: Entries, name: Seq<char>, hash: Seq<u8>, other: Seq<char>)
    requires
        distinct_names(entries),
    ensures
        distinct_names(recorded(entries, name, hash)),
        address_of(recorded(entries, name, hash), name) == Some(hash),
        other != name ==> address_of(recorded(entries, name, hash), other) == address_of(
            entries,
            other,
        ),
{
    let after = recorded(entries, name, hash);
    if has_name(entries, name) {
        let at = index_of(entries, name);
        assert(after[at].0 == name);
        assert(has_name(after, name));
        assert(index_of(after, name) == at);
        if other != name {
            if has_name(entries, other) {
                let k = index_of(entries, other);
                assert(after[k] == entries[k]);
                assert(has_name(after, other));
                assert(index_of(after, other) == k);
            } else {
                if has_name(after, other) {
                    let k = index_of(after, other);
                    assert(entries[k].0 == other);
                }
            }
        }
    } else {
        let at = entries.len() as int;
        assert(after[at].0 == name);
        assert(has_name(after, name));
        assert(index_of(after, name) == at);
        if other != name {
            if has_name(entries, other) {
                let k = index_of(entries, other);
                assert(after[k] == entries[k]);
                assert(has_name(after, other));
                assert(index_of(after, other) == k);
            } else {
                if has_name(after, other) {
                    let k = index_of(after, other);
                    assert(entries[k].0 == other);
                }
            }
        }
    }
}

} // verus!
