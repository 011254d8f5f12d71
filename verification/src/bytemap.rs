//! A map from byte strings of a fixed length, kept as a list of entries.

use vstd::prelude::*;

use crate::bytes::same_bytes;

verus! {

/// Entries with distinct keys, in the order in which the keys first came.
#[derive(Debug, PartialEq, Eq)]
pub struct ByteMap<const N: usize, V> {
    entries: Vec<([u8; N], V)>,
}

/// No key occurs twice.
pub open spec fn distinct_keys<const N: usize, V>(entries: Seq<([u8; N], V)>) -> bool {
    forall|i: int, j: int|
        0 <= i < entries.len() && 0 <= j < entries.len() && i != j ==> (
        #[trigger] entries[i]).0@ != (#[trigger] entries[j]).0@
}

/// The entry at `i` is for `key`.
pub open spec fn entry_at<const N: usize, V>(
    entries: Seq<([u8; N], V)>,
    key: Seq<u8>,
    i: int,
) -> bool {
    0 <= i < entries.len() && entries[i].0@ == key
}

/// The value of the entry for each key.
pub open spec fn entries_map<const N: usize, V>(entries: Seq<([u8; N], V)>) -> Map<Seq<u8>, V> {
    Map::new(
        |key: Seq<u8>| exists|i: int| entry_at(entries, key, i),
        |key: Seq<u8>| entries[choose|i: int| entry_at(entries, key, i)].1,
    )
}

proof fn lemma_entry<const N: usize, V>(entries: Seq<([u8; N], V)>, i: int)
    requires
        distinct_keys(entries),
        0 <= i < entries.len(),
    ensures
        entries_map(entries).contains_key(entries[i].0@),
        entries_map(entries)[entries[i].0@] == entries[i].1,
{
    let key = entries[i].0@;
    assert(entry_at(entries, key, i));
    let k = choose|k: int| entry_at(entries, key, k);
    assert(entry_at(entries, key, k));
}

/// The place of the entry for `key`, or the number of entries if there is none.
fn position<const N: usize, V>(entries: &Vec<([u8; N], V)>, key: &[u8]) -> (r: usize)
    ensures
        r <= entries@.len(),
        r < entries@.len() ==> entry_at(entries@, key@, r as int),
        r == entries@.len() ==> !entries_map(entries@).contains_key(key@),
{
    let mut i: usize = 0;
    while i < entries.len()
        invariant
            i <= entries@.len(),
            forall|j: int| 0 <= j < i ==> !entry_at(entries@, key@, j),
        decreases entries@.len() - i,
    {
        if same_bytes(entries[i].0.as_slice(), key) {
            return i;
        }
        i = i + 1;
    }
    i
}

impl<const N: usize, V> View for ByteMap<N, V> {
    type V = Map<Seq<u8>, V>;

    closed spec fn view(&self) -> Map<Seq<u8>, V> {
        entries_map(self.entries@)
    }
}

impl<const N: usize, V> ByteMap<N, V> {
    #[verifier::type_invariant]
    spec fn wf(self) -> bool {
        distinct_keys(self.entries@)
    }

    pub fn new() -> (r: Self)
        ensures
            r@ == Map::<Seq<u8>, V>::empty(),
    {
        ByteMap { entries: Vec::new() }
    }

    /// The entries, each key once.
    pub fn entries(&self) -> (r: &Vec<([u8; N], V)>)
        ensures
            distinct_keys(r@),
            entries_map(r@) == self@,
    {
        proof {
            use_type_invariant(self);
        }
        &self.entries
    }

    /// The value for `key`.
    pub fn get(&self, key: &[u8]) -> (r: Option<&V>)
        ensures
            r is Some <==> self@.contains_key(key@),
            r matches Some(v) ==> *v == self@[key@],
    {
        proof {
            use_type_invariant(self);
        }
        let i: usize = position(&self.entries, key);
        if i < self.entries.len() {
            proof {
                lemma_entry(self.entries@, i as int);
            }
            Some(&self.entries[i].1)
        } else {
            None
        }
    }

    /// Sets the value for `key`, in place of an earlier one.
    pub fn insert(&mut self, key: [u8; N], value: V)
        ensures
            final(self)@ == old(self)@.insert(key@, value),
    {
        proof {
            use_type_invariant(&*self);
        }
        let mut entries: Vec<([u8; N], V)> = Vec::new();
        std::mem::swap(&mut entries, &mut self.entries);
        let ghost before = entries@;
        let i: usize = position(&entries, key.as_slice());
        if i < entries.len() {
            entries.set(i, (key, value));
        } else {
            entries.push((key, value));
        }
        proof {
            lemma_insert(before, entries@, i as int, key, value);
        }
        self.entries = entries;
    }
}

/// An entry that replaces the one for its key, or that is added where there is none.
proof fn lemma_insert<const N: usize, V>(
    before: Seq<([u8; N], V)>,
    after: Seq<([u8; N], V)>,
    i: int,
    key: [u8; N],
    value: V,
)
    requires
        distinct_keys(before),
        0 <= i <= before.len(),
        i < before.len() ==> entry_at(before, key@, i) && after == before.update(i, (key, value)),
        i == before.len() ==> !entries_map(before).contains_key(key@) && after == before.push(
            (key, value),
        ),
    ensures
        distinct_keys(after),
        entries_map(after) == entries_map(before).insert(key@, value),
{
    assert forall|a: int, b: int|
        0 <= a < after.len() && 0 <= b < after.len() && a != b implies (#[trigger] after[a]).0@ != (
    #[trigger] after[b]).0@ by {
        if i < before.len() {
            assert(before[a].0@ != before[b].0@);
        } else if a < i && b < i {
            assert(before[a].0@ != before[b].0@);
        } else if a < i {
            assert(!entry_at(before, key@, a));
        } else {
            assert(!entry_at(before, key@, b));
        }
    }
    let now = entries_map(before).insert(key@, value);
    assert forall|k: Seq<u8>| #[trigger] entries_map(after).contains_key(k) == now.contains_key(
        k,
    ) by {
        if k == key@ {
            assert(entry_at(after, k, i));
        } else {
            if entries_map(before).contains_key(k) {
                let j = choose|j: int| entry_at(before, k, j);
                assert(entry_at(after, k, j));
            }
            if entries_map(after).contains_key(k) {
                let j = choose|j: int| entry_at(after, k, j);
                assert(entry_at(before, k, j));
            }
        }
    }
    assert forall|k: Seq<u8>| entries_map(after).contains_key(k) implies #[trigger] entries_map(
        after,
    )[k] == now[k] by {
        let j = choose|j: int| entry_at(after, k, j);
        lemma_entry(after, j);
        if k == key@ {
            lemma_entry(after, i);
        } else {
            lemma_entry(before, j);
        }
    }
    assert(entries_map(after) =~= now);
}

/// A list of entries with distinct keys maps each of its keys, and nothing else, to the value
/// beside it.
pub proof fn law_entries_map<const N: usize, V>(entries: Seq<([u8; N], V)>, key: Seq<u8>)
    requires
        forall|i: int, j: int|
            0 <= i < j < entries.len() ==> (#[trigger] entries[i]).0@ != (
            #[trigger] entries[j]).0@,
    ensures
        entries_map(entries).contains_key(key) <==> exists|i: int|
            0 <= i < entries.len() && (#[trigger] entries[i]).0@ == key,
        forall|i: int|
            0 <= i < entries.len() && (#[trigger] entries[i]).0@ == key
                ==> entries_map(entries)[key] == entries[i].1,
{
    assert(distinct_keys(entries)) by {
        assert forall|i: int, j: int|
            0 <= i < entries.len() && 0 <= j < entries.len() && i != j implies (
        #[trigger] entries[i]).0@ != (#[trigger] entries[j]).0@ by {
            if i < j {
                assert(entries[i].0@ != entries[j].0@);
            } else {
                assert(entries[j].0@ != entries[i].0@);
            }
        }
    }
    if entries_map(entries).contains_key(key) {
        let i = choose|i: int| entry_at(entries, key, i);
        assert(entries[i].0@ == key);
    }
    assert forall|i: int| 0 <= i < entries.len() && (#[trigger] entries[i]).0@ == key implies
        entries_map(entries).contains_key(key) && entries_map(entries)[key] == entries[i].1 by {
        lemma_entry(entries, i);
    }
}

/// The entries of a map are its keys, each once, with their values.
pub proof fn law_entries<const N: usize, V>(
    map: &ByteMap<N, V>,
    key: Seq<u8>,
    r: &Vec<([u8; N], V)>,
)
    requires
        call_ensures(ByteMap::<N, V>::entries, (map,), r),
    ensures
        forall|i: int, j: int|
            0 <= i < j < r@.len() ==> (#[trigger] r@[i]).0@ != (#[trigger] r@[j]).0@,
        map@.contains_key(key) <==> exists|i: int|
            0 <= i < r@.len() && (#[trigger] r@[i]).0@ == key,
        forall|i: int|
            0 <= i < r@.len() && (#[trigger] r@[i]).0@ == key ==> map@[key] == r@[i].1,
{
    law_entries_map(r@, key);
}

/// What is asked for by a key is the value that the map has for it.
pub proof fn law_get<const N: usize, V>(map: &ByteMap<N, V>, key: &[u8], r: Option<&V>)
    requires
        call_ensures(ByteMap::<N, V>::get, (map, key), r),
    ensures
        r is Some <==> map@.contains_key(key@),
        r matches Some(v) ==> *v == map@[key@],
{
}

/// A new map has no keys.
pub proof fn law_new<const N: usize, V>(r: ByteMap<N, V>, key: Seq<u8>)
    requires
        call_ensures(ByteMap::<N, V>::new, (), r),
    ensures
        !r@.contains_key(key),
{
}

/// After a value is set for a key the map has it, and every other key is as it was.
pub proof fn law_insert<const N: usize, V>(
    map: &mut ByteMap<N, V>,
    key: [u8; N],
    value: V,
    other: Seq<u8>,
)
    requires
        call_ensures(ByteMap::<N, V>::insert, (map, key, value), ()),
    ensures
        final(map)@.contains_key(key@),
        final(map)@[key@] == value,
        other != key@ ==> (final(map)@.contains_key(other) <==> old(map)@.contains_key(other)),
        other != key@ && old(map)@.contains_key(other) ==> final(map)@[other] == old(map)@[other],
{
}

} // verus!
