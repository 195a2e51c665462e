//! The chunk cache: the least recently used map of the `lru` crate.
use crate::content;
use bytes::Bytes;
use lru::LruCache;
use vstd::prelude::*;

verus! {

/// The map type of the `lru` crate.
#[verifier::external_type_specification]
#[verifier::external_body]
#[verifier::reject_recursive_types(K)]
#[verifier::reject_recursive_types(V)]
#[verifier::reject_recursive_types(S)]
pub struct ExLruCache<K, V, S>(lru::LruCache<K, V, S>);

/// The default hasher of the `lru` crate.
#[verifier::external_type_specification]
#[verifier::external_body]
pub struct ExDefaultHasher(lru::DefaultHasher);

/// The addresses in a cache with the bytes behind them, most recently used first.
pub uninterp spec fn entries(cache: LruCache<[u8; 32], Bytes>) -> Seq<(Seq<u8>, Seq<u8>)>;

/// The largest number of entries of a cache.
pub uninterp spec fn capacity(cache: LruCache<[u8; 32], Bytes>) -> nat;

/// The bytes behind an address.
pub open spec fn lookup(entries: Seq<(Seq<u8>, Seq<u8>)>, address: Seq<u8>) -> Option<Seq<u8>>
    decreases entries.len(),
{
    if entries.len() == 0 {
        None
    } else if entries[0].0 == address {
        Some(entries[0].1)
    } else {
        lookup(entries.skip(1), address)
    }
}

/// The entries without an address.
pub open spec fn without(entries: Seq<(Seq<u8>, Seq<u8>)>, address: Seq<u8>) -> Seq<
    (Seq<u8>, Seq<u8>),
>
    decreases entries.len(),
{
    if entries.len() == 0 {
        entries
    } else if entries[0].0 == address {
        entries.skip(1)
    } else {
        seq![entries[0]] + without(entries.skip(1), address)
    }
}

/// The entries with an address and its bytes in front. Where the address is new and the
/// cache is full, the last entry goes.
pub open spec fn with_entry(
    entries: Seq<(Seq<u8>, Seq<u8>)>,
    capacity: nat,
    address: Seq<u8>,
    bytes: Seq<u8>,
) -> Seq<(Seq<u8>, Seq<u8>)> {
    if lookup(entries, address) is Some {
        seq![(address, bytes)] + without(entries, address)
    } else if entries.len() == capacity {
        seq![(address, bytes)] + entries.drop_last()
    } else {
        seq![(address, bytes)] + entries
    }
}

/// `LruCache::new`: an empty cache of this capacity.
#[verifier::external_body]
pub(crate) fn with_capacity(limit: usize) -> (r: LruCache<[u8; 32], Bytes>)
    requires
        limit > 0,
    ensures
        entries(r) == Seq::<(Seq<u8>, Seq<u8>)>::empty(),
        capacity(r) == limit,
{
    LruCache::new(std::num::NonZeroUsize::new(limit).unwrap_or(std::num::NonZeroUsize::MIN))
}

/// `LruCache::get`, with the value cloned: the bytes behind an address, which becomes
/// the most recently used one.
#[verifier::external_body]
pub(crate) fn get(cache: &mut LruCache<[u8; 32], Bytes>, address: &[u8; 32]) -> (r: Option<Bytes>)
    ensures
        capacity(*final(cache)) == capacity(*old(cache)),
        match lookup(entries(*old(cache)), address@) {
            Some(bytes) => {
                &&& r is Some
                &&& content::contents(r->0) == bytes
                &&& entries(*final(cache)) == seq![(address@, bytes)] + without(
                    entries(*old(cache)),
                    address@,
                )
            },
            None => r is None && entries(*final(cache)) == entries(*old(cache)),
        },
{
    cache.get(address).cloned()
}

/// `LruCache::put`: the address with its bytes becomes the most recently used entry; a
/// full cache loses its least recently used one to a new address.
#[verifier::external_body]
pub(crate) fn put(cache: &mut LruCache<[u8; 32], Bytes>, address: [u8; 32], bytes: Bytes)
    ensures
        capacity(*final(cache)) == capacity(*old(cache)),
        entries(*final(cache)) == with_entry(
            entries(*old(cache)),
            capacity(*old(cache)),
            address@,
            content::contents(bytes),
        ),
{
    cache.put(address, bytes);
}

/// `LruCache::pop`: the address leaves the cache.
#[verifier::external_body]
pub(crate) fn pop(cache: &mut LruCache<[u8; 32], Bytes>, address: &[u8; 32])
    ensures
        capacity(*final(cache)) == capacity(*old(cache)),
        entries(*final(cache)) == without(entries(*old(cache)), address@),
{
    cache.pop(address);
}

// ---------------------------------------------------------------------------
// Facts about entries
// ---------------------------------------------------------------------------

/// Whether no address occurs twice.
pub open spec fn addresses_differ(entries: Seq<(Seq<u8>, Seq<u8>)>) -> bool {
    forall|i: int, j: int|
        #![trigger entries[i], entries[j]]
        0 <= i < j < entries.len() ==> entries[i].0 != entries[j].0
}

/// Removing an address leaves a part of the entries, without that address where no
/// address occurs twice.
pub proof fn lemma_without(entries: Seq<(Seq<u8>, Seq<u8>)>, address: Seq<u8>)
    ensures
        forall|i: int|
            #![trigger without(entries, address)[i]]
            0 <= i < without(entries, address).len() ==> entries.contains(
                without(entries, address)[i],
            ),
        lookup(entries, address) is Some ==> without(entries, address).len() + 1 == entries.len(),
        lookup(entries, address) is None ==> without(entries, address) == entries,
        addresses_differ(entries) ==> {
            &&& addresses_differ(without(entries, address))
            &&& forall|i: int|
                #![trigger without(entries, address)[i]]
                0 <= i < without(entries, address).len() ==> without(entries, address)[i].0
                    != address
        },
    decreases entries.len(),
{
    let w = without(entries, address);
    if entries.len() > 0 {
        let tail = entries.skip(1);
        if entries[0].0 == address {
            assert forall|i: int| #![trigger w[i]] 0 <= i < w.len() implies entries.contains(
                w[i],
            ) by {
                assert(w[i] == entries[i + 1]);
            }
            if addresses_differ(entries) {
                assert forall|i: int, j: int|
                    #![trigger w[i], w[j]]
                    0 <= i < j < w.len() implies w[i].0 != w[j].0 by {
                    assert(w[i] == entries[i + 1] && w[j] == entries[j + 1]);
                }
                assert forall|i: int| #![trigger w[i]] 0 <= i < w.len() implies w[i].0
                    != address by {
                    assert(w[i] == entries[i + 1]);
                    assert(entries[0].0 != entries[i + 1].0);
                }
            }
        } else {
            lemma_without(tail, address);
            let wt = without(tail, address);
            assert forall|i: int| #![trigger w[i]] 0 <= i < w.len() implies entries.contains(
                w[i],
            ) by {
                if i == 0 {
                    assert(w[0] == entries[0]);
                } else {
                    assert(w[i] == wt[i - 1]);
                    assert(tail.contains(wt[i - 1]));
                    let k = choose|k: int| 0 <= k < tail.len() && tail[k] == wt[i - 1];
                    assert(entries[k + 1] == w[i]);
                }
            }
            if lookup(entries, address) is None {
                assert(w =~= entries);
            }
            if addresses_differ(entries) {
                assert forall|i: int, j: int|
                    #![trigger tail[i], tail[j]]
                    0 <= i < j < tail.len() implies tail[i].0 != tail[j].0 by {
                    assert(tail[i] == entries[i + 1] && tail[j] == entries[j + 1]);
                }
                assert(addresses_differ(wt));
                assert forall|i: int, j: int|
                    #![trigger w[i], w[j]]
                    0 <= i < j < w.len() implies w[i].0 != w[j].0 by {
                    assert(w[j] == wt[j - 1]);
                    if i == 0 {
                        assert(tail.contains(wt[j - 1]));
                        let k = choose|k: int| 0 <= k < tail.len() && tail[k] == wt[j - 1];
                        assert(entries[k + 1] == w[j]);
                        assert(entries[0].0 != entries[k + 1].0);
                    } else {
                        assert(w[i] == wt[i - 1]);
                    }
                }
                assert forall|i: int| #![trigger w[i]] 0 <= i < w.len() implies w[i].0
                    != address by {
                    if i > 0 {
                        assert(w[i] == wt[i - 1]);
                    }
                }
            }
        }
    }
}

/// Removing an address that is found removes the entry at one place.
pub proof fn lemma_without_place(entries: Seq<(Seq<u8>, Seq<u8>)>, address: Seq<u8>) -> (place: int)
    ensures
        lookup(entries, address) is Some ==> {
            &&& 0 <= place < entries.len()
            &&& entries[place].0 == address
            &&& without(entries, address) == entries.remove(place)
        },
    decreases entries.len(),
{
    if entries.len() == 0 {
        0
    } else if entries[0].0 == address {
        assert(entries.skip(1) =~= entries.remove(0));
        0
    } else {
        let tail = entries.skip(1);
        let place = lemma_without_place(tail, address);
        if lookup(entries, address) is Some {
            assert(seq![entries[0]] + tail.remove(place) =~= entries.remove(place + 1));
        }
        place + 1
    }
}

/// An address that is found is that of some entry.
pub proof fn lemma_lookup(entries: Seq<(Seq<u8>, Seq<u8>)>, address: Seq<u8>)
    ensures
        match lookup(entries, address) {
            Some(bytes) => entries.contains((address, bytes)),
            None => forall|i: int|
                #![trigger entries[i]]
                0 <= i < entries.len() ==> entries[i].0 != address,
        },
    decreases entries.len(),
{
    if entries.len() > 0 {
        if entries[0].0 == address {
            assert(entries[0] == (address, entries[0].1));
        } else {
            let tail = entries.skip(1);
            lemma_lookup(tail, address);
            match lookup(tail, address) {
                Some(bytes) => {
                    let k = choose|k: int| 0 <= k < tail.len() && tail[k] == (address, bytes);
                    assert(entries[k + 1] == (address, bytes));
                },
                None => {
                    assert forall|i: int|
                        #![trigger entries[i]]
                        0 <= i < entries.len() implies entries[i].0 != address by {
                        if i > 0 {
                            assert(entries[i] == tail[i - 1]);
                        }
                    }
                },
            }
        }
    }
}

proof fn lemma_lookup_after(
    first: (Seq<u8>, Seq<u8>),
    entries: Seq<(Seq<u8>, Seq<u8>)>,
    address: Seq<u8>,
)
    ensures
        first.0 != address ==> lookup(seq![first] + entries, address) == lookup(entries, address),
{
    assert((seq![first] + entries).skip(1) =~= entries);
}

proof fn lemma_lookup_without(
    entries: Seq<(Seq<u8>, Seq<u8>)>,
    removed: Seq<u8>,
    address: Seq<u8>,
)
    requires
        removed != address,
    ensures
        lookup(without(entries, removed), address) == lookup(entries, address),
    decreases entries.len(),
{
    if entries.len() > 0 {
        let tail = entries.skip(1);
        lemma_lookup_without(tail, removed, address);
        if entries[0].0 != removed {
            let w = without(tail, removed);
            assert(without(entries, removed) == seq![entries[0]] + w);
            assert((seq![entries[0]] + w).skip(1) =~= w);
        }
    }
}

proof fn lemma_lookup_drop_last(entries: Seq<(Seq<u8>, Seq<u8>)>, address: Seq<u8>)
    requires
        entries.len() > 0,
        entries.last().0 != address,
    ensures
        lookup(entries.drop_last(), address) == lookup(entries, address),
    decreases entries.len(),
{
    let tail = entries.skip(1);
    if entries.len() > 1 && entries[0].0 != address {
        assert(tail.last() == entries.last());
        lemma_lookup_drop_last(tail, address);
        assert(entries.drop_last().skip(1) =~= tail.drop_last());
    } else if entries.len() == 1 {
        assert(lookup(tail, address) is None);
        assert(lookup(entries.drop_last(), address) is None);
    }
}

/// Putting an entry in leaves all others in place, save the least recently used one of a
/// full cache.
pub proof fn other_entries_stay(
    entries: Seq<(Seq<u8>, Seq<u8>)>,
    capacity: nat,
    address: Seq<u8>,
    bytes: Seq<u8>,
    other: Seq<u8>,
)
    requires
        other != address,
        entries.len() == capacity && lookup(entries, address) is None ==> entries.len() > 0
            && entries.last().0 != other,
    ensures
        lookup(with_entry(entries, capacity, address, bytes), other) == lookup(entries, other),
{
    if lookup(entries, address) is Some {
        lemma_lookup_without(entries, address, other);
        lemma_lookup_after((address, bytes), without(entries, address), other);
    } else if entries.len() == capacity {
        lemma_lookup_drop_last(entries, other);
        lemma_lookup_after((address, bytes), entries.drop_last(), other);
    } else {
        lemma_lookup_after((address, bytes), entries, other);
    }
}

/// An entry that was put in is found, until something else changes the cache.
pub proof fn entry_is_found(
    entries: Seq<(Seq<u8>, Seq<u8>)>,
    capacity: nat,
    address: Seq<u8>,
    bytes: Seq<u8>,
)
    ensures
        lookup(with_entry(entries, capacity, address, bytes), address) == Some(bytes),
{
    assert(with_entry(entries, capacity, address, bytes)[0] == (address, bytes));
}

/// What is found under an address is what stands with its first occurrence; nothing is
/// found where it does not occur. Gives the place.
pub proof fn the_first_occurrence_is_found(
    entries: Seq<(Seq<u8>, Seq<u8>)>,
    address: Seq<u8>,
) -> (place: int)
    ensures
        match lookup(entries, address) {
            Some(bytes) => {
                &&& 0 <= place < entries.len()
                &&& entries[place] == (address, bytes)
                &&& forall|i: int| #![trigger entries[i]] 0 <= i < place ==> entries[i].0 != address
                &&& without(entries, address) == entries.remove(place)
            },
            None => {
                &&& forall|i: int|
                    #![trigger entries[i]]
                    0 <= i < entries.len() ==> entries[i].0 != address
                &&& without(entries, address) == entries
            },
        },
    decreases entries.len(),
{
    if entries.len() == 0 {
        0
    } else if entries[0].0 == address {
        assert(entries.skip(1) =~= entries.remove(0));
        0
    } else {
        let tail = entries.skip(1);
        let place = the_first_occurrence_is_found(tail, address);
        assert forall|i: int|
            #![trigger entries[i]]
            0 <= i < entries.len() && (lookup(tail, address) is Some ==> i < place
                + 1) implies entries[i].0 != address by {
            if i > 0 {
                assert(entries[i] == tail[i - 1]);
            }
        }
        if lookup(entries, address) is Some {
            assert(seq![entries[0]] + tail.remove(place) =~= entries.remove(place + 1));
        } else {
            assert(seq![entries[0]] + tail =~= entries);
        }
        place + 1
    }
}

/// An entry that is put in comes first. Behind it stand all others in their order, except
/// its own former self, or the last one of a full cache that did not hold it.
pub proof fn entries_are_put_in_front(
    entries: Seq<(Seq<u8>, Seq<u8>)>,
    capacity: nat,
    address: Seq<u8>,
    bytes: Seq<u8>,
)
    ensures
        with_entry(entries, capacity, address, bytes).len() > 0,
        with_entry(entries, capacity, address, bytes)[0] == (address, bytes),
        with_entry(entries, capacity, address, bytes).skip(1) == if lookup(
            entries,
            address,
        ) is Some {
            without(entries, address)
        } else if entries.len() == capacity {
            entries.drop_last()
        } else {
            entries
        },
        0 < capacity && entries.len() <= capacity ==> with_entry(
            entries,
            capacity,
            address,
            bytes,
        ).len() <= capacity,
{
    let filled = with_entry(entries, capacity, address, bytes);
    lemma_without(entries, address);
    if lookup(entries, address) is Some {
        assert(filled.skip(1) =~= without(entries, address));
    } else if entries.len() == capacity {
        assert(filled.skip(1) =~= entries.drop_last());
    } else {
        assert(filled.skip(1) =~= entries);
    }
}

} // verus!
