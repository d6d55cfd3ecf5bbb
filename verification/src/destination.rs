//! The objects listed at a destination.
use vstd::hash_map::StringHashMap;
use vstd::hash_set::StringHashSet;
use vstd::prelude::*;
use vstd::string::*;

use crate::zip_manifest::opt_view;

verus! {

/// A listed destination object.
#[derive(Debug)]
pub struct DestinationObject {
    pub etag: Option<String>,
    pub size: Option<u64>,
}

pub struct DestinationView {
    pub etag: Option<Seq<char>>,
    pub size: Option<u64>,
}

impl View for DestinationObject {
    type V = DestinationView;

    open spec fn view(&self) -> DestinationView {
        DestinationView { etag: opt_view(self.etag), size: self.size }
    }
}

pub open spec fn opt_destination(object: Option<&DestinationObject>) -> Option<DestinationView> {
    match object {
        Some(object) => Some(object@),
        None => None,
    }
}

/// The objects under a destination prefix, by key.
pub struct DestinationListing {
    keys: Vec<String>,
    objects: StringHashMap<DestinationObject>,
}

/// Whether a key is in a list.
pub open spec fn has_key(keys: Seq<String>, key: Seq<char>) -> bool {
    exists|i: int| 0 <= i < keys.len() && (#[trigger] keys[i])@ == key
}

pub open spec fn keys_distinct(keys: Seq<String>) -> bool {
    forall|i: int, j: int|
        0 <= i < j < keys.len() ==> (#[trigger] keys[i])@ != (#[trigger] keys[j])@
}

/// Whether some keys are those of the listed objects that are not expected, each once.
/// Where nothing is expected to be deleted, there are none.
pub open spec fn are_extra(
    extra: Seq<String>,
    listed: Map<Seq<char>, DestinationView>,
    expected: Option<Set<Seq<char>>>,
) -> bool {
    &&& keys_distinct(extra)
    &&& match expected {
        Some(keys) => forall|key: Seq<char>| #[trigger]
            has_key(extra, key) <==> listed.contains_key(key) && !keys.contains(key),
        None => extra.len() == 0,
    }
}

/// The keys of a set, where there is one.
pub open spec fn opt_keys(keys: Option<StringHashSet>) -> Option<Set<Seq<char>>> {
    match keys {
        Some(keys) => Some(keys@),
        None => None,
    }
}

impl View for DestinationListing {
    type V = Map<Seq<char>, DestinationView>;

    closed spec fn view(&self) -> Map<Seq<char>, DestinationView> {
        self.objects@.map_values(|object: DestinationObject| object@)
    }
}

impl DestinationListing {
    /// Every object's key is listed once, in the order of first occurrence.
    pub closed spec fn wf(&self) -> bool {
        &&& keys_distinct(self.keys@)
        &&& forall|key: Seq<char>| #[trigger]
            self.objects@.contains_key(key) <==> has_key(self.keys@, key)
    }

    pub fn new() -> (listing: DestinationListing)
        ensures
            listing.wf(),
            listing@ == Map::<Seq<char>, DestinationView>::empty(),
    {
        let listing = DestinationListing { keys: Vec::new(), objects: StringHashMap::new() };
        assert(listing@ =~= Map::<Seq<char>, DestinationView>::empty());
        listing
    }

    /// Adds an object. An object listed before under the key is replaced.
    pub fn insert(&mut self, key: String, object: DestinationObject)
        requires
            old(self).wf(),
        ensures
            final(self).wf(),
            final(self)@ == old(self)@.insert(key@, object@),
    {
        let ghost before = self.objects@;
        let ghost keys = self.keys@;
        if !self.objects.contains_key(&key) {
            self.keys.push(key.clone());
        }
        let ghost added = key@;
        self.objects.insert(key, object);
        proof {
            let now = self.keys@;
            if !before.contains_key(added) {
                assert(!has_key(keys, added));
                assert forall|i: int, j: int| 0 <= i < j < now.len() implies (#[trigger] now[i])@
                    != (#[trigger] now[j])@ by {
                    if j == keys.len() {
                        assert(keys[i]@ != added);
                    } else {
                        assert(keys[i]@ != keys[j]@);
                    }
                }
            }
            assert forall|other: Seq<char>| #[trigger]
                self.objects@.contains_key(other) <==> has_key(now, other) by {
                assert(before.contains_key(other) <==> has_key(keys, other));
                if has_key(keys, other) {
                    let i = choose|i: int| 0 <= i < keys.len() && (#[trigger] keys[i])@ == other;
                    assert(now[i]@ == other);
                }
                if other == added && !before.contains_key(added) {
                    assert(now[keys.len() as int]@ == other);
                }
                if has_key(now, other) && other != added {
                    let i = choose|i: int| 0 <= i < now.len() && (#[trigger] now[i])@ == other;
                    assert(keys[i]@ == other);
                }
            }
        }
        assert(self@ =~= old(self)@.insert(added, object@));
    }

    /// The object with a key.
    pub fn get(&self, key: &str) -> (object: Option<&DestinationObject>)
        ensures
            opt_destination(object) == if self@.contains_key(key@) {
                Some(self@[key@])
            } else {
                None
            },
    {
        self.objects.get(key)
    }

    /// The number of objects.
    pub fn len(&self) -> (len: usize)
        ensures
            len == self@.len(),
    {
        proof {
            assert(self@.dom() =~= self.objects@.dom());
        }
        self.objects.len()
    }

    /// The keys of the objects that are not expected, in the order of listing.
    pub fn extra_keys(&self, expected: &StringHashSet) -> (extra: Vec<String>)
        requires
            self.wf(),
        ensures
            are_extra(extra@, self@, Some(expected@)),
    {
        let mut extra: Vec<String> = Vec::new();
        let mut i: usize = 0;
        while i < self.keys.len()
            invariant
                self.wf(),
                i <= self.keys.len(),
                keys_distinct(extra@),
                forall|key: Seq<char>| #[trigger]
                    has_key(extra@, key) <==> has_key(self.keys@.take(i as int), key)
                        && !expected@.contains(key),
            decreases self.keys.len() - i,
        {
            let ghost before = extra@;
            let ghost seen = self.keys@.take(i as int);
            let ghost now = self.keys@.take(i + 1);
            let ghost current = self.keys@[i as int]@;
            proof {
                assert(now =~= seen.push(self.keys@[i as int]));
                assert(!has_key(seen, current)) by {
                    if has_key(seen, current) {
                        let k = choose|k: int|
                            0 <= k < seen.len() && (#[trigger] seen[k])@ == current;
                        assert(self.keys@[k]@ != self.keys@[i as int]@);
                    }
                }
            }
            if !expected.contains(&self.keys[i]) {
                extra.push(self.keys[i].clone());
            }
            i += 1;
            proof {
                let after = extra@;
                assert forall|key: Seq<char>| #[trigger]
                    has_key(after, key) <==> has_key(now, key) && !expected@.contains(key) by {
                    assert(has_key(before, key) <==> has_key(seen, key) && !expected@.contains(
                        key,
                    ));
                    lemma_push_key(seen, self.keys@[i - 1], key);
                    if after.len() > before.len() {
                        lemma_push_key(before, after.last(), key);
                        assert(after =~= before.push(after.last()));
                    }
                }
                assert forall|a: int, b: int| 0 <= a < b < after.len() implies (
                #[trigger] after[a])@ != (#[trigger] after[b])@ by {
                    if b == before.len() {
                        assert(before[a]@ == after[a]@);
                        assert(has_key(before, before[a]@));
                        assert(has_key(seen, before[a]@));
                    } else {
                        assert(before[a]@ != before[b]@);
                    }
                }
            }
        }
        proof {
            assert(self.keys@.take(i as int) =~= self.keys@);
            assert forall|key: Seq<char>| #[trigger]
                has_key(extra@, key) <==> self@.contains_key(key) && !expected@.contains(key) by {
                assert(self.objects@.contains_key(key) <==> has_key(self.keys@, key));
            }
        }
        extra
    }
}

proof fn lemma_push_key(keys: Seq<String>, added: String, key: Seq<char>)
    ensures
        has_key(keys.push(added), key) <==> has_key(keys, key) || added@ == key,
{
    let now = keys.push(added);
    if has_key(keys, key) {
        let i = choose|i: int| 0 <= i < keys.len() && (#[trigger] keys[i])@ == key;
        assert(now[i]@ == key);
    }
    if added@ == key {
        assert(now[keys.len() as int]@ == key);
    }
    if has_key(now, key) && added@ != key {
        let i = choose|i: int| 0 <= i < now.len() && (#[trigger] now[i])@ == key;
        assert(keys[i]@ == key);
    }
}

} // verus!
