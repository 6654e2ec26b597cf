//! The aggregate snapshot delivered by a producer: a counter, a last-update
//! marker, and a keyed mapping of events whose keys are unique by
//! construction (inserting an existing key overwrites its event).

use vstd::prelude::*;
use crate::event::Event;

verus! {

/// The keys of a mapping, in its own order.
pub open spec fn keys_of<E: Event>(m: Seq<(Seq<char>, E)>) -> Seq<Seq<char>> {
    m.map_values(|p: (Seq<char>, E)| p.0)
}

/// No two entries of the mapping share a key.
pub open spec fn distinct_keys<E: Event>(m: Seq<(Seq<char>, E)>) -> bool {
    forall|i: int, j: int| 0 <= i < j < m.len() ==> m[i].0 != m[j].0
}

/// Some entry of the mapping has key `k`.
pub open spec fn has_key<E: Event>(m: Seq<(Seq<char>, E)>, k: Seq<char>) -> bool {
    exists|j: int| 0 <= j < m.len() && m[j].0 == k
}

/// The position of the entry with key `k` (unambiguous when keys are distinct).
pub open spec fn key_index<E: Event>(m: Seq<(Seq<char>, E)>, k: Seq<char>) -> int {
    choose|j: int| 0 <= j < m.len() && m[j].0 == k
}

/// The presentation text of the event stored under key `k`.
pub open spec fn pres_at_key<E: Event>(m: Seq<(Seq<char>, E)>, k: Seq<char>) -> Seq<char> {
    m[key_index(m, k)].1.spec_presentation()
}

/// Keyed overwrite: replace the event of an existing key, else append the
/// new entry.
pub open spec fn spec_insert<E: Event>(m: Seq<(Seq<char>, E)>, k: Seq<char>, e: E) -> Seq<
    (Seq<char>, E),
> {
    if has_key(m, k) {
        m.update(key_index(m, k), (k, e))
    } else {
        m.push((k, e))
    }
}

/// A mapping from string key to owned event. Keys are unique by
/// construction: insertion overwrites the event of an existing key.
pub struct EventMap<E: Event> {
    entries: Vec<(String, E)>,
}

impl<E: Event> View for EventMap<E> {
    type V = Seq<(Seq<char>, E)>;

    closed spec fn view(&self) -> Seq<(Seq<char>, E)> {
        self.entries@.map_values(|p: (String, E)| (p.0@, p.1))
    }
}

impl<E: Event> EventMap<E> {
    /// Holds of every value of the type: keys are unique by construction.
    /// Learn it with `use_type_invariant`.
    #[verifier::type_invariant]
    pub open spec fn well_formed(self) -> bool {
        distinct_keys(self@)
    }

    pub fn new() -> (m: EventMap<E>)
        ensures
            m@ == Seq::<(Seq<char>, E)>::empty(),
    {
        let m = EventMap { entries: Vec::new() };
        proof {
            assert(m@ =~= Seq::<(Seq<char>, E)>::empty());
        }
        m
    }

    /// How many events the mapping holds.
    pub fn len(&self) -> (n: usize)
        ensures
            n == self@.len(),
    {
        self.entries.len()
    }

    /// The position of the entry whose key equals `key`, if any.
    pub fn find_index(&self, key: &String) -> (r: Option<usize>)
        ensures
            match r {
                Some(w) => w < self@.len() && self@[w as int].0 == key@,
                None => forall|j: int| 0 <= j < self@.len() ==> self@[j].0 != key@,
            },
    {
        let n = self.entries.len();
        let mut i: usize = 0;
        while i < n
            invariant
                n == self@.len(),
                i <= n,
                forall|j: int| 0 <= j < i ==> self@[j].0 != key@,
            decreases n - i,
        {
            if key.eq(&self.entries[i].0) {
                return Some(i);
            }
            i = i + 1;
        }
        None
    }

    /// The event of the entry at position `i`.
    pub fn get(&self, i: usize) -> (e: &E)
        requires
            i < self@.len(),
        ensures
            *e == self@[i as int].1,
    {
        &self.entries[i].1
    }

    /// The key and event of the entry at position `i`.
    pub fn entry(&self, i: usize) -> (kv: (&String, &E))
        requires
            i < self@.len(),
        ensures
            kv.0@ == self@[i as int].0,
            *kv.1 == self@[i as int].1,
    {
        (&self.entries[i].0, &self.entries[i].1)
    }

    /// A copy of all keys, in the mapping's own order.
    pub fn keys(&self) -> (ks: Vec<String>)
        ensures
            ks@.len() == self@.len(),
            forall|j: int| 0 <= j < self@.len() ==> ks@[j]@ == self@[j].0,
    {
        let n = self.entries.len();
        let mut ks: Vec<String> = Vec::new();
        let mut i: usize = 0;
        while i < n
            invariant
                n == self@.len(),
                i <= n,
                ks@.len() == i,
                forall|j: int| 0 <= j < i ==> ks@[j]@ == self@[j].0,
            decreases n - i,
        {
            ks.push(self.entries[i].0.clone());
            i = i + 1;
        }
        ks
    }

    /// Keyed overwrite: replace the event of an existing key, else append.
    pub fn insert(&mut self, key: String, e: E)
        ensures
            final(self)@ == spec_insert(old(self)@, key@, e),
    {
        proof {
            use_type_invariant(&*self);
        }
        let ghost m = self@;
        let w_opt = self.find_index(&key);
        let mut entries: Vec<(String, E)> = Vec::new();
        core::mem::swap(&mut self.entries, &mut entries);
        let ghost new_view = spec_insert(m, key@, e);
        match w_opt {
            Some(w) => {
                entries[w] = (key, e);
                proof {
                    let j = key_index(m, key@);
                    assert(0 <= j < m.len() && m[j].0 == key@);
                    assert(j == w);
                    assert(entries@.map_values(|p: (String, E)| (p.0@, p.1)) =~= m.update(
                        w as int,
                        (key@, e),
                    ));
                }
            },
            None => {
                entries.push((key, e));
                proof {
                    assert(!has_key(m, key@));
                    assert(entries@.map_values(|p: (String, E)| (p.0@, p.1)) =~= m.push(
                        (key@, e),
                    ));
                }
            },
        }
        proof {
            let ev = entries@.map_values(|p: (String, E)| (p.0@, p.1));
            assert(ev == new_view);
            assert forall|i: int, j: int| 0 <= i < j < ev.len() implies ev[i].0 != ev[j].0 by {
                if has_key(m, key@) {
                } else {
                    if j == m.len() {
                        assert(ev[j].0 == key@);
                        assert(ev[i].0 == m[i].0);
                    }
                }
            }
        }
        self.entries = entries;
        proof {
            assert(self@ =~= new_view);
        }
    }
}

/// An atomic snapshot of all currently known events, a counter kept by the
/// producer, and the key it most recently touched.
pub struct Events<E: Event> {
    pub global_counter: i32,
    pub last_update: String,
    pub events_map: EventMap<E>,
}

impl<E: Event> Events<E> {
    /// Deep copy of the snapshot: same counter, same last-update marker,
    /// and an event under each key whose observations equal the original's.
    pub fn clone_events(&self) -> (r: Events<E>)
        ensures
            r.global_counter == self.global_counter,
            r.last_update@ == self.last_update@,
            r.events_map@.len() == self.events_map@.len(),
            forall|j: int|
                0 <= j < self.events_map@.len() ==> {
                    &&& (#[trigger] r.events_map@[j]).0 == self.events_map@[j].0
                    &&& r.events_map@[j].1.spec_presentation()
                        == self.events_map@[j].1.spec_presentation()
                    &&& r.events_map@[j].1.spec_time() == self.events_map@[j].1.spec_time()
                    &&& r.events_map@[j].1.spec_id() == self.events_map@[j].1.spec_id()
                },
    {
        proof {
            use_type_invariant(&self.events_map);
        }
        let n = self.events_map.len();
        let mut new_map: EventMap<E> = EventMap::new();
        let mut i: usize = 0;
        while i < n
            invariant
                n == self.events_map@.len(),
                i <= n,
                distinct_keys(self.events_map@),
                new_map@.len() == i,
                forall|j: int|
                    0 <= j < i ==> {
                        &&& (#[trigger] new_map@[j]).0 == self.events_map@[j].0
                        &&& new_map@[j].1.spec_presentation()
                            == self.events_map@[j].1.spec_presentation()
                        &&& new_map@[j].1.spec_time() == self.events_map@[j].1.spec_time()
                        &&& new_map@[j].1.spec_id() == self.events_map@[j].1.spec_id()
                    },
            decreases n - i,
        {
            let (k, ev) = self.events_map.entry(i);
            let ghost before = new_map@;
            new_map.insert(k.clone(), ev.clone_dyn());
            proof {
                assert forall|j: int| 0 <= j < i implies before[j].0 != self.events_map@[
                    i as int
                ].0 by {
                    assert(before[j].0 == self.events_map@[j].0);
                }
                assert(!has_key(before, self.events_map@[i as int].0));
            }
            i = i + 1;
        }
        Events { global_counter: self.global_counter, last_update: self.last_update.clone(), events_map: new_map }
    }
}

} // verus!
