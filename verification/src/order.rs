//! The ordering engine: the two algorithms that linearize a snapshot's
//! keyed mapping into a display-ordered sequence of presentation strings,
//! together with the index of the most recently updated entry.

use vstd::prelude::*;
use vstd::relations::sorted_by;
use vstd::seq_lib::lemma_sorted_unique;
use crate::batch::{distinct_keys, has_key, key_index, keys_of, pres_at_key, Events};
use crate::event::Event;
use crate::lexorder::{key_le, lemma_key_le_total_ordering};
use crate::line::EventLine;

verus! {

/// Direction flag: ascending timestamps.
pub const ASC: i32 = 0;

/// Direction flag: descending timestamps.
pub const DESC: i32 = 1;

/// The view of each string in a sequence of strings.
pub open spec fn views_of(ss: Seq<String>) -> Seq<Seq<char>> {
    ss.map_values(|s: String| s@)
}

/// The keys of the mapping, in ascending lexicographic order.
pub open spec fn sorted_keys<E: Event>(m: Seq<(Seq<char>, E)>) -> Seq<Seq<char>> {
    keys_of(m).sort_by(key_le())
}

/// The display sequence of the key-order algorithm: the presentation of
/// each event, visited in ascending lexicographic key order.
pub open spec fn display_list<E: Event>(m: Seq<(Seq<char>, E)>) -> Seq<Seq<char>> {
    sorted_keys(m).map_values(|k: Seq<char>| pres_at_key(m, k))
}

/// The index the key-order algorithm highlights: the rank of `lu` among
/// the sorted keys when some entry has key `lu`, else 0.
pub open spec fn highlight_index<E: Event>(m: Seq<(Seq<char>, E)>, lu: Seq<char>) -> int {
    if has_key(m, lu) {
        sorted_keys(m).index_of(lu)
    } else {
        0
    }
}

/// For a mapping with distinct keys, its sorted keys: same length, same
/// multiset of keys, pairwise ordered, still distinct, and holding exactly
/// the mapping's keys.
pub proof fn lemma_sorted_keys_facts<E: Event>(m: Seq<(Seq<char>, E)>)
    requires
        distinct_keys(m),
    ensures
        sorted_keys(m).len() == m.len(),
        sorted_by(sorted_keys(m), key_le()),
        sorted_keys(m).to_multiset() == keys_of(m).to_multiset(),
        sorted_keys(m).no_duplicates(),
        forall|k: Seq<char>| #[trigger] sorted_keys(m).contains(k) <==> has_key(m, k),
{
    broadcast use vstd::seq_lib::group_to_multiset_ensures;

    lemma_key_le_total_ordering();
    keys_of(m).lemma_sort_by_ensures(key_le());
    let ks = keys_of(m);
    let sk = sorted_keys(m);
    assert(ks.len() == m.len());
    assert(sk.to_multiset() =~= ks.to_multiset());
    assert(sk.len() == sk.to_multiset().len());
    assert(ks.len() == ks.to_multiset().len());
    assert(ks.no_duplicates()) by {
        assert forall|i: int, j: int|
            0 <= i < ks.len() && 0 <= j < ks.len() && i != j implies ks[i] != ks[j] by {
            assert(ks[i] == m[i].0);
            assert(ks[j] == m[j].0);
        }
    }
    ks.lemma_multiset_has_no_duplicates();
    sk.lemma_multiset_has_no_duplicates_conv();
    assert forall|k: Seq<char>| #[trigger] sk.contains(k) <==> has_key(m, k) by {
        assert(sk.contains(k) <==> sk.to_multiset().count(k) > 0);
        assert(ks.contains(k) <==> ks.to_multiset().count(k) > 0);
        if ks.contains(k) {
            let i = choose|i: int| 0 <= i < ks.len() && ks[i] == k;
            assert(m[i].0 == k);
        }
        if has_key(m, k) {
            let i = choose|i: int| 0 <= i < m.len() && m[i].0 == k;
            assert(ks[i] == k);
        }
    }
}

/// Timestamp comparison under the direction flag: strict `<` keeps the new
/// element after equal timestamps when ascending; `>=` admits equal
/// timestamps when descending (the documented tie-break quirk, under which
/// descending is not a strict order); any other flag never fires, so the
/// arrival order is kept.
pub open spec fn compare_spec(a: i64, b: i64, order: i32) -> bool {
    if order == DESC {
        a >= b
    } else if order == ASC {
        a < b
    } else {
        false
    }
}

/// `out` and `hi` are a valid outcome of the time-order algorithm on
/// mapping `m` under direction `order`: `p` maps each display position to
/// the entry shown there, `q` is its inverse, timestamps run with the
/// direction along the display order, and `hi` is the display position of
/// the entry keyed `lu`, or 0 when no entry carries that key.
pub open spec fn time_ordered<E: Event>(
    m: Seq<(Seq<char>, E)>,
    order: i32,
    lu: Seq<char>,
    out: Seq<Seq<char>>,
    hi: int,
    p: Seq<int>,
    q: Seq<int>,
) -> bool {
    &&& out.len() == m.len()
    &&& p.len() == m.len()
    &&& q.len() == m.len()
    &&& (forall|i: int| 0 <= i < m.len() ==> 0 <= #[trigger] p[i] < m.len())
    &&& (forall|j: int| 0 <= j < m.len() ==> 0 <= #[trigger] q[j] < m.len())
    &&& (forall|j: int| 0 <= j < m.len() ==> p[#[trigger] q[j]] == j)
    &&& (forall|i: int| 0 <= i < m.len() ==> q[#[trigger] p[i]] == i)
    &&& (forall|i: int| 0 <= i < m.len() ==> out[i] == m[#[trigger] p[i]].1.spec_presentation())
    &&& (order == ASC ==> forall|i: int, j: int|
        0 <= i < j < m.len() ==> m[#[trigger] p[i]].1.spec_time() <= m[#[trigger] p[j]].1.spec_time())
    &&& (order == DESC ==> forall|i: int, j: int|
        0 <= i < j < m.len() ==> m[#[trigger] p[i]].1.spec_time() >= m[#[trigger] p[j]].1.spec_time())
    &&& (if has_key(m, lu) {
        0 <= hi < m.len() && m[p[hi]].0 == lu
    } else {
        hi == 0
    })
}

/// Some placement validates `out` and `hi` as a time-order outcome.
pub open spec fn time_order_valid<E: Event>(
    m: Seq<(Seq<char>, E)>,
    order: i32,
    lu: Seq<char>,
    out: Seq<Seq<char>>,
    hi: int,
) -> bool {
    exists|p: Seq<int>, q: Seq<int>| time_ordered(m, order, lu, out, hi, p, q)
}

/// With pairwise distinct timestamps, the ascending display order is
/// strict: timestamps strictly increase along the display sequence. Under
/// duplicate timestamps no more is promised than the `<=` of `time_ordered`.
pub proof fn lemma_time_order_ascending_strict<E: Event>(
    m: Seq<(Seq<char>, E)>,
    lu: Seq<char>,
    out: Seq<Seq<char>>,
    hi: int,
    p: Seq<int>,
    q: Seq<int>,
)
    requires
        time_ordered(m, ASC, lu, out, hi, p, q),
        forall|a: int, b: int|
            0 <= a < b < m.len() ==> m[a].1.spec_time() != m[b].1.spec_time(),
    ensures
        forall|i: int, j: int|
            0 <= i < j < m.len() ==> m[#[trigger] p[i]].1.spec_time() < m[#[trigger] p[j]].1.spec_time(),
{
    assert forall|i: int, j: int| 0 <= i < j < m.len() implies m[#[trigger] p[i]].1.spec_time()
        < m[#[trigger] p[j]].1.spec_time() by {
        assert(q[p[i]] == i);
        assert(q[p[j]] == j);
        assert(p[i] != p[j]);
        if p[i] < p[j] {
            assert(m[p[i]].1.spec_time() != m[p[j]].1.spec_time());
        } else {
            assert(m[p[j]].1.spec_time() != m[p[i]].1.spec_time());
        }
    }
}

/// Relies on Vec::sort through String's Ord implementation: the vector is
/// reordered in place, keeping the same strings; the standard library
/// documents that strings order lexicographically by their characters.
#[verifier::external_body]
fn sort_strings(keys: &mut Vec<String>)
    ensures
        final(keys)@.len() == old(keys)@.len(),
        views_of(final(keys)@).to_multiset() == views_of(old(keys)@).to_multiset(),
        sorted_by(views_of(final(keys)@), key_le()),
{
    keys.sort();
}

impl<E: Event> EventLine<E> {
    /// The presentation of every event, in the mapping's own order.
    pub fn apply_style(d: &Events<E>) -> (v: Vec<String>)
        ensures
            v@.len() == d.events_map@.len(),
            forall|i: int|
                0 <= i < v@.len() ==> v@[i]@ == d.events_map@[i].1.spec_presentation(),
    {
        let n = d.events_map.len();
        let mut v: Vec<String> = Vec::new();
        let mut i: usize = 0;
        while i < n
            invariant
                n == d.events_map@.len(),
                i <= n,
                v@.len() == i,
                forall|t: int|
                    0 <= t < i ==> v@[t]@ == d.events_map@[t].1.spec_presentation(),
            decreases n - i,
        {
            let (_, e) = d.events_map.entry(i);
            v.push(e.get_event_presentation());
            i = i + 1;
        }
        v
    }

    /// Key-order algorithm: sorts the mapping's keys in ascending
    /// lexicographic order and emits the events' presentation strings in
    /// that order; the returned index is the rank of `last_update` among
    /// the sorted keys, or 0 when no entry carries that key (the empty
    /// mapping included).
    pub fn sort_map_by_key(data: &Events<E>, last_update: String) -> (r: (Vec<String>, usize))
        ensures
            r.0@.len() == data.events_map@.len(),
            forall|i: int|
                0 <= i < r.0@.len() ==> r.0@[i]@ == display_list(data.events_map@)[i],
            r.1 as int == highlight_index(data.events_map@, last_update@),
            data.events_map@.len() == 0 ==> r.1 == 0,
            data.events_map@.len() > 0 ==> (r.1 as int) < data.events_map@.len(),
    {
        let ghost m = data.events_map@;
        proof {
            use_type_invariant(&data.events_map);
            lemma_sorted_keys_facts(m);
        }
        let ghost sk = sorted_keys(m);

        let mut last_index_update: usize = 0;

        // Get all keys from the map, then sort them.
        let mut keys = data.events_map.keys();
        proof {
            assert(views_of(keys@) =~= keys_of(m));
        }
        sort_strings(&mut keys);
        proof {
            lemma_key_le_total_ordering();
            lemma_sorted_unique(views_of(keys@), sk, key_le());
            assert(views_of(keys@) == sk);
        }

        // Build the ordered result.
        let n = keys.len();
        let mut result: Vec<String> = Vec::new();
        let mut i: usize = 0;
        while i < n
            invariant
                m == data.events_map@,
                distinct_keys(m),
                sk == sorted_keys(m),
                sk.no_duplicates(),
                forall|k: Seq<char>| #[trigger] sk.contains(k) <==> has_key(m, k),
                n == m.len(),
                keys@.len() == n,
                views_of(keys@) == sk,
                i <= n,
                result@.len() == i,
                forall|t: int| 0 <= t < i ==> result@[t]@ == display_list(m)[t],
                (exists|t: int| 0 <= t < i && sk[t] == last_update@) ==> (last_index_update < i
                    && sk[last_index_update as int] == last_update@),
                !(exists|t: int| 0 <= t < i && sk[t] == last_update@) ==> last_index_update == 0,
            decreases n - i,
        {
            proof {
                assert(keys@[i as int]@ == sk[i as int]);
                assert(sk.contains(sk[i as int]));
            }
            let w_opt = data.events_map.find_index(&keys[i]);
            match w_opt {
                Some(w) => {
                    let e = data.events_map.get(w);
                    result.push(e.get_event_presentation());
                    proof {
                        assert(m[w as int].0 == sk[i as int]);
                        assert(has_key(m, sk[i as int]));
                        let j = key_index(m, sk[i as int]);
                        assert(0 <= j < m.len() && m[j].0 == sk[i as int]);
                        assert(j == w);
                        assert(result@[i as int]@ == pres_at_key(m, sk[i as int]));
                        assert(display_list(m)[i as int] == pres_at_key(m, sk[i as int]));
                    }
                    if last_update.eq(&keys[i]) {
                        last_index_update = i;
                    }
                },
                None => {
                    // Unreachable: every sorted key is a key of the mapping.
                    proof {
                        assert(has_key(m, sk[i as int]));
                        let j = key_index(m, sk[i as int]);
                        assert(0 <= j < m.len() && m[j].0 == keys@[i as int]@);
                        assert(false);
                    }
                },
            }
            i = i + 1;
        }
        proof {
            if has_key(m, last_update@) {
                assert(sk.contains(last_update@));
                let t0 = sk.index_of(last_update@);
                assert(0 <= t0 < sk.len() && sk[t0] == last_update@);
                assert(last_index_update as int == t0);
            } else {
                if exists|t: int| 0 <= t < n && sk[t] == last_update@ {
                    assert(sk.contains(last_update@));
                    assert(false);
                }
            }
        }
        (result, last_index_update)
    }

    /// Compares two timestamps under the direction flag.
    fn compare_using(a: i64, b: i64, order: i32) -> (r: bool)
        ensures
            r == compare_spec(a, b, order),
    {
        match order {
            1 => a >= b,
            0 => a < b,
            _ => false,
        }
    }

    /// Shifts the slots `stop..start` of the three parallel vectors one
    /// place rightward, freeing slot `stop`; slots outside `stop..=start`
    /// and slot `stop` itself keep their values.
    fn shift_down_from_index(
        timestamps: &mut Vec<i64>,
        presentations: &mut Vec<String>,
        ids: &mut Vec<String>,
        start: usize,
        stop: usize,
    )
        requires
            stop <= start < old(timestamps)@.len(),
            old(presentations)@.len() == old(timestamps)@.len(),
            old(ids)@.len() == old(timestamps)@.len(),
        ensures
            final(timestamps)@.len() == old(timestamps)@.len(),
            final(presentations)@.len() == old(presentations)@.len(),
            final(ids)@.len() == old(ids)@.len(),
            forall|j: int|
                0 <= j <= stop || start < j < old(timestamps)@.len() ==> {
                    &&& final(timestamps)@[j] == old(timestamps)@[j]
                    &&& final(presentations)@[j] == old(presentations)@[j]
                    &&& final(ids)@[j] == old(ids)@[j]
                },
            forall|j: int|
                stop < j <= start ==> {
                    &&& final(timestamps)@[j] == old(timestamps)@[j - 1]
                    &&& final(presentations)@[j] == old(presentations)@[j - 1]
                    &&& final(ids)@[j] == old(ids)@[j - 1]
                },
    {
        let mut i: usize = start;
        while i > stop
            invariant
                stop <= i <= start < old(timestamps)@.len(),
                old(presentations)@.len() == old(timestamps)@.len(),
                old(ids)@.len() == old(timestamps)@.len(),
                timestamps@.len() == old(timestamps)@.len(),
                presentations@.len() == old(presentations)@.len(),
                ids@.len() == old(ids)@.len(),
                forall|j: int|
                    0 <= j <= i || start < j < old(timestamps)@.len() ==> {
                        &&& timestamps@[j] == old(timestamps)@[j]
                        &&& presentations@[j] == old(presentations)@[j]
                        &&& ids@[j] == old(ids)@[j]
                    },
                forall|j: int|
                    i < j <= start ==> {
                        &&& timestamps@[j] == old(timestamps)@[j - 1]
                        &&& presentations@[j] == old(presentations)@[j - 1]
                        &&& ids@[j] == old(ids)@[j - 1]
                    },
            decreases i,
        {
            timestamps[i] = timestamps[i - 1];
            presentations[i] = presentations[i - 1].clone();
            ids[i] = ids[i - 1].clone();
            i = i - 1;
        }
    }

    /// Time-order algorithm: places the events by timestamp, ascending or
    /// descending per the direction flag, with an insertion scan that
    /// shifts the already-placed suffix; returns the presentations in that
    /// order and the display position of the entry keyed `last_update`, or
    /// 0 when no entry carries that key (the empty mapping included).
    /// Equal timestamps keep no promised relative order beyond adjacency.
    pub fn sort_map_by_time(data: &Events<E>, order: i32, last_update: String) -> (r: (
        Vec<String>,
        usize,
    ))
        ensures
            r.0@.len() == data.events_map@.len(),
            time_order_valid(data.events_map@, order, last_update@, views_of(r.0@), r.1 as int),
            data.events_map@.len() == 0 ==> r.1 == 0,
            data.events_map@.len() > 0 ==> (r.1 as int) < data.events_map@.len(),
            data.events_map@.len() <= 1 ==> r.1 == 0,
    {
        let ghost m = data.events_map@;
        proof {
            use_type_invariant(&data.events_map);
        }
        let count = data.events_map.len();

        // Three parallel fixed-capacity arrays, sized to the cardinality.
        let mut result: Vec<String> = Vec::new();
        let mut timestamps: Vec<i64> = Vec::new();
        let mut ids: Vec<String> = Vec::new();
        let mut t: usize = 0;
        while t < count
            invariant
                t <= count,
                result@.len() == t,
                timestamps@.len() == t,
                ids@.len() == t,
            decreases count - t,
        {
            result.push(String::new());
            timestamps.push(0);
            ids.push(String::new());
            t = t + 1;
        }

        let mut index: usize = 0;
        let ghost mut p: Seq<int> = Seq::empty();
        let ghost mut q: Seq<int> = Seq::empty();

        let mut k: usize = 0;
        while k < count
            invariant
                m == data.events_map@,
                distinct_keys(m),
                count == m.len(),
                index == k,
                k <= count,
                result@.len() == count,
                timestamps@.len() == count,
                ids@.len() == count,
                p.len() == k,
                q.len() == k,
                forall|i: int| 0 <= i < k ==> 0 <= #[trigger] p[i] < k,
                forall|j: int| 0 <= j < k ==> 0 <= #[trigger] q[j] < k,
                forall|j: int| 0 <= j < k ==> p[#[trigger] q[j]] == j,
                forall|i: int| 0 <= i < k ==> q[#[trigger] p[i]] == i,
                forall|i: int|
                    0 <= i < k ==> result@[i]@ == m[#[trigger] p[i]].1.spec_presentation(),
                forall|i: int| 0 <= i < k ==> ids@[i]@ == m[#[trigger] p[i]].0,
                forall|i: int| 0 <= i < k ==> timestamps@[i] == m[#[trigger] p[i]].1.spec_time(),
                order == ASC ==> forall|i: int, j: int|
                    0 <= i < j < k ==> timestamps@[i] <= timestamps@[j],
                order == DESC ==> forall|i: int, j: int|
                    0 <= i < j < k ==> timestamps@[i] >= timestamps@[j],
            decreases count - k,
        {
            let (key, event) = data.events_map.entry(k);
            let v = event.get_event_time();
            let mut pos_to_insert = index;

            // Find the first position whose timestamp violates the
            // requested order relative to the new value.
            let mut i: usize = 0;
            while i < index
                invariant
                    index <= count,
                    i <= index,
                    timestamps@.len() == count,
                    pos_to_insert <= index,
                    pos_to_insert == index ==> forall|j: int|
                        0 <= j < i ==> !compare_spec(v, timestamps@[j], order),
                    pos_to_insert < index ==> {
                        &&& pos_to_insert < i
                        &&& compare_spec(v, timestamps@[pos_to_insert as int], order)
                        &&& forall|j: int|
                            0 <= j < pos_to_insert ==> !compare_spec(v, timestamps@[j], order)
                    },
                decreases index - i,
            {
                if pos_to_insert == index && Self::compare_using(v, timestamps[i], order) {
                    pos_to_insert = i;
                }
                i = i + 1;
            }

            let ghost old_ts = timestamps@;
            let ghost old_res = result@;
            let ghost old_ids = ids@;
            let ghost pos = pos_to_insert as int;

            if pos_to_insert < index {
                Self::shift_down_from_index(
                    &mut timestamps,
                    &mut result,
                    &mut ids,
                    index,
                    pos_to_insert,
                );
            }
            timestamps[pos_to_insert] = v;
            result[pos_to_insert] = event.get_event_presentation();
            ids[pos_to_insert] = key.clone();

            proof {
                let oldp = p;
                let oldq = q;
                p = oldp.subrange(0, pos).push(k as int) + oldp.subrange(pos, k as int);
                q = Seq::new(
                    (k + 1) as nat,
                    |j: int|
                        if j == k {
                            pos
                        } else if oldq[j] >= pos {
                            oldq[j] + 1
                        } else {
                            oldq[j]
                        },
                );
                assert(p.len() == k + 1);
                assert forall|i: int| 0 <= i < k + 1 implies {
                    &&& 0 <= #[trigger] p[i] < k + 1
                    &&& (i < pos ==> p[i] == oldp[i])
                    &&& (i == pos ==> p[i] == k)
                    &&& (i > pos ==> p[i] == oldp[i - 1])
                } by {
                    if i < pos {
                        assert(p[i] == oldp.subrange(0, pos)[i]);
                    } else if i > pos {
                        assert(p[i] == oldp.subrange(pos, k as int)[i - pos - 1]);
                    }
                }
                // The three arrays now hold, at each slot, the entry that
                // the updated placement sends there.
                assert forall|i: int| 0 <= i < k + 1 implies {
                    &&& timestamps@[i] == m[p[i]].1.spec_time()
                    &&& result@[i]@ == m[p[i]].1.spec_presentation()
                    &&& ids@[i]@ == m[p[i]].0
                } by {
                    if i < pos {
                        assert(timestamps@[i] == old_ts[i]);
                    } else if i == pos {
                    } else {
                        assert(timestamps@[i] == old_ts[i - 1]);
                    }
                }
                // The two placement maps stay mutually inverse.
                assert forall|j: int| 0 <= j < k + 1 implies 0 <= #[trigger] q[j] < k + 1 && p[q[j]]
                    == j by {
                    if j < k {
                        if oldq[j] >= pos {
                            assert(p[oldq[j] + 1] == oldp[oldq[j]]);
                        } else {
                            assert(p[oldq[j]] == oldp[oldq[j]]);
                        }
                    }
                }
                assert forall|i: int| 0 <= i < k + 1 implies q[#[trigger] p[i]] == i by {
                    if i < pos {
                        assert(oldq[oldp[i]] == i);
                    } else if i > pos {
                        assert(oldq[oldp[i - 1]] == i - 1);
                    }
                }
                // Timestamps keep running with the direction.
                if order == ASC {
                    assert forall|a: int, b: int| 0 <= a < b < k + 1 implies timestamps@[a]
                        <= timestamps@[b] by {
                        if b < pos {
                        } else if a < pos && b == pos {
                            assert(!compare_spec(v, old_ts[a], order));
                        } else if a < pos {
                            if a < b - 1 {
                                assert(old_ts[a] <= old_ts[b - 1]);
                            }
                            assert(!compare_spec(v, old_ts[a], order));
                        } else if a == pos {
                            assert(compare_spec(v, old_ts[pos], order));
                            if pos < b - 1 {
                                assert(old_ts[pos] <= old_ts[b - 1]);
                            }
                        } else {
                        }
                    }
                }
                if order == DESC {
                    assert forall|a: int, b: int| 0 <= a < b < k + 1 implies timestamps@[a]
                        >= timestamps@[b] by {
                        if b < pos {
                        } else if a < pos && b == pos {
                            assert(!compare_spec(v, old_ts[a], order));
                        } else if a < pos {
                            if a < b - 1 {
                                assert(old_ts[a] >= old_ts[b - 1]);
                            }
                            assert(!compare_spec(v, old_ts[a], order));
                        } else if a == pos {
                            assert(compare_spec(v, old_ts[pos], order));
                            if pos < b - 1 {
                                assert(old_ts[pos] >= old_ts[b - 1]);
                            }
                        } else {
                        }
                    }
                }
            }
            index = index + 1;
            k = k + 1;
        }

        // Find the display position of the last_update entry.
        let mut i: usize = 0;
        while i < count
            invariant
                m == data.events_map@,
                distinct_keys(m),
                count == m.len(),
                result@.len() == count,
                ids@.len() == count,
                p.len() == count,
                q.len() == count,
                forall|t2: int| 0 <= t2 < count ==> 0 <= #[trigger] p[t2] < count,
                forall|j: int| 0 <= j < count ==> 0 <= #[trigger] q[j] < count,
                forall|j: int| 0 <= j < count ==> p[#[trigger] q[j]] == j,
                forall|t2: int| 0 <= t2 < count ==> q[#[trigger] p[t2]] == t2,
                forall|t2: int|
                    0 <= t2 < count ==> result@[t2]@ == m[#[trigger] p[t2]].1.spec_presentation(),
                forall|t2: int| 0 <= t2 < count ==> ids@[t2]@ == m[#[trigger] p[t2]].0,
                order == ASC ==> forall|a: int, b: int|
                    0 <= a < b < count ==> m[#[trigger] p[a]].1.spec_time() <= m[#[trigger] p[b]].1.spec_time(),
                order == DESC ==> forall|a: int, b: int|
                    0 <= a < b < count ==> m[#[trigger] p[a]].1.spec_time() >= m[#[trigger] p[b]].1.spec_time(),
                i <= count,
                forall|j: int| 0 <= j < i ==> ids@[j]@ != last_update@,
            decreases count - i,
        {
            if last_update.eq(&ids[i]) {
                proof {
                    assert(m[p[i as int]].0 == last_update@);
                    assert(has_key(m, last_update@));
                    assert(time_ordered(
                        m,
                        order,
                        last_update@,
                        views_of(result@),
                        i as int,
                        p,
                        q,
                    ));
                    assert(time_order_valid(m, order, last_update@, views_of(result@), i as int));
                }
                return (result, i);
            }
            i = i + 1;
        }
        proof {
            if has_key(m, last_update@) {
                let j = key_index(m, last_update@);
                assert(0 <= j < m.len() && m[j].0 == last_update@);
                assert(p[q[j]] == j);
                assert(ids@[q[j]]@ == m[j].0);
                assert(false);
            }
            assert(time_ordered(m, order, last_update@, views_of(result@), 0, p, q));
            assert(time_order_valid(m, order, last_update@, views_of(result@), 0));
        }
        (result, 0)
    }
}

} // verus!
