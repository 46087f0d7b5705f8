use vstd::prelude::*;
use crate::text::str_eq;

verus! {

/// The application's key-value settings store: each key maps to the JSON
/// text of its value. Keys are unique.
pub struct KvStore {
    entries: Vec<(String, String)>,
}

/// Whether the keys of a list of entries are pairwise different.
pub open spec fn keys_unique(entries: Seq<(String, String)>) -> bool {
    forall|i: int, j: int| 0 <= i < entries.len() && 0 <= j < entries.len() && i != j ==> (#[trigger] entries[i].0)@ != (#[trigger] entries[j].0)@
}

/// Whether some entry has key `k`.
pub open spec fn has_key(entries: Seq<(String, String)>, k: Seq<char>) -> bool {
    exists|i: int| 0 <= i < entries.len() && (#[trigger] entries[i].0)@ == k
}

/// The map a list of entries stands for.
pub open spec fn entries_map(entries: Seq<(String, String)>) -> Map<Seq<char>, Seq<char>> {
    Map::new(
        |k: Seq<char>| has_key(entries, k),
        |k: Seq<char>| entries[choose|i: int| 0 <= i < entries.len() && (#[trigger] entries[i].0)@ == k].1@,
    )
}

impl View for KvStore {
    type V = Map<Seq<char>, Seq<char>>;

    closed spec fn view(&self) -> Map<Seq<char>, Seq<char>> {
        entries_map(self.entries@)
    }
}

proof fn lemma_map_at(entries: Seq<(String, String)>, i: int)
    requires
        keys_unique(entries),
        0 <= i < entries.len(),
    ensures
        entries_map(entries).dom().contains(entries[i].0@),
        entries_map(entries)[entries[i].0@] == entries[i].1@,
{
    let k = entries[i].0@;
    assert(has_key(entries, k));
    let j = choose|j: int| 0 <= j < entries.len() && (#[trigger] entries[j].0)@ == k;
    assert(j == i);
}

fn find_key(entries: &Vec<(String, String)>, key: &str) -> (r: Option<usize>)
    ensures
        match r {
            Some(i) => i < entries@.len() && entries@[i as int].0@ == key@,
            None => !has_key(entries@, key@),
        },
{
    let mut i: usize = 0;
    while i < entries.len()
        invariant
            i <= entries@.len(),
            forall|j: int| 0 <= j < i ==> (#[trigger] entries@[j].0)@ != key@,
        decreases entries.len() - i,
    {
        if str_eq(entries[i].0.as_str(), key) {
            return Some(i);
        }
        i = i + 1;
    }
    None
}


impl KvStore {
    #[verifier::type_invariant]
    closed spec fn wf(self) -> bool {
        keys_unique(self.entries@)
    }

    /// An empty store.
    pub fn new() -> (s: Self)
        ensures
            s@ == Map::<Seq<char>, Seq<char>>::empty(),
    {
        let s = KvStore { entries: Vec::new() };
        assert(s@ =~= Map::<Seq<char>, Seq<char>>::empty());
        s
    }

}

/// The JSON text stored under `key`.
pub fn get(store: &KvStore, key: &str) -> (r: Option<String>)
    ensures
        match r {
            Some(v) => store@.dom().contains(key@) && store@[key@] == v@,
            None => !store@.dom().contains(key@),
        },
{
    proof { use_type_invariant(store); }
    match find_key(&store.entries, key) {
        Some(i) => {
            proof { lemma_map_at(store.entries@, i as int); }
            Some(store.entries[i].1.clone())
        },
        None => None,
    }
}

/// Stores `value` under `key`, replacing what was there.
pub fn set(store: &mut KvStore, key: &str, value: String)
    ensures
        final(store)@ == old(store)@.insert(key@, value@),
{
    proof { use_type_invariant(&*store); }
    let ghost old_entries = store.entries@;
    let mut entries = Vec::new();
    std::mem::swap(&mut entries, &mut store.entries);
    let ghost value_view = value@;
    let ghost mut pos: int = 0;
    match find_key(&entries, key) {
        Some(i) => {
            entries.set(i, (key.to_owned(), value));
            proof { pos = i as int; }
        },
        None => {
            entries.push((key.to_owned(), value));
            proof { pos = old_entries.len() as int; }
        },
    }
    proof {
        assert(0 <= pos < entries@.len());
        assert(entries@[pos].0@ == key@ && entries@[pos].1@ == value_view);
        assert(entries@.len() == old_entries.len() || (entries@.len() == old_entries.len() + 1 && pos == old_entries.len()));
        assert(pos < old_entries.len() ==> old_entries[pos].0@ == key@);
        assert(forall|a: int| 0 <= a < old_entries.len() && a != pos ==> entries@[a] == old_entries[a]);
        let m = entries_map(entries@);
        let o = entries_map(old_entries).insert(key@, value_view);
        assert(keys_unique(entries@)) by {
            assert forall|a: int, b: int| 0 <= a < entries@.len() && 0 <= b < entries@.len() && a != b implies (#[trigger] entries@[a].0)@ != (#[trigger] entries@[b].0)@ by {
                if a != pos && b != pos {
                    assert(entries@[a] == old_entries[a]);
                    assert(entries@[b] == old_entries[b]);
                } else if a == pos {
                    assert(entries@[b] == old_entries[b]);
                    if pos < old_entries.len() {
                        assert(old_entries[pos].0@ != old_entries[b].0@);
                    } else {
                        assert(!has_key(old_entries, key@) || true);
                    }
                } else {
                    assert(entries@[a] == old_entries[a]);
                    if pos < old_entries.len() {
                        assert(old_entries[pos].0@ != old_entries[a].0@);
                    }
                }
            }
        }
        assert forall|k: Seq<char>| #[trigger] m.dom().contains(k) <==> o.dom().contains(k) by {
            if k == key@ {
                assert(has_key(entries@, k));
            } else {
                if has_key(entries@, k) {
                    let j = choose|j: int| 0 <= j < entries@.len() && (#[trigger] entries@[j].0)@ == k;
                    assert(j != pos);
                    assert(entries@[j] == old_entries[j]);
                    assert(has_key(old_entries, k));
                }
                if has_key(old_entries, k) {
                    let j = choose|j: int| 0 <= j < old_entries.len() && (#[trigger] old_entries[j].0)@ == k;
                    assert(j != pos);
                    assert(entries@[j] == old_entries[j]);
                    assert(has_key(entries@, k));
                }
            }
        }
        assert forall|k: Seq<char>| #[trigger] m.dom().contains(k) implies m[k] == o[k] by {
            let j = choose|j: int| 0 <= j < entries@.len() && (#[trigger] entries@[j].0)@ == k;
            lemma_map_at(entries@, j);
            if k != key@ {
                assert(j != pos);
                assert(entries@[j] == old_entries[j]);
                lemma_map_at(old_entries, j);
            } else {
                lemma_map_at(entries@, pos);
            }
        }
        assert(m =~= o);
    }
    store.entries = entries;
}

/// Removes `key` and its value.
pub fn delete(store: &mut KvStore, key: &str)
    ensures
        final(store)@ == old(store)@.remove(key@),
{
    proof { use_type_invariant(&*store); }
    let ghost old_entries = store.entries@;
    let mut entries = Vec::new();
    std::mem::swap(&mut entries, &mut store.entries);
    let ghost mut pos: int = -1;
    match find_key(&entries, key) {
        Some(i) => {
            entries.remove(i);
            proof { pos = i as int; }
        },
        None => {},
    }
    proof {
        assert(pos == -1 ==> entries@ == old_entries && !has_key(old_entries, key@));
        assert(pos >= 0 ==> 0 <= pos < old_entries.len() && old_entries[pos].0@ == key@
            && entries@.len() == old_entries.len() - 1
            && (forall|a: int| 0 <= a < pos ==> entries@[a] == old_entries[a])
            && (forall|a: int| pos <= a < entries@.len() ==> entries@[a] == old_entries[a + 1]));
        let m = entries_map(entries@);
        let o = entries_map(old_entries).remove(key@);
        let ghost back = |a: int| if pos >= 0 && a >= pos { a + 1 } else { a };
        assert forall|a: int| 0 <= a < entries@.len() implies #[trigger] entries@[a] == old_entries[back(a)] && 0 <= back(a) < old_entries.len() && back(a) != pos by {}
        assert(keys_unique(entries@)) by {
            assert forall|a: int, b: int| 0 <= a < entries@.len() && 0 <= b < entries@.len() && a != b implies (#[trigger] entries@[a].0)@ != (#[trigger] entries@[b].0)@ by {
                assert(entries@[a] == old_entries[back(a)]);
                assert(entries@[b] == old_entries[back(b)]);
            }
        }
        assert forall|k: Seq<char>| #[trigger] m.dom().contains(k) <==> o.dom().contains(k) by {
            if has_key(entries@, k) {
                let j = choose|j: int| 0 <= j < entries@.len() && (#[trigger] entries@[j].0)@ == k;
                assert(entries@[j] == old_entries[back(j)]);
                assert(has_key(old_entries, k));
                if k == key@ {
                    if pos >= 0 {
                        assert(old_entries[pos].0@ == old_entries[back(j)].0@);
                    }
                }
            }
            if has_key(old_entries, k) && k != key@ {
                let j = choose|j: int| 0 <= j < old_entries.len() && (#[trigger] old_entries[j].0)@ == k;
                let a = if pos >= 0 && j > pos { j - 1 } else { j };
                assert(entries@[a] == old_entries[back(a)]);
                assert(has_key(entries@, k));
            }
        }
        assert forall|k: Seq<char>| #[trigger] m.dom().contains(k) implies m[k] == o[k] by {
            let j = choose|j: int| 0 <= j < entries@.len() && (#[trigger] entries@[j].0)@ == k;
            lemma_map_at(entries@, j);
            assert(entries@[j] == old_entries[back(j)]);
            lemma_map_at(old_entries, back(j));
        }
        assert(m =~= o);
    }
    store.entries = entries;
}

/// Whether a value is stored under `key`.
pub fn has(store: &KvStore, key: &str) -> (r: bool)
    ensures
        r == store@.dom().contains(key@),
{
    find_key(&store.entries, key).is_some()
}

/// The keys of the store, each once.
pub fn keys(store: &KvStore) -> (r: Vec<String>)
    ensures
        forall|i: int, j: int| 0 <= i < r@.len() && 0 <= j < r@.len() && i != j ==> (#[trigger] r@[i])@ != (#[trigger] r@[j])@,
        forall|k: Seq<char>| store@.dom().contains(k) <==> exists|i: int| 0 <= i < r@.len() && (#[trigger] r@[i])@ == k,
{
    proof { use_type_invariant(store); }
    let mut r: Vec<String> = Vec::new();
    let mut i: usize = 0;
    while i < store.entries.len()
        invariant
            keys_unique(store.entries@),
            i <= store.entries@.len(),
            r@.len() == i,
            forall|j: int| 0 <= j < i ==> (#[trigger] r@[j])@ == store.entries@[j].0@,
        decreases store.entries.len() - i,
    {
        r.push(store.entries[i].0.clone());
        i = i + 1;
    }
    proof {
        assert forall|k: Seq<char>| store@.dom().contains(k) implies exists|i: int| 0 <= i < r@.len() && (#[trigger] r@[i])@ == k by {
            let j = choose|j: int| 0 <= j < store.entries@.len() && (#[trigger] store.entries@[j].0)@ == k;
            assert(r@[j]@ == k);
        }
        assert forall|k: Seq<char>| (exists|i: int| 0 <= i < r@.len() && (#[trigger] r@[i])@ == k) implies store@.dom().contains(k) by {
            let j = choose|j: int| 0 <= j < r@.len() && (#[trigger] r@[j])@ == k;
            assert(store.entries@[j].0@ == k);
        }
    }
    r
}


/// Law: a value read back after it was stored is the value stored, and a
/// deleted key is gone; other keys keep their values.
pub proof fn lemma_store_round_trip(m: Map<Seq<char>, Seq<char>>, k: Seq<char>, v: Seq<char>, other: Seq<char>)
    requires
        other != k,
    ensures
        m.insert(k, v).dom().contains(k) && m.insert(k, v)[k] == v,
        !m.insert(k, v).remove(k).dom().contains(k),
        m.insert(k, v).dom().contains(other) == m.dom().contains(other),
        m.dom().contains(other) ==> m.insert(k, v)[other] == m[other],
{
}

} // verus!
