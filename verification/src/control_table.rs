//! A string-keyed table of control values (node values, named channels).
use vstd::prelude::*;
use crate::control_value::{ControlValue, ControlValueView};
use crate::text::{chars_of, str_eq};

verus! {

/// The first position at or after `i` where `a` and `b` differ, or the
/// shorter length when they agree up to it.
pub open spec fn first_difference(a: Seq<char>, b: Seq<char>, i: int) -> int
    decreases a.len() - i,
{
    if 0 <= i < a.len() && i < b.len() && a[i] == b[i] {
        first_difference(a, b, i + 1)
    } else {
        i
    }
}

/// The order of `String` keys: byte-wise on their UTF-8, which is the order
/// of their characters' code points taken position by position, a proper
/// prefix coming first.
pub open spec fn key_before(a: Seq<char>, b: Seq<char>) -> bool {
    let d = first_difference(a, b, 0);
    if d < a.len() && d < b.len() {
        (a[d] as int) < (b[d] as int)
    } else {
        a.len() < b.len()
    }
}

/// Keys in strictly ascending order.
pub open spec fn keys_ascending(keys: Seq<Seq<char>>) -> bool {
    forall|i: int, j: int| 0 <= i < j < keys.len() ==> key_before(#[trigger] keys[i], #[trigger] keys[j])
}

proof fn lemma_first_difference(a: Seq<char>, b: Seq<char>, i: int)
    requires
        0 <= i,
        i <= a.len(),
        i <= b.len(),
    ensures
        i <= first_difference(a, b, i),
        first_difference(a, b, i) <= a.len(),
        first_difference(a, b, i) <= b.len(),
        forall|k: int| i <= k < first_difference(a, b, i) ==> a[k] == b[k],
        first_difference(a, b, i) < a.len() && first_difference(a, b, i) < b.len()
            ==> a[first_difference(a, b, i)] != b[first_difference(a, b, i)],
    decreases a.len() - i,
{
    if i < a.len() && i < b.len() && a[i] == b[i] {
        lemma_first_difference(a, b, i + 1);
    }
}

/// What the first difference of two keys is.
proof fn lemma_difference_at(a: Seq<char>, b: Seq<char>)
    ensures
        ({
            let d = first_difference(a, b, 0);
            &&& 0 <= d <= a.len() && d <= b.len()
            &&& forall|k: int| 0 <= k < d ==> a[k] == b[k]
            &&& (d < a.len() && d < b.len()) ==> a[d] != b[d]
            &&& !(d < a.len() && d < b.len()) ==> (d == a.len() || d == b.len())
        }),
{
    lemma_first_difference(a, b, 0);
}

/// No key comes before itself.
pub proof fn lemma_key_before_irreflexive(a: Seq<char>)
    ensures
        !key_before(a, a),
{
    lemma_difference_at(a, a);
}

/// Of two different keys, one comes before the other.
pub proof fn lemma_key_before_total(a: Seq<char>, b: Seq<char>)
    requires
        a != b,
    ensures
        key_before(a, b) || key_before(b, a),
{
    lemma_difference_at(a, b);
    lemma_difference_at(b, a);
    let d = first_difference(a, b, 0);
    let e = first_difference(b, a, 0);
    if d < e {
        assert(b[d] == a[d]);
    } else if e < d {
        assert(a[e] == b[e]);
    }
    assert(d == e);
    if d < a.len() && d < b.len() {
        let x = a[d];
        let y = b[d];
        assert(x != y);
        assert((x as int) != (y as int));
    } else if a.len() == b.len() {
        assert(a =~= b);
    }
}

/// The order of keys is transitive.
pub proof fn lemma_key_before_transitive(a: Seq<char>, b: Seq<char>, c: Seq<char>)
    requires
        key_before(a, b),
        key_before(b, c),
    ensures
        key_before(a, c),
{
    lemma_difference_at(a, b);
    lemma_difference_at(b, c);
    lemma_difference_at(a, c);
    let d1 = first_difference(a, b, 0);
    let d2 = first_difference(b, c, 0);
    let d3 = first_difference(a, c, 0);
    let m = if d1 < d2 { d1 } else { d2 };
    assert forall|k: int| 0 <= k < m implies a[k] == c[k] by {
        assert(a[k] == b[k]);
        assert(b[k] == c[k]);
    }
    if d3 < m {
        assert(a[d3] == c[d3]);
    }
    assert(d3 >= m);
    if d1 < d2 {
        if d1 < a.len() && d1 < b.len() {
            assert(b[d1] == c[d1]);
            assert(d3 == d1);
        } else {
            assert(d1 == a.len());
            assert(d3 == d1);
        }
    } else if d2 < d1 {
        assert(d2 < b.len());
        assert(a[d2] == b[d2]);
        assert(d3 == d2);
    } else {
        if d1 < a.len() && d1 < b.len() {
            assert(d2 < c.len());
            assert(d3 == d1);
        } else {
            assert(d1 == a.len());
            assert(d3 == d1);
        }
    }
}

/// Whether `a` comes before `b` in the order of `String` keys.
pub fn key_before_exec(a: &str, b: &str) -> (r: bool)
    ensures
        r == key_before(a@, b@),
{
    let x = chars_of(a);
    let y = chars_of(b);
    proof {
        lemma_first_difference(x@, y@, 0);
    }
    let mut i: usize = 0;
    while i < x.len() && i < y.len() && x[i] == y[i]
        invariant
            x@ == a@,
            y@ == b@,
            i <= x@.len(),
            i <= y@.len(),
            first_difference(x@, y@, 0) == first_difference(x@, y@, i as int),
        decreases x.len() - i,
    {
        i = i + 1;
    }
    if i < x.len() && i < y.len() {
        x[i] < y[i]
    } else {
        x.len() < y.len()
    }
}

/// One row of a control table.
#[derive(Debug, Clone, PartialEq, Eq)]
pub struct ControlEntry {
    pub key: String,
    pub value: ControlValue,
}

/// A map from strings to control values, its rows held in ascending order of
/// their keys (the order of `String`), no key twice.
#[derive(Debug, PartialEq, Eq)]
pub struct ControlTable {
    entries: Vec<ControlEntry>,
}

/// The keys of a sequence of rows.
pub open spec fn entry_keys(e: Seq<ControlEntry>) -> Seq<Seq<char>> {
    e.map_values(|x: ControlEntry| x.key@)
}

/// The row that holds key `k`.
pub open spec fn key_index(e: Seq<ControlEntry>, k: Seq<char>) -> int {
    choose|i: int| 0 <= i < e.len() && e[i].key@ == k
}

/// The map that rows with distinct keys describe.
pub open spec fn entries_map(e: Seq<ControlEntry>) -> Map<Seq<char>, ControlValueView> {
    Map::new(|k: Seq<char>| entry_keys(e).contains(k), |k: Seq<char>| e[key_index(e, k)].value@)
}

pub proof fn lemma_entries_map_at(e: Seq<ControlEntry>, i: int)
    requires
        entry_keys(e).no_duplicates(),
        0 <= i < e.len(),
    ensures
        entries_map(e).contains_key(e[i].key@),
        entries_map(e)[e[i].key@] == e[i].value@,
{
    let k = e[i].key@;
    assert(entry_keys(e)[i] == k);
    assert(0 <= i < e.len() && e[i].key@ == k);
    assert(entry_keys(e).contains(k));
    let j = key_index(e, k);
    assert(0 <= j < e.len() && e[j].key@ == k);
    assert(entry_keys(e)[j] == e[j].key@);
    if j != i {
        assert(entry_keys(e)[j] != entry_keys(e)[i]);
    }
    assert(j == i);
    assert(entries_map(e)[k] == e[j].value@);
}

impl View for ControlTable {
    type V = Map<Seq<char>, ControlValueView>;

    closed spec fn view(&self) -> Map<Seq<char>, ControlValueView> {
        entries_map(self.entries@)
    }
}

impl ControlTable {
    #[verifier::type_invariant]
    closed spec fn rows_by_key(self) -> bool {
        &&& entry_keys(self.entries@).no_duplicates()
        &&& keys_ascending(entry_keys(self.entries@))
    }

    /// The rows, in ascending order of their keys.
    pub closed spec fn rows(self) -> Seq<ControlEntry> {
        self.entries@
    }

    /// An empty table.
    pub fn new() -> (r: ControlTable)
        ensures
            r@ == Map::<Seq<char>, ControlValueView>::empty(),
    {
        let r = ControlTable { entries: Vec::new() };
        assert(r@ =~= Map::<Seq<char>, ControlValueView>::empty());
        r
    }

    fn position(entries: &Vec<ControlEntry>, key: &str) -> (r: Option<usize>)
        ensures
            r matches Some(i) ==> i < entries@.len() && entries@[i as int].key@ == key@,
            r is None ==> !entry_keys(entries@).contains(key@),
    {
        let mut i: usize = 0;
        while i < entries.len()
            invariant
                i <= entries@.len(),
                forall|k: int| 0 <= k < i ==> entries@[k].key@ != key@,
            decreases entries.len() - i,
        {
            if str_eq(entries[i].key.as_str(), key) {
                return Some(i);
            }
            i = i + 1;
        }
        proof {
            if entry_keys(entries@).contains(key@) {
                let k = choose|k: int| 0 <= k < entry_keys(entries@).len() && entry_keys(entries@)[k] == key@;
                assert(entries@[k].key@ == key@);
            }
        }
        None
    }

    /// The value stored under `key`.
    pub fn get(&self, key: &str) -> (r: Option<&ControlValue>)
        ensures
            r matches Some(v) ==> self@.contains_key(key@) && self@[key@] == v@,
            r is None ==> !self@.contains_key(key@),
    {
        proof {
            use_type_invariant(self);
        }
        match Self::position(&self.entries, key) {
            Some(i) => {
                proof {
                    lemma_entries_map_at(self.entries@, i as int);
                }
                Some(&self.entries[i].value)
            },
            None => None,
        }
    }

    /// Stores `value` under `key`, replacing any earlier value.
    pub fn insert(&mut self, key: String, value: ControlValue)
        ensures
            final(self)@ == old(self)@.insert(key@, value@),
    {
        proof {
            use_type_invariant(&*self);
        }
        let ghost old_entries = self.entries@;
        let mut entries: Vec<ControlEntry> = Vec::new();
        std::mem::swap(&mut entries, &mut self.entries);
        let ghost k = key@;
        let ghost v = value@;
        match Self::position(&entries, key.as_str()) {
            Some(i) => {
                entries.set(i, ControlEntry { key, value });
                proof {
                    let e = entries@;
                    assert(entry_keys(e) =~= entry_keys(old_entries));
                    assert forall|x: Seq<char>| #[trigger] entries_map(e).contains_key(x) implies entries_map(e)[x] == entries_map(old_entries).insert(k, v)[x] by {
                        let j = choose|j: int| 0 <= j < e.len() && entry_keys(e)[j] == x;
                        lemma_entries_map_at(e, j);
                        if j != i {
                            assert(e[j] == old_entries[j]);
                            assert(entry_keys(old_entries)[j] != entry_keys(old_entries)[i as int]);
                            lemma_entries_map_at(old_entries, j);
                        } else {
                            assert(e[j].value@ == v);
                        }
                    }
                    assert(entries_map(e).dom() =~= entries_map(old_entries).insert(k, v).dom()) by {
                        assert(entry_keys(old_entries)[i as int] == k);
                    }
                    assert(entries_map(e) =~= entries_map(old_entries).insert(k, v));
                }
            },
            None => {
                let mut p: usize = 0;
                while p < entries.len() && key_before_exec(entries[p].key.as_str(), key.as_str())
                    invariant
                        entries@ == old_entries,
                        k == key@,
                        p <= entries@.len(),
                        forall|i: int| 0 <= i < p ==> key_before(#[trigger] entry_keys(old_entries)[i], k),
                    decreases entries.len() - p,
                {
                    proof {
                        assert(entry_keys(old_entries)[p as int] == entries@[p as int].key@);
                    }
                    p = p + 1;
                }
                proof {
                    let ok = entry_keys(old_entries);
                    if p < entries@.len() {
                        assert(ok[p as int] == entries@[p as int].key@);
                        assert(ok[p as int] != k) by {
                            assert(!ok.contains(k));
                        }
                        lemma_key_before_total(k, ok[p as int]);
                    }
                    assert forall|j: int| p <= j < ok.len() implies key_before(k, #[trigger] ok[j]) by {
                        if j > p {
                            lemma_key_before_transitive(k, ok[p as int], ok[j]);
                        }
                    }
                }
                entries.insert(p, ControlEntry { key, value });
                proof {
                    let e = entries@;
                    let ok = entry_keys(old_entries);
                    assert(entry_keys(e) =~= ok.insert(p as int, k));
                    assert(keys_ascending(entry_keys(e))) by {
                        assert forall|a: int, b: int| 0 <= a < b < e.len() implies key_before(#[trigger] entry_keys(e)[a], #[trigger] entry_keys(e)[b]) by {
                            if b < p {
                                assert(entry_keys(e)[a] == ok[a] && entry_keys(e)[b] == ok[b]);
                            } else if b == p {
                                assert(entry_keys(e)[a] == ok[a]);
                            } else if a < p {
                                assert(entry_keys(e)[a] == ok[a] && entry_keys(e)[b] == ok[b - 1]);
                                lemma_key_before_transitive(ok[a], k, ok[b - 1]);
                            } else if a == p {
                                assert(entry_keys(e)[b] == ok[b - 1]);
                            } else {
                                assert(entry_keys(e)[a] == ok[a - 1] && entry_keys(e)[b] == ok[b - 1]);
                            }
                        }
                    }
                    assert(entry_keys(e).no_duplicates()) by {
                        assert forall|a: int, b: int| 0 <= a < e.len() && 0 <= b < e.len() && a != b implies entry_keys(e)[a] != entry_keys(e)[b] by {
                            if a < b {
                                assert(key_before(entry_keys(e)[a], entry_keys(e)[b]));
                            } else {
                                assert(key_before(entry_keys(e)[b], entry_keys(e)[a]));
                            }
                            lemma_key_before_irreflexive(entry_keys(e)[a]);
                        }
                    }
                    assert forall|x: Seq<char>| #[trigger] entries_map(e).contains_key(x) implies entries_map(e)[x] == entries_map(old_entries).insert(k, v)[x] by {
                        let j = choose|j: int| 0 <= j < e.len() && entry_keys(e)[j] == x;
                        lemma_entries_map_at(e, j);
                        if j != p {
                            let j0 = if j < p { j } else { j - 1 };
                            assert(e[j] == old_entries[j0]);
                            assert(entry_keys(old_entries)[j0] == x);
                            assert(x != k);
                            lemma_entries_map_at(old_entries, j0);
                        }
                    }
                    assert forall|x: Seq<char>| entries_map(old_entries).insert(k, v).contains_key(x) implies #[trigger] entries_map(e).contains_key(x) by {
                        if x != k {
                            let j = choose|j: int| 0 <= j < old_entries.len() && entry_keys(old_entries)[j] == x;
                            let j1 = if j < p { j } else { j + 1 };
                            assert(entry_keys(e)[j1] == x);
                        } else {
                            assert(entry_keys(e)[p as int] == x);
                        }
                    }
                    assert(entries_map(e) =~= entries_map(old_entries).insert(k, v));
                }
            },
        }
        self.entries = entries;
    }

    /// Removes the value stored under `key`, returning it.
    pub fn remove(&mut self, key: &str) -> (r: Option<ControlValue>)
        ensures
            final(self)@ == old(self)@.remove(key@),
            r matches Some(v) ==> old(self)@.contains_key(key@) && old(self)@[key@] == v@,
            r is None ==> !old(self)@.contains_key(key@),
    {
        proof {
            use_type_invariant(&*self);
        }
        let ghost old_entries = self.entries@;
        let mut entries: Vec<ControlEntry> = Vec::new();
        std::mem::swap(&mut entries, &mut self.entries);
        match Self::position(&entries, key) {
            Some(i) => {
                proof {
                    lemma_entries_map_at(old_entries, i as int);
                }
                let entry = entries.remove(i);
                proof {
                    let e = entries@;
                    assert(entry_keys(e) =~= entry_keys(old_entries).remove(i as int));
                    assert(keys_ascending(entry_keys(e))) by {
                        assert forall|a: int, b: int| 0 <= a < b < e.len() implies key_before(#[trigger] entry_keys(e)[a], #[trigger] entry_keys(e)[b]) by {
                            let a0 = if a < i { a } else { a + 1 };
                            let b0 = if b < i { b } else { b + 1 };
                            assert(entry_keys(e)[a] == entry_keys(old_entries)[a0]);
                            assert(entry_keys(e)[b] == entry_keys(old_entries)[b0]);
                        }
                    }
                    assert(entry_keys(e).no_duplicates()) by {
                        assert forall|a: int, b: int| 0 <= a < e.len() && 0 <= b < e.len() && a != b implies entry_keys(e)[a] != entry_keys(e)[b] by {
                            let a0 = if a < i { a } else { a + 1 };
                            let b0 = if b < i { b } else { b + 1 };
                            assert(entry_keys(e)[a] == entry_keys(old_entries)[a0]);
                            assert(entry_keys(e)[b] == entry_keys(old_entries)[b0]);
                        }
                    }
                    assert forall|x: Seq<char>| #[trigger] entries_map(e).contains_key(x) implies entries_map(e)[x] == entries_map(old_entries).remove(key@)[x] && x != key@ by {
                        let j = choose|j: int| 0 <= j < e.len() && entry_keys(e)[j] == x;
                        lemma_entries_map_at(e, j);
                        let j0 = if j < i { j } else { j + 1 };
                        assert(e[j] == old_entries[j0]);
                        lemma_entries_map_at(old_entries, j0);
                        assert(entry_keys(old_entries)[j0] != entry_keys(old_entries)[i as int]);
                    }
                    assert forall|x: Seq<char>| entries_map(old_entries).remove(key@).contains_key(x) implies #[trigger] entries_map(e).contains_key(x) by {
                        let j = choose|j: int| 0 <= j < old_entries.len() && entry_keys(old_entries)[j] == x;
                        assert(j != i);
                        let j1 = if j < i { j } else { j - 1 };
                        assert(entry_keys(e)[j1] == x);
                    }
                    assert(entries_map(e) =~= entries_map(old_entries).remove(key@));
                }
                self.entries = entries;
                Some(entry.value)
            },
            None => {
                assert(entries_map(entries@) =~= entries_map(old_entries).remove(key@));
                self.entries = entries;
                None
            },
        }
    }

    /// The number of keys.
    pub fn len(&self) -> (r: usize)
        ensures
            r == self@.len(),
    {
        proof {
            use_type_invariant(self);
            let keys = entry_keys(self.entries@);
            keys.unique_seq_to_set();
            assert(self@.dom() =~= keys.to_set());
        }
        self.entries.len()
    }

    /// Whether the table holds no key.
    pub fn is_empty(&self) -> (r: bool)
        ensures
            r == (self@ == Map::<Seq<char>, ControlValueView>::empty()),
    {
        proof {
            use_type_invariant(self);
            if self.entries@.len() > 0 {
                lemma_entries_map_at(self.entries@, 0);
            } else {
                assert(self@ =~= Map::<Seq<char>, ControlValueView>::empty());
            }
        }
        self.entries.len() == 0
    }

    /// The rows, in ascending order of their keys.
    pub fn entries(&self) -> (r: &Vec<ControlEntry>)
        ensures
            r@ == self.rows(),
            keys_ascending(entry_keys(r@)),
            entry_keys(r@).no_duplicates(),
            entries_map(r@) == self@,
    {
        proof {
            use_type_invariant(self);
        }
        &self.entries
    }
}

impl Default for ControlTable {
    fn default() -> (r: ControlTable)
        ensures
            r@ == Map::<Seq<char>, ControlValueView>::empty(),
    {
        ControlTable::new()
    }
}

} // verus!
