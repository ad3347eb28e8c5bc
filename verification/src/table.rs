//! A table of values keyed by strings, kept as a vector of entries whose
//! keys are distinct.
use vstd::prelude::*;
use crate::text::str_eq;

verus! {

broadcast use vstd::set::group_set_axioms;

/// Values keyed by strings. Its view is the map from each key to its value.
pub struct Table<V> {
    entries: Vec<(String, V)>,
    map: Ghost<Map<Seq<char>, V>>,
}

impl<V> View for Table<V> {
    type V = Map<Seq<char>, V>;

    closed spec fn view(&self) -> Map<Seq<char>, V> {
        self.map@
    }
}

spec fn wf_parts<V>(entries: Seq<(String, V)>, map: Map<Seq<char>, V>) -> bool {
    &&& map.dom().finite()
    &&& map.len() == entries.len()
    &&& forall|i: int|
        0 <= i < entries.len() ==> #[trigger] map.contains_key(entries[i].0@) && map[entries[i].0@] == entries[i].1
    &&& forall|k: Seq<char>| #[trigger] map.contains_key(k) ==> exists|i: int| 0 <= i < entries.len() && entries[i].0@ == k
    &&& forall|i: int, j: int| 0 <= i < entries.len() && 0 <= j < entries.len() && i != j ==> entries[i].0@ != entries[j].0@
}

proof fn lemma_wf_remove<V>(old_entries: Seq<(String, V)>, map: Map<Seq<char>, V>, i: int)
    requires
        wf_parts(old_entries, map),
        0 <= i < old_entries.len(),
    ensures
        wf_parts(old_entries.remove(i), map.remove(old_entries[i].0@)),
{
    let entries = old_entries.remove(i);
    let k = old_entries[i].0@;
    let new_map = map.remove(k);
    assert(map.contains_key(k));
    assert(new_map.dom() =~= map.dom().remove(k));
    assert forall|j: int| 0 <= j < entries.len() implies #[trigger] new_map.contains_key(entries[j].0@)
        && new_map[entries[j].0@] == entries[j].1 by {
        if j < i {
            assert(entries[j] == old_entries[j]);
        } else {
            assert(entries[j] == old_entries[j + 1]);
        }
    }
    assert forall|key: Seq<char>| #[trigger] new_map.contains_key(key) implies exists|j: int|
        0 <= j < entries.len() && entries[j].0@ == key by {
        let j = choose|j: int| 0 <= j < old_entries.len() && old_entries[j].0@ == key;
        if j < i {
            assert(entries[j] == old_entries[j]);
        } else {
            assert(j != i);
            assert(entries[j - 1] == old_entries[j]);
        }
    }
    assert forall|a: int, b: int| 0 <= a < entries.len() && 0 <= b < entries.len() && a != b implies entries[a].0@
        != entries[b].0@ by {
        let oa = if a < i { a } else { a + 1 };
        let ob = if b < i { b } else { b + 1 };
        assert(entries[a] == old_entries[oa]);
        assert(entries[b] == old_entries[ob]);
    }
}

proof fn lemma_wf_push<V>(old_entries: Seq<(String, V)>, map: Map<Seq<char>, V>, k: String, v: V)
    requires
        wf_parts(old_entries, map),
        !map.contains_key(k@),
    ensures
        wf_parts(old_entries.push((k, v)), map.insert(k@, v)),
{
    let entries = old_entries.push((k, v));
    let key = k@;
    let new_map = map.insert(key, v);
    assert forall|j: int| 0 <= j < entries.len() implies #[trigger] new_map.contains_key(entries[j].0@)
        && new_map[entries[j].0@] == entries[j].1 by {
        if j < old_entries.len() {
            assert(entries[j] == old_entries[j]);
            assert(map.contains_key(old_entries[j].0@));
        }
    }
    assert forall|kk: Seq<char>| #[trigger] new_map.contains_key(kk) implies exists|j: int|
        0 <= j < entries.len() && entries[j].0@ == kk by {
        if kk == key {
            assert(entries[old_entries.len() as int].0@ == kk);
        } else {
            let j = choose|j: int| 0 <= j < old_entries.len() && old_entries[j].0@ == kk;
            assert(entries[j] == old_entries[j]);
        }
    }
    assert forall|a: int, b: int| 0 <= a < entries.len() && 0 <= b < entries.len() && a != b implies entries[a].0@
        != entries[b].0@ by {
        if a < old_entries.len() {
            assert(entries[a] == old_entries[a]);
            assert(map.contains_key(old_entries[a].0@));
        }
        if b < old_entries.len() {
            assert(entries[b] == old_entries[b]);
            assert(map.contains_key(old_entries[b].0@));
        }
    }
}

impl<V> Table<V> {
    #[verifier::type_invariant]
    closed spec fn inv(&self) -> bool {
        wf_parts(self.entries@, self.map@)
    }

    /// The keys, in the order the table walks them.
    pub closed spec fn keys(&self) -> Seq<Seq<char>> {
        self.entries@.map_values(|e: (String, V)| e.0@)
    }

    /// The values, in the order the table walks them.
    pub closed spec fn values(&self) -> Seq<V> {
        self.entries@.map_values(|e: (String, V)| e.1)
    }

    /// An empty table.
    pub fn new() -> (r: Self)
        ensures
            r@ == Map::<Seq<char>, V>::empty(),
    {
        Table { entries: Vec::new(), map: Ghost(Map::empty()) }
    }

    /// The number of keys. The `i`-th key of the walk holds the `i`-th
    /// value, every key of the map is walked, and no key twice.
    pub fn len(&self) -> (r: usize)
        ensures
            r == self@.len(),
            self.keys().len() == r,
            self.values().len() == r,
            self@.dom().finite(),
            forall|i: int|
                #![trigger self.keys()[i]]
                0 <= i < self.keys().len() ==> self@.contains_key(self.keys()[i]) && self@[self.keys()[i]]
                    == self.values()[i],
            forall|k: Seq<char>|
                #[trigger] self@.contains_key(k) ==> exists|i: int| 0 <= i < self.keys().len() && self.keys()[i] == k,
            forall|i: int, j: int|
                0 <= i < self.keys().len() && 0 <= j < self.keys().len() && i != j ==> self.keys()[i] != self.keys()[j],
    {
        proof {
            use_type_invariant(self);
            assert forall|k: Seq<char>| #[trigger] self@.contains_key(k) implies exists|i: int|
                0 <= i < self.keys().len() && self.keys()[i] == k by {
                let i = choose|i: int| 0 <= i < self.entries@.len() && self.entries@[i].0@ == k;
                assert(self.keys()[i] == k);
            }
            assert forall|i: int| #![trigger self.keys()[i]] 0 <= i < self.keys().len() implies self@.contains_key(self.keys()[i])
                && self@[self.keys()[i]] == self.values()[i] by {
                assert(self.keys()[i] == self.entries@[i].0@);
                assert(self.values()[i] == self.entries@[i].1);
                assert(self.map@.contains_key(self.entries@[i].0@));
                assert(self.map@[self.entries@[i].0@] == self.entries@[i].1);
            }
        }
        self.entries.len()
    }

    /// The `i`-th key of the walk.
    pub fn key_at(&self, i: usize) -> (r: &String)
        requires
            i < self.keys().len(),
        ensures
            r@ == self.keys()[i as int],
    {
        &self.entries[i].0
    }

    /// The `i`-th value of the walk.
    pub fn value_at(&self, i: usize) -> (r: &V)
        requires
            i < self.values().len(),
        ensures
            *r == self.values()[i as int],
    {
        &self.entries[i].1
    }

    fn find(&self, k: &str) -> (r: Option<usize>)
        ensures
            match r {
                Some(i) => i < self.entries@.len() && self.entries@[i as int].0@ == k@,
                None => !self@.contains_key(k@),
            },
    {
        proof {
            use_type_invariant(self);
        }
        let mut i: usize = 0;
        while i < self.entries.len()
            invariant
                i <= self.entries@.len(),
                forall|j: int| 0 <= j < i ==> self.entries@[j].0@ != k@,
            decreases self.entries@.len() - i,
        {
            if str_eq(self.entries[i].0.as_str(), k) {
                return Some(i);
            }
            i = i + 1;
        }
        None
    }

    /// Whether `k` is a key.
    pub fn contains_key(&self, k: &str) -> (r: bool)
        ensures
            r == self@.contains_key(k@),
    {
        proof {
            use_type_invariant(self);
        }
        match self.find(k) {
            Some(_) => true,
            None => false,
        }
    }

    /// The value under `k`, if any.
    pub fn get(&self, k: &str) -> (r: Option<&V>)
        ensures
            match r {
                Some(v) => self@.contains_key(k@) && *v == self@[k@],
                None => !self@.contains_key(k@),
            },
    {
        proof {
            use_type_invariant(self);
        }
        match self.find(k) {
            Some(i) => {
                assert(self.map@.contains_key(self.entries@[i as int].0@));
                Some(&self.entries[i].1)
            },
            None => None,
        }
    }

    /// Takes the value under `k` out of the table.
    #[verifier::spinoff_prover]
    pub fn remove(&mut self, k: &str) -> (r: Option<V>)
        ensures
            final(self)@ == old(self)@.remove(k@),
            match r {
                Some(v) => old(self)@.contains_key(k@) && v == old(self)@[k@],
                None => !old(self)@.contains_key(k@),
            },
    {
        proof {
            use_type_invariant(&*self);
        }
        match self.find(k) {
            None => {
                assert(self@.remove(k@) =~= self@);
                None
            },
            Some(i) => {
                let mut tmp = Table::new();
                std::mem::swap(self, &mut tmp);
                proof {
                    use_type_invariant(&tmp);
                }
                let Table { entries: mut entries, map: Ghost(map) } = tmp;
                let ghost old_entries = entries@;
                let (_key, v) = entries.remove(i);
                let ghost new_map = map.remove(k@);
                proof {
                    lemma_wf_remove(old_entries, map, i as int);
                }
                *self = Table { entries, map: Ghost(new_map) };
                Some(v)
            },
        }
    }

    /// Puts `v` under `k`, replacing what was there.
    pub fn insert(&mut self, k: String, v: V)
        ensures
            final(self)@ == old(self)@.insert(k@, v),
    {
        proof {
            use_type_invariant(&*self);
        }
        let _ = self.remove(k.as_str());
        proof {
            use_type_invariant(&*self);
        }
        let mut tmp = Table::new();
        std::mem::swap(self, &mut tmp);
        proof {
            use_type_invariant(&tmp);
        }
        let Table { entries: mut entries, map: Ghost(map) } = tmp;
        let ghost old_entries = entries@;
        let ghost key = k@;
        let ghost new_map = map.insert(key, v);
        proof {
            lemma_wf_push(old_entries, map, k, v);
        }
        entries.push((k, v));
        *self = Table { entries, map: Ghost(new_map) };
        assert(final(self)@ =~= old(self)@.insert(k@, v));
    }
}


/// The views of a list of strings.
pub open spec fn string_views(v: Seq<String>) -> Seq<Seq<char>> {
    v.map_values(|s: String| s@)
}

/// The keys among the first `n` whose values satisfy `pred`, in order.
pub open spec fn keys_where<V>(keys: Seq<Seq<char>>, vals: Seq<V>, pred: spec_fn(V) -> bool, n: int) -> Seq<Seq<char>>
    decreases n,
{
    if n <= 0 {
        Seq::empty()
    } else if pred(vals[n - 1]) {
        keys_where(keys, vals, pred, n - 1).push(keys[n - 1])
    } else {
        keys_where(keys, vals, pred, n - 1)
    }
}

/// A key is selected exactly when one of the first `n` entries has it and
/// satisfies `pred`.
pub proof fn lemma_keys_where<V>(keys: Seq<Seq<char>>, vals: Seq<V>, pred: spec_fn(V) -> bool, n: int, k: Seq<char>)
    requires
        0 <= n,
    ensures
        keys_where(keys, vals, pred, n).contains(k) <==> exists|j: int| 0 <= j < n && keys[j] == k && pred(vals[j]),
    decreases n,
{
    if n > 0 {
        lemma_keys_where(keys, vals, pred, n - 1, k);
        let prev = keys_where(keys, vals, pred, n - 1);
        if pred(vals[n - 1]) {
            if prev.push(keys[n - 1]).contains(k) {
                let i = choose|i: int| 0 <= i < prev.len() + 1 && #[trigger] prev.push(keys[n - 1])[i] == k;
                if i < prev.len() {
                    assert(prev[i] == k);
                }
            }
            if exists|j: int| 0 <= j < n && keys[j] == k && pred(vals[j]) {
                let j = choose|j: int| 0 <= j < n && keys[j] == k && pred(vals[j]);
                if j < n - 1 {
                    let i = choose|i: int| 0 <= i < prev.len() && #[trigger] prev[i] == k;
                    assert(prev.push(keys[n - 1])[i] == k);
                } else {
                    assert(prev.push(keys[n - 1])[prev.len() as int] == k);
                }
            }
        }
    }
}

/// Selecting among distinct keys gives each selected key once.
pub proof fn lemma_keys_where_distinct<V>(keys: Seq<Seq<char>>, vals: Seq<V>, pred: spec_fn(V) -> bool, n: int)
    requires
        0 <= n <= keys.len(),
        forall|i: int, j: int| 0 <= i < keys.len() && 0 <= j < keys.len() && i != j ==> keys[i] != keys[j],
    ensures
        keys_where(keys, vals, pred, n).no_duplicates(),
    decreases n,
{
    if n > 0 {
        lemma_keys_where_distinct(keys, vals, pred, n - 1);
        if pred(vals[n - 1]) {
            let prev = keys_where(keys, vals, pred, n - 1);
            let k = keys[n - 1];
            lemma_keys_where(keys, vals, pred, n - 1, k);
            assert(!prev.contains(k));
            let s = prev.push(k);
            assert forall|a: int, b: int| 0 <= a < s.len() && 0 <= b < s.len() && a != b implies s[a] != s[b] by {
                if a < prev.len() && b < prev.len() {
                    assert(s[a] == prev[a] && s[b] == prev[b]);
                } else if a < prev.len() {
                    assert(s[a] == prev[a]);
                } else {
                    assert(s[b] == prev[b]);
                }
            }
        }
    }
}

impl<V> Table<V> {
    /// Removes every key named in `keys`.
    pub fn remove_all(&mut self, keys: &Vec<String>)
        ensures
            final(self)@ == old(self)@.remove_keys(string_views(keys@).to_set()),
    {
        let mut i: usize = 0;
        assert(string_views(keys@).take(0).to_set() =~= Set::<Seq<char>>::empty());
        assert(old(self)@.remove_keys(string_views(keys@).take(0).to_set()) =~= old(self)@);
        while i < keys.len()
            invariant
                i <= keys@.len(),
                self@ == old(self)@.remove_keys(string_views(keys@).take(i as int).to_set()),
            decreases keys@.len() - i,
        {
            let _ = self.remove(keys[i].as_str());
            assert(string_views(keys@).take(i + 1) =~= string_views(keys@).take(i as int).push(keys@[i as int]@));
            proof { string_views(keys@).take(i as int).lemma_push_to_set_commute(keys@[i as int]@); }
            assert(self@ =~= old(self)@.remove_keys(string_views(keys@).take(i + 1).to_set()));
            i = i + 1;
        }
        assert(string_views(keys@).take(keys@.len() as int) =~= string_views(keys@));
    }

    /// The keys, in walk order, whose values `f` maps to `want` (where `f`
    /// computes `pred`).
    pub fn select_keys<F: Fn(&V) -> bool>(&self, f: &F, want: bool, Ghost(pred): Ghost<spec_fn(V) -> bool>) -> (r: Vec<String>)
        requires
            forall|v: V| #[trigger] f.requires((&v,)),
            forall|v: V, b: bool| f.ensures((&v,), b) ==> b == pred(v),
        ensures
            string_views(r@) == keys_where(self.keys(), self.values(), |v: V| pred(v) == want, self.keys().len() as int),
    {
        let n = self.len();
        let ghost sel = |v: V| pred(v) == want;
        let mut out: Vec<String> = Vec::new();
        let mut i: usize = 0;
        while i < n
            invariant
                n == self.keys().len(),
                n == self.values().len(),
                i <= n,
                forall|v: V| #[trigger] sel(v) == (pred(v) == want),
                forall|v: V| #[trigger] f.requires((&v,)),
                forall|v: V, b: bool| f.ensures((&v,), b) ==> b == pred(v),
                string_views(out@) == keys_where(self.keys(), self.values(), sel, i as int),
            decreases n - i,
        {
            let v = self.value_at(i);
            let ghost prev = out@;
            let b = f(v);
            if b == want {
                let k = self.key_at(i);
                out.push(k.clone());
                assert(string_views(out@) =~= string_views(prev).push(self.keys()[i as int]));
            } else {
                assert(string_views(out@) =~= string_views(prev));
            }
            i = i + 1;
        }
        out
    }

    /// Keeps exactly the entries whose values satisfy `keep` (which
    /// computes `pred`).
    pub fn retain_where<F: Fn(&V) -> bool>(&mut self, keep: F, Ghost(pred): Ghost<spec_fn(V) -> bool>)
        requires
            forall|v: V| #[trigger] keep.requires((&v,)),
            forall|v: V, b: bool| keep.ensures((&v,), b) ==> b == pred(v),
        ensures
            final(self)@ == old(self)@.restrict(old(self)@.dom().filter(|k: Seq<char>| pred(old(self)@[k]))),
    {
        let n = self.len();
        let stale = self.select_keys(&keep, false, Ghost(pred));
        let ghost drop = |v: V| pred(v) == false;
        let ghost before = self@;
        let ghost keys = self.keys();
        let ghost vals = self.values();
        self.remove_all(&stale);
        proof {
            let target = before.restrict(before.dom().filter(|k: Seq<char>| pred(before[k])));
            assert forall|k: Seq<char>| #[trigger] self@.contains_key(k) <==> target.contains_key(k) by {
                lemma_keys_where(keys, vals, drop, n as int, k);
                lemma_sorted_contains(string_views(stale@), k);
                if before.contains_key(k) {
                    let j = choose|j: int| 0 <= j < n && keys[j] == k;
                    assert(before[k] == vals[j]);
                    if exists|j2: int| 0 <= j2 < n && keys[j2] == k && drop(vals[j2]) {
                        let j2 = choose|j2: int| 0 <= j2 < n && keys[j2] == k && drop(vals[j2]);
                        assert(j2 == j);
                    }
                }
            }
            assert(self@ =~= target);
        }
    }
}

proof fn lemma_sorted_contains(s: Seq<Seq<char>>, k: Seq<char>)
    ensures
        s.to_set().contains(k) <==> s.contains(k),
{
}

} // verus!
