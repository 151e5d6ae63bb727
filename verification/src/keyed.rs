use vstd::prelude::*;

use crate::text;
use crate::text::{str_le, to_chars, vec_eq};

verus! {

/// The key views of a list of entries.
pub open spec fn key_views<V>(e: Seq<(String, V)>) -> Seq<Seq<char>> {
    e.map_values(|x: (String, V)| x.0@)
}

/// Whether the keys strictly increase in `String` order (so none occurs twice).
pub open spec fn strictly_sorted(ks: Seq<Seq<char>>) -> bool {
    forall|i: int, j: int|
        0 <= i < j < ks.len() ==> text::seq_le(#[trigger] ks[i], #[trigger] ks[j]) && ks[i]
            != ks[j]
}

/// The value stored under key `k` in a list of entries: that of the first entry with
/// that key.
pub open spec fn lookup<V>(e: Seq<(String, V)>, k: Seq<char>) -> Option<V>
    decreases e.len(),
{
    if e.len() == 0 {
        None
    } else if e[0].0@ == k {
        Some(e[0].1)
    } else {
        lookup(e.drop_first(), k)
    }
}

/// The map that a list of entries denotes.
pub open spec fn entries_map<V>(e: Seq<(String, V)>) -> Map<Seq<char>, V> {
    Map::new(|k: Seq<char>| lookup(e, k) is Some, |k: Seq<char>| lookup(e, k)->0)
}

/// In a list whose keys are distinct, looking up the key of an entry finds that entry's value.
pub proof fn lemma_lookup_at<V>(e: Seq<(String, V)>, i: int)
    requires
        0 <= i < e.len(),
        forall|a: int, b: int| 0 <= a < b < e.len() ==> #[trigger] e[a].0@ != #[trigger] e[b].0@,
    ensures
        lookup(e, e[i].0@) == Some(e[i].1),
    decreases e.len(),
{
    if i > 0 {
        assert(e[0].0@ != e[i].0@);
        let t = e.drop_first();
        assert forall|a: int, b: int| 0 <= a < b < t.len() implies #[trigger] t[a].0@
            != #[trigger] t[b].0@ by {
            assert(t[a] == e[a + 1]);
            assert(t[b] == e[b + 1]);
        }
        assert(t[i - 1] == e[i]);
        lemma_lookup_at(t, i - 1);
    }
}

/// Looking up a key that no entry has finds nothing.
pub proof fn lemma_lookup_absent<V>(e: Seq<(String, V)>, k: Seq<char>)
    requires
        forall|i: int| 0 <= i < e.len() ==> #[trigger] e[i].0@ != k,
    ensures
        lookup(e, k) is None,
    decreases e.len(),
{
    if e.len() > 0 {
        let t = e.drop_first();
        assert forall|i: int| 0 <= i < t.len() implies #[trigger] t[i].0@ != k by {
            assert(t[i] == e[i + 1]);
        }
        lemma_lookup_absent(t, k);
    }
}

/// A map from string keys to values that keeps its entries in increasing key order,
/// as a `BTreeMap<String, V>` does.
#[derive(Debug)]
pub struct KeyedMap<V> {
    entries: Vec<(String, V)>,
}

impl<V> KeyedMap<V> {
    #[verifier::type_invariant]
    spec fn keys_sorted(&self) -> bool {
        strictly_sorted(key_views(self.entries@))
    }

    /// The entries in key order.
    pub closed spec fn entry_seq(&self) -> Seq<(String, V)> {
        self.entries@
    }

    /// The keys in increasing order.
    pub closed spec fn key_order(&self) -> Seq<Seq<char>> {
        key_views(self.entries@)
    }

    proof fn lemma_distinct(&self)
        requires
            strictly_sorted(key_views(self.entries@)),
        ensures
            forall|a: int, b: int|
                0 <= a < b < self.entries@.len() ==> #[trigger] self.entries@[a].0@
                    != #[trigger] self.entries@[b].0@,
    {
        assert forall|a: int, b: int| 0 <= a < b < self.entries@.len() implies #[trigger] self.entries@[a].0@
            != #[trigger] self.entries@[b].0@ by {
            assert(key_views(self.entries@)[a] == self.entries@[a].0@);
            assert(key_views(self.entries@)[b] == self.entries@[b].0@);
        }
    }

    /// The position of key `k`, when present.
    fn find(&self, k: &str) -> (r: Option<usize>)
        ensures
            r matches Some(i) ==> i < self.entries@.len() && self.entries@[i as int].0@ == k@,
            r is None ==> forall|i: int|
                0 <= i < self.entries@.len() ==> #[trigger] self.entries@[i].0@ != k@,
    {
        let kc = to_chars(k);
        let mut i: usize = 0;
        while i < self.entries.len()
            invariant
                i <= self.entries@.len(),
                kc@ == k@,
                forall|j: int| 0 <= j < i ==> #[trigger] self.entries@[j].0@ != k@,
            decreases self.entries.len() - i,
        {
            let c = to_chars(self.entries[i].0.as_str());
            if vec_eq(&c, &kc) {
                return Some(i);
            }
            i = i + 1;
        }
        None
    }

    /// An empty map.
    pub fn new() -> (m: Self)
        ensures
            m@ == Map::<Seq<char>, V>::empty(),
            m.key_order() == Seq::<Seq<char>>::empty(),
    {
        let m = KeyedMap { entries: Vec::new() };
        assert(m@ =~= Map::<Seq<char>, V>::empty());
        assert(key_views(m.entries@) =~= Seq::<Seq<char>>::empty());
        m
    }

    /// The number of entries.
    pub fn len(&self) -> (n: usize)
        ensures
            n == self.key_order().len(),
            strictly_sorted(self.key_order()),
            forall|k: Seq<char>| #[trigger] self@.dom().contains(k) <==> self.key_order().contains(k),
    {
        proof {
            use_type_invariant(self);
            self.lemma_dom();
        }
        self.entries.len()
    }

    /// The key and value at position `i` in key order.
    pub fn entry_at(&self, i: usize) -> (r: (&String, &V))
        requires
            i < self.key_order().len(),
        ensures
            r.0@ == self.key_order()[i as int],
            self@.dom().contains(r.0@),
            self@[r.0@] == *r.1,
    {
        proof {
            use_type_invariant(self);
            self.lemma_dom();
            assert(key_views(self.entries@)[i as int] == self.entries@[i as int].0@);
        }
        (&self.entries[i].0, &self.entries[i].1)
    }

    /// Whether the map holds no entry.
    pub fn is_empty(&self) -> (b: bool)
        ensures
            b == (self@.dom() == Set::<Seq<char>>::empty()),
    {
        proof {
            use_type_invariant(self);
            self.lemma_distinct();
            if self.entries@.len() > 0 {
                lemma_lookup_at(self.entries@, 0);
                assert(self@.dom().contains(self.entries@[0].0@));
            } else {
                assert(self@.dom() =~= Set::<Seq<char>>::empty());
            }
        }
        self.entries.len() == 0
    }

    /// Whether `k` is a key of the map.
    pub fn contains_key(&self, k: &str) -> (b: bool)
        ensures
            b == self@.dom().contains(k@),
    {
        proof {
            use_type_invariant(self);
            self.lemma_distinct();
        }
        match self.find(k) {
            Some(i) => {
                proof {
                    lemma_lookup_at(self.entries@, i as int);
                }
                true
            },
            None => {
                proof {
                    lemma_lookup_absent(self.entries@, k@);
                }
                false
            },
        }
    }

    /// The value under key `k`.
    pub fn get(&self, k: &str) -> (r: Option<&V>)
        ensures
            r matches Some(v) ==> self@.dom().contains(k@) && self@[k@] == *v,
            r is None ==> !self@.dom().contains(k@),
    {
        proof {
            use_type_invariant(self);
            self.lemma_distinct();
        }
        match self.find(k) {
            Some(i) => {
                proof {
                    lemma_lookup_at(self.entries@, i as int);
                }
                Some(&self.entries[i].1)
            },
            None => {
                proof {
                    lemma_lookup_absent(self.entries@, k@);
                }
                None
            },
        }
    }

    /// The keys in increasing order.
    pub fn keys(&self) -> (r: Vec<String>)
        ensures
            r@.map_values(|s: String| s@) == self.key_order(),
            strictly_sorted(r@.map_values(|s: String| s@)),
            forall|k: Seq<char>| #[trigger] self@.dom().contains(k) <==> r@.map_values(
                |s: String| s@,
            ).contains(k),
    {
        proof {
            use_type_invariant(self);
            self.lemma_dom();
        }
        let mut r: Vec<String> = Vec::new();
        let mut i: usize = 0;
        while i < self.entries.len()
            invariant
                i <= self.entries@.len(),
                r@.map_values(|s: String| s@) == key_views(self.entries@).take(i as int),
            decreases self.entries.len() - i,
        {
            let k = self.entries[i].0.clone();
            let ghost old_r = r@;
            r.push(k);
            assert(r@.map_values(|s: String| s@) =~= old_r.map_values(|s: String| s@).push(k@));
            assert(key_views(self.entries@).take(i + 1) =~= key_views(self.entries@).take(
                i as int,
            ).push(self.entries@[i as int].0@));
            i = i + 1;
        }
        assert(key_views(self.entries@).take(i as int) =~= key_views(self.entries@));
        r
    }
}

impl<V> KeyedMap<V> {
    proof fn lemma_dom(&self)
        requires
            strictly_sorted(key_views(self.entries@)),
        ensures
            forall|k: Seq<char>| #[trigger] self@.dom().contains(k) <==> key_views(
                self.entries@,
            ).contains(k),
            forall|i: int|
                0 <= i < self.entries@.len() ==> #[trigger] self@[self.entries@[i].0@]
                    == self.entries@[i].1,
    {
        self.lemma_distinct();
        assert forall|k: Seq<char>| #[trigger] self@.dom().contains(k) <==> key_views(
            self.entries@,
        ).contains(k) by {
            if key_views(self.entries@).contains(k) {
                let i = choose|i: int|
                    0 <= i < key_views(self.entries@).len() && key_views(self.entries@)[i] == k;
                lemma_lookup_at(self.entries@, i);
            } else {
                assert forall|i: int| 0 <= i < self.entries@.len() implies #[trigger] self.entries@[i].0@
                    != k by {
                    assert(key_views(self.entries@)[i] == self.entries@[i].0@);
                }
                lemma_lookup_absent(self.entries@, k);
            }
        }
        assert forall|i: int| 0 <= i < self.entries@.len() implies #[trigger] self@[self.entries@[i].0@]
            == self.entries@[i].1 by {
            lemma_lookup_at(self.entries@, i);
        }
    }

    /// The smallest key, when there is one.
    pub fn first_key(&self) -> (r: Option<String>)
        ensures
            r is None <==> self@.dom() == Set::<Seq<char>>::empty(),
            r matches Some(k) ==> self@.dom().contains(k@) && forall|other: Seq<char>|
                #[trigger] self@.dom().contains(other) ==> text::seq_le(k@, other),
    {
        proof {
            use_type_invariant(self);
            self.lemma_dom();
        }
        if self.entries.len() == 0 {
            assert(self@.dom() =~= Set::<Seq<char>>::empty());
            None
        } else {
            let k = self.entries[0].0.clone();
            proof {
                assert(key_views(self.entries@)[0] == k@);
                assert(self@.dom().contains(k@));
                assert forall|other: Seq<char>| #[trigger] self@.dom().contains(other) implies text::seq_le(
                    k@,
                    other,
                ) by {
                    let j = choose|j: int|
                        0 <= j < key_views(self.entries@).len() && key_views(self.entries@)[j]
                            == other;
                    if j == 0 {
                        text::lemma_seq_le_refl(k@);
                    } else {
                        assert(text::seq_le(key_views(self.entries@)[0], key_views(self.entries@)[j]));
                    }
                }
            }
            Some(k)
        }
    }

    /// Sets the value under `k`, adding the key when it is new.
    pub fn insert(&mut self, k: String, v: V)
        ensures
            final(self)@ == old(self)@.insert(k@, v),
    {
        proof {
            use_type_invariant(&*self);
        }
        let ghost e = self.entries@;
        let mut p: usize = 0;
        let kc = to_chars(k.as_str());
        while p < self.entries.len() && str_le(self.entries[p].0.as_str(), k.as_str()) && !vec_eq(
            &to_chars(self.entries[p].0.as_str()),
            &kc,
        )
            invariant
                p <= self.entries@.len(),
                self.entries@ == e,
                kc@ == k@,
                forall|j: int|
                    0 <= j < p ==> text::seq_le(#[trigger] e[j].0@, k@) && e[j].0@ != k@,
            decreases self.entries.len() - p,
        {
            p = p + 1;
        }
        let replace = p < self.entries.len() && vec_eq(&to_chars(self.entries[p].0.as_str()), &kc);
        proof {
            assert forall|j: int| 0 <= j < e.len() implies key_views(e)[j] == #[trigger] e[j].0@ by {}
            if !replace {
                assert forall|j: int| p <= j < e.len() implies text::seq_le(k@, #[trigger] e[j].0@)
                    && e[j].0@ != k@ by {
                    text::lemma_seq_le_total(e[p as int].0@, k@);
                    assert(!text::seq_le(e[p as int].0@, k@) || e[p as int].0@ == k@);
                    assert(e[p as int].0@ != k@);
                    if j > p {
                        assert(text::seq_le(key_views(e)[p as int], key_views(e)[j]));
                        text::lemma_seq_le_trans(k@, e[p as int].0@, e[j].0@);
                        if e[j].0@ == k@ {
                            text::lemma_seq_le_antisym(e[p as int].0@, k@);
                        }
                    }
                }
            }
        }
        if replace {
            let ghost key = self.entries@[p as int].0;
            let mut entries: Vec<(String, V)> = Vec::new();
            std::mem::swap(&mut entries, &mut self.entries);
            let _old = entries.remove(p);
            entries.insert(p, (k, v));
            proof {
                let e2 = entries@;
                assert(e2 =~= e.update(p as int, (k, v)));
                assert(key_views(e2) =~= key_views(e).update(p as int, k@));
                assert(key_views(e2) =~= key_views(e));
                let m2 = entries_map(e2);
                let m1 = entries_map(e).insert(k@, v);
                assert forall|a: int, b: int| 0 <= a < b < e2.len() implies #[trigger] e2[a].0@
                    != #[trigger] e2[b].0@ by {
                    assert(key_views(e2)[a] == e2[a].0@);
                    assert(key_views(e2)[b] == e2[b].0@);
                }
                assert forall|a: int, b: int| 0 <= a < b < e.len() implies #[trigger] e[a].0@
                    != #[trigger] e[b].0@ by {
                    assert(key_views(e)[a] == e[a].0@);
                    assert(key_views(e)[b] == e[b].0@);
                }
                assert forall|kk: Seq<char>| #[trigger] m2.dom().contains(kk) == m1.dom().contains(
                    kk,
                ) && (m2.dom().contains(kk) ==> m2[kk] == m1[kk]) by {
                    if kk == k@ {
                        lemma_lookup_at(e2, p as int);
                    } else if exists|i: int| 0 <= i < e.len() && e[i].0@ == kk {
                        let i = choose|i: int| 0 <= i < e.len() && e[i].0@ == kk;
                        lemma_lookup_at(e, i);
                        assert(e2[i] == e[i]);
                        lemma_lookup_at(e2, i);
                    } else {
                        lemma_lookup_absent(e, kk);
                        assert forall|i: int| 0 <= i < e2.len() implies #[trigger] e2[i].0@ != kk by {
                            if i != p {
                                assert(e2[i] == e[i]);
                            }
                        }
                        lemma_lookup_absent(e2, kk);
                    }
                }
                assert(m2 =~= m1);
            }
            self.entries = entries;
        } else {
            let mut entries: Vec<(String, V)> = Vec::new();
            std::mem::swap(&mut entries, &mut self.entries);
            entries.insert(p, (k, v));
            proof {
                let e2 = entries@;
                e.insert_ensures(p as int, (k, v));
                assert(e2 == e.insert(p as int, (k, v)));
                assert forall|j: int| 0 <= j < e2.len() implies key_views(e2)[j] == #[trigger] e2[j].0@ by {}
                assert forall|a: int, b: int| 0 <= a < b < e2.len() implies text::seq_le(
                    #[trigger] key_views(e2)[a],
                    #[trigger] key_views(e2)[b],
                ) && key_views(e2)[a] != key_views(e2)[b] by {
                    assert(key_views(e2)[a] == e2[a].0@);
                    assert(key_views(e2)[b] == e2[b].0@);
                    if a < p && b < p {
                        assert(text::seq_le(key_views(e)[a], key_views(e)[b]));
                    } else if a < p && b == p {
                    } else if a < p {
                        assert(e2[b] == e[b - 1]);
                        text::lemma_seq_le_trans(e[a].0@, k@, e[b - 1].0@);
                        if e[a].0@ == e[b - 1].0@ {
                            text::lemma_seq_le_antisym(e[a].0@, k@);
                        }
                    } else if a == p {
                        assert(e2[b] == e[b - 1]);
                    } else {
                        assert(e2[a] == e[a - 1]);
                        assert(e2[b] == e[b - 1]);
                        assert(text::seq_le(key_views(e)[a - 1], key_views(e)[b - 1]));
                    }
                }
                assert forall|a: int, b: int| 0 <= a < b < e2.len() implies #[trigger] e2[a].0@
                    != #[trigger] e2[b].0@ by {
                    assert(key_views(e2)[a] == e2[a].0@);
                    assert(key_views(e2)[b] == e2[b].0@);
                }
                assert forall|a: int, b: int| 0 <= a < b < e.len() implies #[trigger] e[a].0@
                    != #[trigger] e[b].0@ by {
                    assert(key_views(e)[a] == e[a].0@);
                    assert(key_views(e)[b] == e[b].0@);
                }
                let m2 = entries_map(e2);
                let m1 = entries_map(e).insert(k@, v);
                assert forall|kk: Seq<char>| #[trigger] m2.dom().contains(kk) == m1.dom().contains(
                    kk,
                ) && (m2.dom().contains(kk) ==> m2[kk] == m1[kk]) by {
                    if kk == k@ {
                        lemma_lookup_at(e2, p as int);
                    } else if exists|i: int| 0 <= i < e.len() && e[i].0@ == kk {
                        let i = choose|i: int| 0 <= i < e.len() && e[i].0@ == kk;
                        lemma_lookup_at(e, i);
                        if i < p {
                            assert(e2[i] == e[i]);
                            lemma_lookup_at(e2, i);
                        } else {
                            assert(e2[i + 1] == e[i]);
                            lemma_lookup_at(e2, i + 1);
                        }
                    } else {
                        lemma_lookup_absent(e, kk);
                        assert forall|i: int| 0 <= i < e2.len() implies #[trigger] e2[i].0@ != kk by {
                            if i < p {
                                assert(e2[i] == e[i]);
                            } else if i > p {
                                assert(e2[i] == e[i - 1]);
                            }
                        }
                        lemma_lookup_absent(e2, kk);
                    }
                }
                assert(m2 =~= m1);
            }
            self.entries = entries;
        }
    }

    /// Removes the entry under `k` and returns its value, when there is one.
    pub fn remove(&mut self, k: &str) -> (r: Option<V>)
        ensures
            final(self)@ == old(self)@.remove(k@),
            r matches Some(v) ==> old(self)@.dom().contains(k@) && old(self)@[k@] == v,
            r is None ==> !old(self)@.dom().contains(k@),
    {
        proof {
            use_type_invariant(&*self);
            self.lemma_distinct();
        }
        let ghost e = self.entries@;
        match self.find(k) {
            Some(p) => {
                proof {
                    lemma_lookup_at(e, p as int);
                }
                let mut entries: Vec<(String, V)> = Vec::new();
                std::mem::swap(&mut entries, &mut self.entries);
                let (_key, val) = entries.remove(p);
                proof {
                    let e2 = entries@;
                    assert(e2 =~= e.remove(p as int));
                    assert forall|j: int| 0 <= j < e2.len() implies key_views(e2)[j] == #[trigger] e2[j].0@ by {}
                    assert forall|j: int| 0 <= j < e.len() implies key_views(e)[j] == #[trigger] e[j].0@ by {}
                    assert forall|a: int, b: int| 0 <= a < b < e2.len() implies text::seq_le(
                        #[trigger] key_views(e2)[a],
                        #[trigger] key_views(e2)[b],
                    ) && key_views(e2)[a] != key_views(e2)[b] by {
                        let a0 = if a < p { a } else { a + 1 };
                        let b0 = if b < p { b } else { b + 1 };
                        assert(e2[a] == e[a0]);
                        assert(e2[b] == e[b0]);
                        assert(text::seq_le(key_views(e)[a0], key_views(e)[b0]));
                    }
                    assert forall|a: int, b: int| 0 <= a < b < e2.len() implies #[trigger] e2[a].0@
                        != #[trigger] e2[b].0@ by {
                        assert(key_views(e2)[a] == e2[a].0@);
                        assert(key_views(e2)[b] == e2[b].0@);
                    }
                    let m2 = entries_map(e2);
                    let m1 = entries_map(e).remove(k@);
                    assert forall|kk: Seq<char>| #[trigger] m2.dom().contains(kk)
                        == m1.dom().contains(kk) && (m2.dom().contains(kk) ==> m2[kk] == m1[kk]) by {
                        if kk == k@ {
                            assert forall|i: int| 0 <= i < e2.len() implies #[trigger] e2[i].0@ != kk by {
                                let i0 = if i < p { i } else { i + 1 };
                                assert(e2[i] == e[i0]);
                            }
                            lemma_lookup_absent(e2, kk);
                        } else if exists|i: int| 0 <= i < e.len() && e[i].0@ == kk {
                            let i = choose|i: int| 0 <= i < e.len() && e[i].0@ == kk;
                            lemma_lookup_at(e, i);
                            if i < p {
                                assert(e2[i] == e[i]);
                                lemma_lookup_at(e2, i);
                            } else {
                                assert(i != p);
                                assert(e2[i - 1] == e[i]);
                                lemma_lookup_at(e2, i - 1);
                            }
                        } else {
                            lemma_lookup_absent(e, kk);
                            assert forall|i: int| 0 <= i < e2.len() implies #[trigger] e2[i].0@ != kk by {
                                let i0 = if i < p { i } else { i + 1 };
                                assert(e2[i] == e[i0]);
                            }
                            lemma_lookup_absent(e2, kk);
                        }
                    }
                    assert(m2 =~= m1);
                }
                self.entries = entries;
                Some(val)
            },
            None => {
                proof {
                    lemma_lookup_absent(e, k@);
                    assert(entries_map(e).remove(k@) =~= entries_map(e));
                }
                None
            },
        }
    }
}

impl<V> View for KeyedMap<V> {
    type V = Map<Seq<char>, V>;

    closed spec fn view(&self) -> Map<Seq<char>, V> {
        entries_map(self.entries@)
    }
}


impl KeyedMap<String> {
    /// A copy of a map of strings.
    pub fn duplicate(&self) -> (r: Self)
        ensures
            r@ == self@,
            r.key_order() == self.key_order(),
    {
        proof {
            use_type_invariant(self);
        }
        let mut entries: Vec<(String, String)> = Vec::new();
        let mut i: usize = 0;
        while i < self.entries.len()
            invariant
                i <= self.entries@.len(),
                entries@ == self.entries@.take(i as int),
            decreases self.entries@.len() - i,
        {
            let k = self.entries[i].0.clone();
            let v = self.entries[i].1.clone();
            entries.push((k, v));
            assert(self.entries@.take(i + 1) =~= self.entries@.take(i as int).push(self.entries@[i as int]));
            i = i + 1;
        }
        assert(self.entries@.take(self.entries@.len() as int) =~= self.entries@);
        KeyedMap { entries }
    }
}

} // verus!
