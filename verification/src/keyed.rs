//! Small association maps over vectors of pairs, with `Map` views.
//!
//! The registry and the relay tables key their rows by session, connection
//! and token identifiers; these containers give each such table a
//! mathematical `Map` view while keeping the stored rows enumerable.

use vstd::prelude::*;

use crate::text::str_eq;
use vstd::map::*;

verus! {

/// Whether some entry of `s` carries the key `k`.
pub open spec fn entries_have_key<VV>(s: Seq<(Seq<char>, VV)>, k: Seq<char>) -> bool {
    exists|i: int| 0 <= i < s.len() && (#[trigger] s[i]).0 == k
}

/// An index of `s` whose entry carries the key `k`.
pub open spec fn entry_index_of<VV>(s: Seq<(Seq<char>, VV)>, k: Seq<char>) -> int {
    choose|i: int| 0 <= i < s.len() && (#[trigger] s[i]).0 == k
}

/// A map from string keys to values, stored as a vector of pairs with
/// pairwise-distinct keys.
pub struct StrMap<V: DeepView> {
    pairs: Vec<(String, V)>,
}

impl<V: DeepView> View for StrMap<V> {
    type V = Map<Seq<char>, V::V>;

    closed spec fn view(&self) -> Map<Seq<char>, V::V> {
        Map::new(
            |k: Seq<char>| entries_have_key(self.entries(), k),
            |k: Seq<char>| self.entries()[entry_index_of(self.entries(), k)].1,
        )
    }
}

impl<V: DeepView> StrMap<V> {
    /// The stored entries, keys and values abstracted, in storage order.
    pub closed spec fn entries(self) -> Seq<(Seq<char>, V::V)> {
        self.pairs.deep_view()
    }

    #[verifier::type_invariant]
    spec fn wf(self) -> bool {
        forall|i: int, j: int|
            0 <= i < j < self.entries().len() ==> (#[trigger] self.entries()[i]).0 != (
            #[trigger] self.entries()[j]).0
    }

    proof fn lemma_entry_in_view(self, i: int)
        requires
            self.wf(),
            0 <= i < self.entries().len(),
        ensures
            self@.contains_key(self.entries()[i].0),
            self@[self.entries()[i].0] == self.entries()[i].1,
            entry_index_of(self.entries(), self.entries()[i].0) == i,
    {
        let s = self.entries();
        let k = s[i].0;
        assert(entries_have_key(s, k));
        let j = entry_index_of(s, k);
        assert(0 <= j < s.len() && s[j].0 == k);
        if i != j {
            if i < j {
                assert(s[i].0 != s[j].0);
            } else {
                assert(s[j].0 != s[i].0);
            }
        }
        assert(self@.dom() =~= Set::new(|k: Seq<char>| entries_have_key(s, k)));
    }

    proof fn lemma_key_in_view(self, k: Seq<char>)
        requires
            self.wf(),
            self@.contains_key(k),
        ensures
            entries_have_key(self.entries(), k),
            0 <= entry_index_of(self.entries(), k) < self.entries().len(),
            self.entries()[entry_index_of(self.entries(), k)].0 == k,
            self@[k] == self.entries()[entry_index_of(self.entries(), k)].1,
    {
        let s = self.entries();
        assert(self@.dom() =~= Set::new(|k: Seq<char>| entries_have_key(s, k)));
        assert(entries_have_key(s, k));
        let j = entry_index_of(s, k);
        assert(0 <= j < s.len() && s[j].0 == k);
        self.lemma_entry_in_view(j);
    }

    /// An empty map.
    pub fn new() -> (r: Self)
        ensures
            r@ == Map::<Seq<char>, V::V>::empty(),
    {
        let r = StrMap { pairs: Vec::new() };
        proof {
            assert(r@ =~= Map::<Seq<char>, V::V>::empty());
        }
        r
    }

    fn position(&self, key: &str) -> (r: Option<usize>)
        ensures
            match r {
                Some(i) => i < self.entries().len() && self.entries()[i as int].0 == key@,
                None => !entries_have_key(self.entries(), key@),
            },
    {
        let n = self.pairs.len();
        proof {
            assert(self.entries().len() == self.pairs@.len());
        }
        let mut i: usize = 0;
        while i < n
            invariant
                i <= n,
                n == self.pairs@.len(),
                self.entries().len() == n,
                self.entries() == self.pairs.deep_view(),
                forall|j: int| 0 <= j < i ==> (#[trigger] self.entries()[j]).0 != key@,
            decreases n - i,
        {
            let p = &self.pairs[i];
            if str_eq(p.0.as_str(), key) {
                proof {
                    assert(self.entries()[i as int].0 == key@);
                }
                return Some(i);
            }
            i += 1;
        }
        None
    }

    /// Whether the map holds the key.
    pub fn contains_key(&self, key: &str) -> (r: bool)
        ensures
            r == self@.contains_key(key@),
    {
        proof {
            use_type_invariant(&*self);
        }
        let pos = self.position(key);
        proof {
            match pos {
                Some(i) => self.lemma_entry_in_view(i as int),
                None => {
                    if self@.contains_key(key@) {
                        self.lemma_key_in_view(key@);
                    }
                },
            }
        }
        pos.is_some()
    }

    /// The value stored under the key, if any.
    pub fn get(&self, key: &str) -> (r: Option<&V>)
        ensures
            match r {
                Some(v) => self@.contains_key(key@) && v.deep_view() == self@[key@],
                None => !self@.contains_key(key@),
            },
    {
        proof {
            use_type_invariant(&*self);
        }
        let pos = self.position(key);
        match pos {
            Some(i) => {
                proof {
                    self.lemma_entry_in_view(i as int);
                }
                let p = &self.pairs[i];
                proof {
                    assert(p.1.deep_view() == self.entries()[i as int].1);
                }
                Some(&p.1)
            },
            None => {
                proof {
                    if self@.contains_key(key@) {
                        self.lemma_key_in_view(key@);
                    }
                }
                None
            },
        }
    }

    /// Binds the key to the value, replacing any previous binding.
    pub fn insert(&mut self, key: String, value: V)
        ensures
            final(self)@ == old(self)@.insert(key@, value.deep_view()),
    {
        proof {
            use_type_invariant(&*self);
        }
        let ghost old_self = *self;
        let pos = self.position(key.as_str());
        let mut pairs: Vec<(String, V)> = Vec::new();
        core::mem::swap(&mut pairs, &mut self.pairs);
        let ghost pre = old_self.entries();
        if let Some(i) = pos {
            pairs.remove(i);
            proof {
                assert(pairs.deep_view() =~= pre.remove(i as int));
            }
        }
        let ghost mid = pairs.deep_view();
        pairs.push((key, value));
        proof {
            let s = pairs.deep_view();
            let n = s.len();
            assert(s =~= mid.push((key@, value.deep_view())));
            // no earlier entry still carries the key
            assert forall|j: int| 0 <= j < n - 1 implies (#[trigger] s[j]).0 != key@ by {
                if let Some(i) = pos {
                    if j < i as int {
                        assert(pre[j].0 != pre[i as int].0);
                    } else {
                        assert(pre[j + 1].0 != pre[i as int].0);
                    }
                } else {
                    assert(pre[j].0 != key@);
                }
            }
            // the keys stay pairwise distinct
            assert forall|a: int, b: int|
                0 <= a < b < n implies (#[trigger] s[a]).0 != (#[trigger] s[b]).0 by {
                if b == n - 1 {
                    assert(s[a].0 != key@);
                } else {
                    if let Some(i) = pos {
                        if b < i as int {
                            assert(pre[a].0 != pre[b].0);
                        } else if a < i as int {
                            assert(pre[a].0 != pre[b + 1].0);
                        } else {
                            assert(pre[a + 1].0 != pre[b + 1].0);
                        }
                    } else {
                        assert(pre[a].0 != pre[b].0);
                    }
                }
            }
        }
        core::mem::swap(&mut pairs, &mut self.pairs);
        proof {
            use_type_invariant(&*self);
            let s = self.entries();
            let n = s.len();
            assert(s =~= mid.push((key@, value.deep_view())));
            // the views agree key by key
            assert_maps_equal!(self@, old_self@.insert(key@, value.deep_view()), k => {
                if k == key@ {
                    self.lemma_entry_in_view(n - 1);
                } else {
                    if entries_have_key(old_self.entries(), k) {
                        let j = entry_index_of(old_self.entries(), k);
                        old_self.lemma_entry_in_view(j);
                        let j2 = match pos {
                            Some(i) => if j < i as int {
                                j
                            } else {
                                j - 1
                            },
                            None => j,
                        };
                        assert(s[j2].0 == k && s[j2].1 == old_self.entries()[j].1);
                        self.lemma_entry_in_view(j2);
                    }
                    if entries_have_key(s, k) {
                        let j2 = entry_index_of(s, k);
                        self.lemma_entry_in_view(j2);
                        let j = match pos {
                            Some(i) => if j2 < i as int {
                                j2
                            } else {
                                j2 + 1
                            },
                            None => j2,
                        };
                        assert(old_self.entries()[j].0 == k);
                        old_self.lemma_entry_in_view(j);
                    }
                }
            });
        }
    }

    /// Drops the key's binding, if any.
    pub fn remove(&mut self, key: &str)
        ensures
            final(self)@ == old(self)@.remove(key@),
    {
        proof {
            use_type_invariant(&*self);
        }
        let ghost old_self = *self;
        let pos = self.position(key);
        match pos {
            Some(i) => {
                let ghost pre = self.entries();
                let mut pairs: Vec<(String, V)> = Vec::new();
                core::mem::swap(&mut pairs, &mut self.pairs);
                pairs.remove(i);
                proof {
                    assert(pairs.deep_view() =~= pre.remove(i as int));
                    assert forall|a: int, b: int|
                        0 <= a < b < pairs.deep_view().len() implies (#[trigger] pairs.deep_view()[
                        a]).0 != (#[trigger] pairs.deep_view()[b]).0 by {
                        if b < i as int {
                            assert(pre[a].0 != pre[b].0);
                        } else if a < i as int {
                            assert(pre[a].0 != pre[b + 1].0);
                        } else {
                            assert(pre[a + 1].0 != pre[b + 1].0);
                        }
                    }
                }
                core::mem::swap(&mut pairs, &mut self.pairs);
                proof {
                    use_type_invariant(&*self);
                    assert(self.entries() =~= pre.remove(i as int));
                    let s = self.entries();
                    assert_maps_equal!(self@, old_self@.remove(key@), k => {
                        old_self.lemma_entry_in_view(i as int);
                        if k != key@ {
                            if entries_have_key(pre, k) {
                                let j = entry_index_of(pre, k);
                                old_self.lemma_entry_in_view(j);
                                let j2: int = if j < i as int {
                                    j
                                } else {
                                    j - 1
                                };
                                assert(s[j2].0 == k && s[j2].1 == pre[j].1);
                                self.lemma_entry_in_view(j2);
                            }
                            if entries_have_key(s, k) {
                                let j2 = entry_index_of(s, k);
                                self.lemma_entry_in_view(j2);
                                let j: int = if j2 < i as int {
                                    j2
                                } else {
                                    j2 + 1
                                };
                                assert(pre[j].0 == k);
                                old_self.lemma_entry_in_view(j);
                            }
                        } else {
                            if entries_have_key(s, k) {
                                let j2 = entry_index_of(s, k);
                                self.lemma_entry_in_view(j2);
                                let j: int = if j2 < i as int {
                                    j2
                                } else {
                                    j2 + 1
                                };
                                assert(pre[j].0 == k);
                                old_self.lemma_entry_in_view(j);
                            }
                        }
                    });
                }
            },
            None => {
                proof {
                    if old_self@.contains_key(key@) {
                        old_self.lemma_key_in_view(key@);
                    }
                    assert(self@ =~= old_self@.remove(key@));
                }
            },
        }
    }
}

impl StrMap<String> {
    /// The keys currently bound to the given value, without duplicates.
    pub fn keys_with_value(&self, value: &str) -> (r: Vec<String>)
        ensures
            forall|k: Seq<char>|
                r.deep_view().contains(k) <==> (self@.contains_key(k) && self@[k] == value@),
            forall|a: int, b: int|
                0 <= a < b < r.deep_view().len() ==> r.deep_view()[a] != r.deep_view()[b],
    {
        proof {
            use_type_invariant(&*self);
        }
        let n = self.pairs.len();
        proof {
            assert(self.entries().len() == self.pairs@.len());
        }
        let mut out: Vec<String> = Vec::new();
        let mut i: usize = 0;
        while i < n
            invariant
                i <= n,
                n == self.pairs@.len(),
                self.entries().len() == n,
                self.entries() == self.pairs.deep_view(),
                self.wf(),
                forall|k: Seq<char>|
                    out.deep_view().contains(k) <==> exists|j: int|
                        0 <= j < i && (#[trigger] self.entries()[j]).0 == k && self.entries()[j].1
                            == value@,
                forall|a: int, b: int|
                    0 <= a < b < out.deep_view().len() ==> out.deep_view()[a] != out.deep_view()[b],
                forall|a: int|
                    0 <= a < out.deep_view().len() ==> entries_have_key(
                        self.entries(),
                        #[trigger] out.deep_view()[a],
                    ),
            decreases n - i,
        {
            let p = &self.pairs[i];
            let ghost pre_out = out.deep_view();
            if str_eq(p.1.as_str(), value) {
                out.push(p.0.clone());
                proof {
                    assert(out.deep_view() =~= pre_out.push(self.entries()[i as int].0));
                    assert forall|k: Seq<char>| out.deep_view().contains(k) <==> (exists|j: int|
                        0 <= j < i + 1 && (#[trigger] self.entries()[j]).0 == k
                            && self.entries()[j].1 == value@) by {
                        if out.deep_view().contains(k) {
                            if pre_out.contains(k) {
                                let j = choose|j: int|
                                    0 <= j < i && (#[trigger] self.entries()[j]).0 == k
                                        && self.entries()[j].1 == value@;
                                assert(0 <= j < i + 1 && self.entries()[j].0 == k
                                    && self.entries()[j].1 == value@);
                            } else {
                                assert(k == self.entries()[i as int].0);
                                assert(self.entries()[i as int].0 == k && self.entries()[i as int].1
                                    == value@);
                            }
                        }
                        if exists|j: int|
                            0 <= j < i + 1 && (#[trigger] self.entries()[j]).0 == k
                                && self.entries()[j].1 == value@ {
                            let j = choose|j: int|
                                0 <= j < i + 1 && (#[trigger] self.entries()[j]).0 == k
                                    && self.entries()[j].1 == value@;
                            if j < i {
                                assert(pre_out.contains(k));
                                let a = choose|a: int| 0 <= a < pre_out.len() && pre_out[a] == k;
                                assert(out.deep_view()[a] == k);
                            } else {
                                assert(out.deep_view().last() == k);
                            }
                        }
                    }
                    assert forall|a: int, b: int|
                        0 <= a < b < out.deep_view().len() implies out.deep_view()[a]
                        != out.deep_view()[b] by {
                        if b == out.deep_view().len() - 1 {
                            let ka = out.deep_view()[a];
                            assert(pre_out.contains(ka));
                            let j = choose|j: int|
                                0 <= j < i && (#[trigger] self.entries()[j]).0 == ka
                                    && self.entries()[j].1 == value@;
                            assert(self.entries()[j].0 != self.entries()[i as int].0);
                        }
                    }
                }
            } else {
                proof {
                    assert(self.entries()[i as int].1 == p.1@);
                    assert forall|k: Seq<char>| out.deep_view().contains(k) <==> (exists|j: int|
                        0 <= j < i + 1 && (#[trigger] self.entries()[j]).0 == k
                            && self.entries()[j].1 == value@) by {
                        if exists|j: int|
                            0 <= j < i + 1 && (#[trigger] self.entries()[j]).0 == k
                                && self.entries()[j].1 == value@ {
                            let j = choose|j: int|
                                0 <= j < i + 1 && (#[trigger] self.entries()[j]).0 == k
                                    && self.entries()[j].1 == value@;
                            assert(j != i);
                        }
                    }
                }
            }
            i += 1;
        }
        proof {
            assert forall|k: Seq<char>| out.deep_view().contains(k) <==> (self@.contains_key(k)
                && self@[k] == value@) by {
                if out.deep_view().contains(k) {
                    let j = choose|j: int|
                        0 <= j < n && (#[trigger] self.entries()[j]).0 == k && self.entries()[j].1
                            == value@;
                    self.lemma_entry_in_view(j);
                }
                if self@.contains_key(k) && self@[k] == value@ {
                    self.lemma_key_in_view(k);
                    let j = entry_index_of(self.entries(), k);
                    assert(0 <= j < n && self.entries()[j].0 == k && self.entries()[j].1 == value@);
                }
            }
        }
        out
    }
}

/// Whether some entry of `s` carries the numeric key `k`.
pub open spec fn num_entries_have_key<VV>(s: Seq<(i64, VV)>, k: i64) -> bool {
    exists|i: int| 0 <= i < s.len() && (#[trigger] s[i]).0 == k
}

/// An index of `s` whose entry carries the numeric key `k`.
pub open spec fn num_entry_index_of<VV>(s: Seq<(i64, VV)>, k: i64) -> int {
    choose|i: int| 0 <= i < s.len() && (#[trigger] s[i]).0 == k
}

/// A map from numeric keys to values, stored as a vector of pairs with
/// pairwise-distinct keys.
pub struct I64Map<V: DeepView> {
    pairs: Vec<(i64, V)>,
}

impl<V: DeepView> View for I64Map<V> {
    type V = Map<i64, V::V>;

    closed spec fn view(&self) -> Map<i64, V::V> {
        Map::new(
            |k: i64| num_entries_have_key(self.entries(), k),
            |k: i64| self.entries()[num_entry_index_of(self.entries(), k)].1,
        )
    }
}

impl<V: DeepView> I64Map<V> {
    /// The stored entries, values abstracted, in storage order.
    pub closed spec fn entries(self) -> Seq<(i64, V::V)> {
        self.pairs.deep_view()
    }

    #[verifier::type_invariant]
    spec fn wf(self) -> bool {
        forall|i: int, j: int|
            0 <= i < j < self.entries().len() ==> (#[trigger] self.entries()[i]).0 != (
            #[trigger] self.entries()[j]).0
    }

    proof fn lemma_entry_in_view(self, i: int)
        requires
            self.wf(),
            0 <= i < self.entries().len(),
        ensures
            self@.contains_key(self.entries()[i].0),
            self@[self.entries()[i].0] == self.entries()[i].1,
            num_entry_index_of(self.entries(), self.entries()[i].0) == i,
    {
        let s = self.entries();
        let k = s[i].0;
        assert(num_entries_have_key(s, k));
        let j = num_entry_index_of(s, k);
        assert(0 <= j < s.len() && s[j].0 == k);
        if i != j {
            if i < j {
                assert(s[i].0 != s[j].0);
            } else {
                assert(s[j].0 != s[i].0);
            }
        }
        assert(self@.dom() =~= Set::new(|k: i64| num_entries_have_key(s, k)));
    }

    proof fn lemma_key_in_view(self, k: i64)
        requires
            self.wf(),
            self@.contains_key(k),
        ensures
            num_entries_have_key(self.entries(), k),
            0 <= num_entry_index_of(self.entries(), k) < self.entries().len(),
            self.entries()[num_entry_index_of(self.entries(), k)].0 == k,
            self@[k] == self.entries()[num_entry_index_of(self.entries(), k)].1,
    {
        let s = self.entries();
        assert(self@.dom() =~= Set::new(|k: i64| num_entries_have_key(s, k)));
        assert(num_entries_have_key(s, k));
        let j = num_entry_index_of(s, k);
        assert(0 <= j < s.len() && s[j].0 == k);
        self.lemma_entry_in_view(j);
    }

    /// An empty map.
    pub fn new() -> (r: Self)
        ensures
            r@ == Map::<i64, V::V>::empty(),
    {
        let r = I64Map { pairs: Vec::new() };
        proof {
            assert(r@ =~= Map::<i64, V::V>::empty());
        }
        r
    }

    fn position(&self, key: i64) -> (r: Option<usize>)
        ensures
            match r {
                Some(i) => i < self.entries().len() && self.entries()[i as int].0 == key,
                None => !num_entries_have_key(self.entries(), key),
            },
    {
        let n = self.pairs.len();
        proof {
            assert(self.entries().len() == self.pairs@.len());
        }
        let mut i: usize = 0;
        while i < n
            invariant
                i <= n,
                n == self.pairs@.len(),
                self.entries().len() == n,
                self.entries() == self.pairs.deep_view(),
                forall|j: int| 0 <= j < i ==> (#[trigger] self.entries()[j]).0 != key,
            decreases n - i,
        {
            let p = &self.pairs[i];
            if p.0 == key {
                proof {
                    assert(self.entries()[i as int].0 == key);
                }
                return Some(i);
            }
            i += 1;
        }
        None
    }

    /// Whether the map holds the key.
    pub fn contains_key(&self, key: i64) -> (r: bool)
        ensures
            r == self@.contains_key(key),
    {
        proof {
            use_type_invariant(&*self);
        }
        let pos = self.position(key);
        proof {
            match pos {
                Some(i) => self.lemma_entry_in_view(i as int),
                None => {
                    if self@.contains_key(key) {
                        self.lemma_key_in_view(key);
                    }
                },
            }
        }
        pos.is_some()
    }

    /// The value stored under the key, if any.
    pub fn get(&self, key: i64) -> (r: Option<&V>)
        ensures
            match r {
                Some(v) => self@.contains_key(key) && v.deep_view() == self@[key],
                None => !self@.contains_key(key),
            },
    {
        proof {
            use_type_invariant(&*self);
        }
        let pos = self.position(key);
        match pos {
            Some(i) => {
                proof {
                    self.lemma_entry_in_view(i as int);
                }
                let p = &self.pairs[i];
                proof {
                    assert(p.1.deep_view() == self.entries()[i as int].1);
                }
                Some(&p.1)
            },
            None => {
                proof {
                    if self@.contains_key(key) {
                        self.lemma_key_in_view(key);
                    }
                }
                None
            },
        }
    }

    /// Binds the key to the value, replacing any previous binding.
    pub fn insert(&mut self, key: i64, value: V)
        ensures
            final(self)@ == old(self)@.insert(key, value.deep_view()),
    {
        proof {
            use_type_invariant(&*self);
        }
        let ghost old_self = *self;
        let pos = self.position(key);
        let mut pairs: Vec<(i64, V)> = Vec::new();
        core::mem::swap(&mut pairs, &mut self.pairs);
        let ghost pre = old_self.entries();
        if let Some(i) = pos {
            pairs.remove(i);
            proof {
                assert(pairs.deep_view() =~= pre.remove(i as int));
            }
        }
        let ghost mid = pairs.deep_view();
        pairs.push((key, value));
        proof {
            let s = pairs.deep_view();
            let n = s.len();
            assert(s =~= mid.push((key, value.deep_view())));
            // no earlier entry still carries the key
            assert forall|j: int| 0 <= j < n - 1 implies (#[trigger] s[j]).0 != key by {
                if let Some(i) = pos {
                    if j < i as int {
                        assert(pre[j].0 != pre[i as int].0);
                    } else {
                        assert(pre[j + 1].0 != pre[i as int].0);
                    }
                } else {
                    assert(pre[j].0 != key);
                }
            }
            // the keys stay pairwise distinct
            assert forall|a: int, b: int|
                0 <= a < b < n implies (#[trigger] s[a]).0 != (#[trigger] s[b]).0 by {
                if b == n - 1 {
                    assert(s[a].0 != key);
                } else {
                    if let Some(i) = pos {
                        if b < i as int {
                            assert(pre[a].0 != pre[b].0);
                        } else if a < i as int {
                            assert(pre[a].0 != pre[b + 1].0);
                        } else {
                            assert(pre[a + 1].0 != pre[b + 1].0);
                        }
                    } else {
                        assert(pre[a].0 != pre[b].0);
                    }
                }
            }
        }
        core::mem::swap(&mut pairs, &mut self.pairs);
        proof {
            use_type_invariant(&*self);
            let s = self.entries();
            let n = s.len();
            assert(s =~= mid.push((key, value.deep_view())));
            assert_maps_equal!(self@, old_self@.insert(key, value.deep_view()), k: i64 => {
                if k == key {
                    self.lemma_entry_in_view(n - 1);
                } else {
                    if num_entries_have_key(old_self.entries(), k) {
                        let j = num_entry_index_of(old_self.entries(), k);
                        old_self.lemma_entry_in_view(j);
                        let j2 = match pos {
                            Some(i) => if j < i as int {
                                j
                            } else {
                                j - 1
                            },
                            None => j,
                        };
                        assert(s[j2].0 == k && s[j2].1 == old_self.entries()[j].1);
                        self.lemma_entry_in_view(j2);
                    }
                    if num_entries_have_key(s, k) {
                        let j2 = num_entry_index_of(s, k);
                        self.lemma_entry_in_view(j2);
                        let j = match pos {
                            Some(i) => if j2 < i as int {
                                j2
                            } else {
                                j2 + 1
                            },
                            None => j2,
                        };
                        assert(old_self.entries()[j].0 == k);
                        old_self.lemma_entry_in_view(j);
                    }
                }
            });
        }
    }

    /// Drops the key's binding, if any.
    pub fn remove(&mut self, key: i64)
        ensures
            final(self)@ == old(self)@.remove(key),
    {
        proof {
            use_type_invariant(&*self);
        }
        let ghost old_self = *self;
        let pos = self.position(key);
        match pos {
            Some(i) => {
                let ghost pre = self.entries();
                let mut pairs: Vec<(i64, V)> = Vec::new();
                core::mem::swap(&mut pairs, &mut self.pairs);
                pairs.remove(i);
                proof {
                    assert(pairs.deep_view() =~= pre.remove(i as int));
                    assert forall|a: int, b: int|
                        0 <= a < b < pairs.deep_view().len() implies (#[trigger] pairs.deep_view()[
                        a]).0 != (#[trigger] pairs.deep_view()[b]).0 by {
                        if b < i as int {
                            assert(pre[a].0 != pre[b].0);
                        } else if a < i as int {
                            assert(pre[a].0 != pre[b + 1].0);
                        } else {
                            assert(pre[a + 1].0 != pre[b + 1].0);
                        }
                    }
                }
                core::mem::swap(&mut pairs, &mut self.pairs);
                proof {
                    use_type_invariant(&*self);
                    assert(self.entries() =~= pre.remove(i as int));
                    let s = self.entries();
                    assert_maps_equal!(self@, old_self@.remove(key), k: i64 => {
                        old_self.lemma_entry_in_view(i as int);
                        if num_entries_have_key(pre, k) && k != key {
                            let j = num_entry_index_of(pre, k);
                            old_self.lemma_entry_in_view(j);
                            let j2: int = if j < i as int {
                                j
                            } else {
                                j - 1
                            };
                            assert(s[j2].0 == k && s[j2].1 == pre[j].1);
                            self.lemma_entry_in_view(j2);
                        }
                        if num_entries_have_key(s, k) {
                            let j2 = num_entry_index_of(s, k);
                            self.lemma_entry_in_view(j2);
                            let j: int = if j2 < i as int {
                                j2
                            } else {
                                j2 + 1
                            };
                            assert(pre[j].0 == k);
                            old_self.lemma_entry_in_view(j);
                        }
                    });
                }
            },
            None => {
                proof {
                    if old_self@.contains_key(key) {
                        old_self.lemma_key_in_view(key);
                    }
                    assert(self@ =~= old_self@.remove(key));
                }
            },
        }
    }

    /// All keys currently bound, without duplicates, in storage order.
    pub fn keys(&self) -> (r: Vec<i64>)
        ensures
            forall|k: i64| r@.contains(k) <==> self@.contains_key(k),
            forall|a: int, b: int| 0 <= a < b < r@.len() ==> r@[a] != r@[b],
    {
        proof {
            use_type_invariant(&*self);
        }
        let n = self.pairs.len();
        proof {
            assert(self.entries().len() == self.pairs@.len());
        }
        let mut out: Vec<i64> = Vec::new();
        let mut i: usize = 0;
        while i < n
            invariant
                i <= n,
                n == self.pairs@.len(),
                self.entries().len() == n,
                self.entries() == self.pairs.deep_view(),
                out@.len() == i,
                forall|j: int| 0 <= j < i ==> out@[j] == (#[trigger] self.entries()[j]).0,
            decreases n - i,
        {
            let p = &self.pairs[i];
            out.push(p.0);
            proof {
                assert(self.entries()[i as int].0 == p.0);
            }
            i += 1;
        }
        proof {
            assert forall|k: i64| out@.contains(k) <==> self@.contains_key(k) by {
                if out@.contains(k) {
                    let j = choose|j: int| 0 <= j < out@.len() && out@[j] == k;
                    self.lemma_entry_in_view(j);
                }
                if self@.contains_key(k) {
                    self.lemma_key_in_view(k);
                    let j = num_entry_index_of(self.entries(), k);
                    assert(out@[j] == k);
                }
            }
            assert forall|a: int, b: int| 0 <= a < b < out@.len() implies out@[a] != out@[b] by {
                assert(self.entries()[a].0 != self.entries()[b].0);
            }
        }
        out
    }
}

} // verus!
