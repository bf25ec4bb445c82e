//! A map keyed by text, kept as two parallel vectors of distinct keys and
//! their values. Its view is a `Map` from the characters of a key to the value.
use vstd::prelude::*;

verus! {

/// A map from `String` keys to values of type `V`.
pub struct TextMap<V> {
    keys: Vec<String>,
    vals: Vec<V>,
}

impl<V> View for TextMap<V> {
    type V = Map<Seq<char>, V>;

    /// The map from each key to its value.
    closed spec fn view(&self) -> Map<Seq<char>, V> {
        Map::new(|k: Seq<char>| self.has(k), |k: Seq<char>| self.vals@[self.slot(k)])
    }
}

impl<V> TextMap<V> {
    /// The keys and values line up one for one and no key occurs twice.
    pub closed spec fn wf(&self) -> bool {
        &&& self.keys.len() == self.vals.len()
        &&& forall|i: int, j: int|
            0 <= i < self.keys.len() && 0 <= j < self.keys.len() && i != j ==> #[trigger] self.keys@[i]@
                != #[trigger] self.keys@[j]@
    }

    /// Whether some slot holds the key `k`.
    closed spec fn has(&self, k: Seq<char>) -> bool {
        exists|i: int| 0 <= i < self.keys.len() && #[trigger] self.keys@[i]@ == k
    }

    /// The slot that holds the key `k`.
    closed spec fn slot(&self, k: Seq<char>) -> int {
        choose|i: int| 0 <= i < self.keys.len() && #[trigger] self.keys@[i]@ == k
    }

    proof fn lemma_slot(&self, i: int)
        requires
            self.wf(),
            0 <= i < self.keys.len(),
        ensures
            self.has(self.keys@[i]@),
            self.slot(self.keys@[i]@) == i,
            self@.dom().contains(self.keys@[i]@),
            self@[self.keys@[i]@] == self.vals@[i],
    {
        let k = self.keys@[i]@;
        assert(self.has(k));
        let j = self.slot(k);
        assert(self.keys@[j]@ == k);
    }

    /// An empty map.
    pub fn new() -> (m: Self)
        ensures
            m.wf(),
            m@ == Map::<Seq<char>, V>::empty(),
    {
        let m = TextMap { keys: Vec::new(), vals: Vec::new() };
        assert(m@ =~= Map::<Seq<char>, V>::empty());
        m
    }

    /// The slot that holds `k`, if any.
    fn find(&self, k: &String) -> (r: Option<usize>)
        requires
            self.wf(),
        ensures
            r is None <==> !self@.dom().contains(k@),
            r matches Some(i) ==> {
                &&& i < self.keys.len()
                &&& self.keys@[i as int]@ == k@
                &&& self.slot(k@) == i
            },
    {
        let n = self.keys.len();
        let mut i: usize = 0;
        while i < n
            invariant
                self.wf(),
                n == self.keys.len(),
                0 <= i <= n,
                forall|j: int| 0 <= j < i ==> #[trigger] self.keys@[j]@ != k@,
            decreases n - i,
        {
            if self.keys[i] == *k {
                proof {
                    self.lemma_slot(i as int);
                }
                return Some(i);
            }
            i = i + 1;
        }
        None
    }

    /// Whether the map holds the key `k`.
    pub fn contains_key(&self, k: &String) -> (b: bool)
        requires
            self.wf(),
        ensures
            b == self@.dom().contains(k@),
    {
        self.find(k).is_some()
    }

    /// The value under `k`, if any.
    pub fn get(&self, k: &String) -> (r: Option<&V>)
        requires
            self.wf(),
        ensures
            r is None <==> !self@.dom().contains(k@),
            r matches Some(v) ==> *v == self@[k@],
    {
        match self.find(k) {
            Some(i) => Some(&self.vals[i]),
            None => None,
        }
    }

    /// Puts `v` under `k`, replacing any earlier value.
    pub fn insert(&mut self, k: String, v: V)
        requires
            old(self).wf(),
        ensures
            final(self).wf(),
            final(self)@ == old(self)@.insert(k@, v),
    {
        let ghost old_map = self@;
        match self.find(&k) {
            Some(i) => {
                self.vals.set(i, v);
                proof {
                    assert forall|kk: Seq<char>| #![auto]
                        self@.dom().contains(kk) <==> old_map.insert(k@, v).dom().contains(kk) by {
                        if old_map.dom().contains(kk) {
                            let j = old(self).slot(kk);
                            assert(self.keys@[j]@ == kk);
                        }
                        if self.has(kk) {
                            let j = self.slot(kk);
                            assert(old(self).keys@[j]@ == kk);
                        }
                    }
                    assert forall|kk: Seq<char>| #![auto] self@.dom().contains(kk) implies self@[kk]
                        == old_map.insert(k@, v)[kk] by {
                        let j = self.slot(kk);
                        self.lemma_slot(j);
                        old(self).lemma_slot(j);
                    }
                    assert(self@ =~= old_map.insert(k@, v));
                }
            },
            None => {
                let ghost n = self.keys.len() as int;
                self.keys.push(k);
                self.vals.push(v);
                proof {
                    assert forall|kk: Seq<char>| #![auto]
                        self@.dom().contains(kk) <==> old_map.insert(self.keys@[n]@, v).dom().contains(kk) by {
                        if old_map.dom().contains(kk) {
                            let j = old(self).slot(kk);
                            assert(self.keys@[j]@ == kk);
                        }
                        if self.has(kk) {
                            let j = self.slot(kk);
                            if j < n {
                                assert(old(self).keys@[j]@ == kk);
                            }
                        }
                    }
                    assert forall|kk: Seq<char>| #![auto] self@.dom().contains(kk) implies self@[kk]
                        == old_map.insert(self.keys@[n]@, v)[kk] by {
                        let j = self.slot(kk);
                        self.lemma_slot(j);
                        if j < n {
                            old(self).lemma_slot(j);
                        }
                    }
                    assert(self@ =~= old_map.insert(self.keys@[n]@, v));
                }
            },
        }
    }

    /// Removes the entry under `k` and hands its value back, if there is one.
    pub fn take(&mut self, k: &String) -> (r: Option<V>)
        requires
            old(self).wf(),
        ensures
            final(self).wf(),
            final(self)@ == old(self)@.remove(k@),
            r is None <==> !old(self)@.dom().contains(k@),
            r matches Some(v) ==> v == old(self)@[k@],
    {
        let ghost old_map = self@;
        match self.find(k) {
            Some(i) => {
                proof {
                    self.lemma_slot(i as int);
                }
                let ghost last = self.keys.len() - 1;
                let ghost moved = self.keys@[last]@;
                let _ = self.keys.swap_remove(i);
                let v = self.vals.swap_remove(i);
                proof {
                    assert forall|kk: Seq<char>| #![auto]
                        self@.dom().contains(kk) <==> old_map.remove(k@).dom().contains(kk) by {
                        if old_map.dom().contains(kk) && kk != k@ {
                            let j = old(self).slot(kk);
                            if j == last {
                                assert(self.keys@[i as int]@ == kk);
                            } else {
                                assert(self.keys@[j]@ == kk);
                            }
                        }
                        if self.has(kk) {
                            let j = self.slot(kk);
                            if j == i {
                                assert(old(self).keys@[last]@ == kk);
                            } else {
                                assert(old(self).keys@[j]@ == kk);
                            }
                        }
                    }
                    assert forall|kk: Seq<char>| #![auto] self@.dom().contains(kk) implies self@[kk]
                        == old_map.remove(k@)[kk] by {
                        let j = self.slot(kk);
                        self.lemma_slot(j);
                        if j == i {
                            old(self).lemma_slot(last);
                        } else {
                            old(self).lemma_slot(j);
                        }
                    }
                    assert(self@ =~= old_map.remove(k@));
                }
                Some(v)
            },
            None => {
                assert(old_map.remove(k@) =~= old_map);
                None
            },
        }
    }
}

} // verus!
