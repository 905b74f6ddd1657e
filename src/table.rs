//! A small map from names to values, kept as two parallel vectors.
use vstd::prelude::*;
use crate::text::str_eq;

verus! {

/// Entries keyed by distinct names, in the order they were first inserted.
pub struct Table<V: DeepView> {
    pub names: Vec<String>,
    pub values: Vec<V>,
    pub contents: Ghost<Map<Seq<char>, V::V>>,
}

impl<V: DeepView> Table<V> {
    /// Names are distinct and the ghost map holds exactly the entries.
    pub open spec fn wf(&self) -> bool {
        &&& self.names@.len() == self.values@.len()
        &&& forall|i: int, j: int|
            0 <= i < j < self.names@.len() ==> #[trigger] self.names@[i]@ != #[trigger] self.names@[j]@
        &&& forall|i: int|
            0 <= i < self.names@.len() ==> self.contents@.contains_key(#[trigger] self.names@[i]@)
                && self.contents@[self.names@[i]@] == self.values@[i].deep_view()
        &&& forall|k: Seq<char>|
            #[trigger] self.contents@.contains_key(k) ==> exists|i: int|
                0 <= i < self.names@.len() && #[trigger] self.names@[i]@ == k
    }

    pub open spec fn view(&self) -> Map<Seq<char>, V::V> {
        self.contents@
    }

    pub fn new() -> (r: Self)
        ensures
            r.wf(),
            r.view() == Map::<Seq<char>, V::V>::empty(),
    {
        Table { names: Vec::new(), values: Vec::new(), contents: Ghost(Map::empty()) }
    }

    pub fn len(&self) -> (r: usize)
        requires
            self.wf(),
        ensures
            r == self.names@.len(),
            r == self.view().len(),
    {
        proof {
            self.lemma_dom_len();
        }
        self.names.len()
    }

    proof fn lemma_dom_len(&self)
        requires
            self.wf(),
        ensures
            self.view().dom().finite(),
            self.view().len() == self.names@.len(),
    {
        let ks = self.names@.map_values(|s: String| s@);
        assert(ks.no_duplicates()) by {
            assert forall|i: int, j: int| 0 <= i < ks.len() && 0 <= j < ks.len() && i != j
                implies ks[i] != ks[j] by {
                if i < j {
                    assert(self.names@[i]@ != self.names@[j]@);
                } else {
                    assert(self.names@[j]@ != self.names@[i]@);
                }
            }
        }
        assert(self.view().dom() =~= ks.to_set()) by {
            assert forall|k: Seq<char>| self.view().dom().contains(k) implies ks.to_set().contains(k) by {
                let i = choose|i: int| 0 <= i < self.names@.len() && #[trigger] self.names@[i]@ == k;
                assert(ks[i] == k);
            }
            assert forall|k: Seq<char>| ks.to_set().contains(k) implies self.view().dom().contains(k) by {
                let i = choose|i: int| 0 <= i < ks.len() && ks[i] == k;
                assert(self.names@[i]@ == k);
            }
        }
        ks.unique_seq_to_set();
    }

    /// The position of a name, if it is present.
    pub fn find(&self, name: &str) -> (r: Option<usize>)
        requires
            self.wf(),
        ensures
            match r {
                Some(i) => i < self.names@.len() && self.names@[i as int]@ == name@,
                None => !self.view().contains_key(name@),
            },
    {
        let mut i: usize = 0;
        while i < self.names.len()
            invariant
                self.wf(),
                i <= self.names@.len(),
                forall|j: int| 0 <= j < i ==> self.names@[j]@ != name@,
            decreases self.names@.len() - i,
        {
            if str_eq(self.names[i].as_str(), name) {
                return Some(i);
            }
            i = i + 1;
        }
        None
    }

    /// The value stored under a name.
    pub fn get(&self, name: &str) -> (r: Option<&V>)
        requires
            self.wf(),
        ensures
            match r {
                Some(v) => self.view().contains_key(name@) && v.deep_view() == self.view()[name@],
                None => !self.view().contains_key(name@),
            },
    {
        match self.find(name) {
            Some(i) => Some(&self.values[i]),
            None => None,
        }
    }

    /// Stores a value under a name, replacing what was there.
    pub fn insert(&mut self, name: String, value: V)
        requires
            old(self).wf(),
        ensures
            final(self).wf(),
            final(self).view() == old(self).view().insert(name@, value.deep_view()),
    {
        let ghost k = name@;
        let ghost dv = value.deep_view();
        match self.find(name.as_str()) {
            Some(i) => {
                self.values.set(i, value);
                proof {
                    self.contents@ = self.contents@.insert(k, dv);
                    assert forall|kk: Seq<char>| #[trigger] self.contents@.contains_key(kk) implies exists|j: int|
                        0 <= j < self.names@.len() && #[trigger] self.names@[j]@ == kk by {
                        if kk == k {
                            assert(self.names@[i as int]@ == kk);
                        } else {
                            assert(old(self).contents@.contains_key(kk));
                            let j = choose|j: int| 0 <= j < old(self).names@.len() && #[trigger] old(self).names@[j]@ == kk;
                            assert(self.names@[j]@ == kk);
                        }
                    }
                }
            },
            None => {
                self.names.push(name);
                self.values.push(value);
                proof {
                    self.contents@ = self.contents@.insert(k, dv);
                    let n = self.names@.len() - 1;
                    assert(self.names@[n]@ == k);
                    assert forall|kk: Seq<char>| #[trigger] self.contents@.contains_key(kk) implies exists|j: int|
                        0 <= j < self.names@.len() && #[trigger] self.names@[j]@ == kk by {
                        if kk == k {
                            assert(self.names@[n]@ == kk);
                        } else {
                            assert(old(self).contents@.contains_key(kk));
                            let j = choose|j: int| 0 <= j < old(self).names@.len() && #[trigger] old(self).names@[j]@ == kk;
                            assert(self.names@[j]@ == kk);
                        }
                    }
                    assert forall|a: int, b: int| 0 <= a < b < self.names@.len() implies
                        #[trigger] self.names@[a]@ != #[trigger] self.names@[b]@ by {
                        if b == n {
                            assert(old(self).contents@.contains_key(old(self).names@[a]@));
                        }
                    }
                }
            },
        }
        assert(self.contents@ == old(self).view().insert(k, dv));
    }

    /// Drops the entry of a name, if there is one.
    pub fn remove(&mut self, name: &str)
        requires
            old(self).wf(),
        ensures
            final(self).wf(),
            final(self).view() == old(self).view().remove(name@),
    {
        match self.find(name) {
            Some(i) => {
                self.names.remove(i);
                self.values.remove(i);
                proof {
                    let k = name@;
                    self.contents@ = self.contents@.remove(k);
                    assert forall|a: int, b: int| 0 <= a < b < self.names@.len() implies
                        #[trigger] self.names@[a]@ != #[trigger] self.names@[b]@ by {
                        let oa = if a < i { a } else { a + 1 };
                        let ob = if b < i { b } else { b + 1 };
                        assert(self.names@[a] == old(self).names@[oa]);
                        assert(self.names@[b] == old(self).names@[ob]);
                    }
                    assert forall|j: int| 0 <= j < self.names@.len() implies self.contents@.contains_key(
                        #[trigger] self.names@[j]@,
                    ) && self.contents@[self.names@[j]@] == self.values@[j].deep_view() by {
                        let oj = if j < i { j } else { j + 1 };
                        assert(self.names@[j] == old(self).names@[oj]);
                        assert(self.values@[j] == old(self).values@[oj]);
                        assert(old(self).names@[oj]@ != old(self).names@[i as int]@);
                    }
                    assert forall|kk: Seq<char>| #[trigger] self.contents@.contains_key(kk) implies exists|j: int|
                        0 <= j < self.names@.len() && #[trigger] self.names@[j]@ == kk by {
                        let oj = choose|j: int| 0 <= j < old(self).names@.len() && #[trigger] old(self).names@[j]@ == kk;
                        let j = if oj < i { oj } else { oj - 1 };
                        assert(oj != i);
                        assert(self.names@[j] == old(self).names@[oj]);
                    }
                }
            },
            None => {
                assert(self.contents@ =~= old(self).view().remove(name@));
            },
        }
    }
}

} // verus!
