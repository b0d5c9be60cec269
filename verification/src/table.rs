use vstd::prelude::*;

verus! {

/// A keyed store of records, keyed by text identifiers (payment ids, addresses, …).
///
/// Its view is the finite map from the text of each key to its record.
pub struct Table<V> {
    keys: Vec<String>,
    vals: Vec<V>,
    contents: Ghost<Map<Seq<char>, V>>,
}

impl<V> Table<V> {
    /// The stored records, by the text of their key.
    pub closed spec fn view(&self) -> Map<Seq<char>, V> {
        self.contents@
    }

    /// The internal layout agrees with the view and keys are unique.
    pub closed spec fn wf(&self) -> bool {
        &&& self.keys.len() == self.vals.len()
        &&& forall|i: int, j: int|
            0 <= i < j < self.keys.len() ==> self.keys@[i]@ != self.keys@[j]@
        &&& forall|i: int|
            0 <= i < self.keys.len() ==> #[trigger] self.contents@.contains_key(self.keys@[i]@)
                && self.contents@[self.keys@[i]@] == self.vals@[i]
        &&& forall|k: Seq<char>|
            #[trigger] self.contents@.contains_key(k) ==> exists|i: int|
                0 <= i < self.keys.len() && self.keys@[i]@ == k
    }

    /// An empty table.
    pub fn new() -> (t: Self)
        ensures
            t.wf(),
            t@ == Map::<Seq<char>, V>::empty(),
    {
        Table { keys: Vec::new(), vals: Vec::new(), contents: Ghost(Map::empty()) }
    }

    fn find(&self, k: &String) -> (r: Option<usize>)
        requires
            self.wf(),
        ensures
            match r {
                Some(i) => i < self.keys.len() && self.keys@[i as int]@ == k@
                    && self@.contains_key(k@) && self@[k@] == self.vals@[i as int],
                None => !self@.contains_key(k@),
            },
    {
        let mut i: usize = 0;
        while i < self.keys.len()
            invariant
                self.wf(),
                i <= self.keys.len(),
                forall|j: int| 0 <= j < i ==> self.keys@[j]@ != k@,
            decreases self.keys.len() - i,
        {
            if self.keys[i] == *k {
                assert(self.contents@.contains_key(self.keys@[i as int]@));
                return Some(i);
            }
            i = i + 1;
        }
        None
    }

    /// Whether a record is stored under `k`.
    pub fn contains(&self, k: &String) -> (r: bool)
        requires
            self.wf(),
        ensures
            r == self@.contains_key(k@),
    {
        self.find(k).is_some()
    }

    /// The record stored under `k`, if any.
    pub fn get(&self, k: &String) -> (r: Option<&V>)
        requires
            self.wf(),
        ensures
            match r {
                Some(v) => self@.contains_key(k@) && *v == self@[k@],
                None => !self@.contains_key(k@),
            },
    {
        match self.find(k) {
            Some(i) => Some(&self.vals[i]),
            None => None,
        }
    }

    /// Stores `v` under `k`, replacing any record already there.
    pub fn set(&mut self, k: String, v: V)
        requires
            old(self).wf(),
        ensures
            final(self).wf(),
            final(self)@ == old(self)@.insert(k@, v),
    {
        let ghost kv = k@;
        match self.find(&k) {
            Some(i) => {
                let ghost v_ghost = v;
                self.vals.set(i, v);
                self.contents = Ghost(self.contents@.insert(kv, v_ghost));
                assert forall|k2: Seq<char>| #[trigger] self.contents@.contains_key(k2) implies exists|j: int|
                    0 <= j < self.keys.len() && self.keys@[j]@ == k2 by {
                    if k2 != kv {
                        assert(old(self).contents@.contains_key(k2));
                        let j = choose|j: int| 0 <= j < old(self).keys.len() && old(self).keys@[j]@ == k2;
                        assert(self.keys@[j]@ == k2);
                    } else {
                        assert(self.keys@[i as int]@ == k2);
                    }
                }
            },
            None => {
                let ghost v_ghost = v;
                self.keys.push(k);
                self.vals.push(v);
                self.contents = Ghost(self.contents@.insert(kv, v_ghost));
                assert forall|k2: Seq<char>| #[trigger] self.contents@.contains_key(k2) implies exists|j: int|
                    0 <= j < self.keys.len() && self.keys@[j]@ == k2 by {
                    if k2 != kv {
                        assert(old(self).contents@.contains_key(k2));
                        let j = choose|j: int| 0 <= j < old(self).keys.len() && old(self).keys@[j]@ == k2;
                        assert(self.keys@[j]@ == k2);
                    } else {
                        assert(self.keys@[self.keys.len() - 1]@ == kv);
                    }
                }
            },
        }
    }

    /// Removes and returns the record stored under `k`, if any.
    pub fn take(&mut self, k: &String) -> (r: Option<V>)
        requires
            old(self).wf(),
        ensures
            final(self).wf(),
            final(self)@ == old(self)@.remove(k@),
            match r {
                Some(v) => old(self)@.contains_key(k@) && v == old(self)@[k@],
                None => !old(self)@.contains_key(k@),
            },
    {
        match self.find(k) {
            Some(i) => {
                let ghost n = self.keys.len();
                let ghost okeys = self.keys@;
                let ghost ovals = self.vals@;
                let _ = self.keys.swap_remove(i);
                let v = self.vals.swap_remove(i);
                self.contents = Ghost(self.contents@.remove(k@));
                assert forall|a: int, b: int| 0 <= a < b < self.keys.len() implies self.keys@[a]@
                    != self.keys@[b]@ by {
                    let oa = if a == i { n - 1 } else { a };
                    let ob = if b == i { n - 1 } else { b };
                    assert(self.keys@[a] == okeys[oa]);
                    assert(self.keys@[b] == okeys[ob]);
                }
                assert forall|j: int| 0 <= j < self.keys.len() implies #[trigger] self.contents@.contains_key(
                    self.keys@[j]@,
                ) && self.contents@[self.keys@[j]@] == self.vals@[j] by {
                    let oj = if j == i { n - 1 } else { j };
                    assert(self.keys@[j] == okeys[oj]);
                    assert(self.vals@[j] == ovals[oj]);
                    assert(oj != i);
                    if oj < i {
                        assert(okeys[oj]@ != okeys[i as int]@);
                    } else {
                        assert(okeys[i as int]@ != okeys[oj]@);
                    }
                    assert(old(self).contents@.contains_key(okeys[oj]@));
                }
                assert forall|k2: Seq<char>| #[trigger] self.contents@.contains_key(k2) implies exists|j: int|
                    0 <= j < self.keys.len() && self.keys@[j]@ == k2 by {
                    assert(old(self).contents@.contains_key(k2));
                    let j = choose|j: int| 0 <= j < n && okeys[j]@ == k2;
                    assert(j != i);
                    if j == n - 1 {
                        assert(self.keys@[i as int] == okeys[j]);
                    } else {
                        assert(self.keys@[j] == okeys[j]);
                    }
                }
                Some(v)
            },
            None => {
                assert(self.contents@.remove(k@) =~= self.contents@);
                None
            },
        }
    }
}

} // verus!
