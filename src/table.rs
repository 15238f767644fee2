use vstd::prelude::*;
use crate::dedup::{has_key, Keyed};

verus! {

/// Rows of one kind with pairwise distinct natural keys; viewed as a map from key to row.
pub struct KeyedTable<T: Keyed> {
    rows: Vec<T>,
    contents: Ghost<Map<T::Key, T>>,
}

/// `rows` hold distinct keys and are exactly the entries of `m`.
pub open spec fn rows_represent<T: Keyed>(rows: Seq<T>, m: Map<T::Key, T>) -> bool {
    &&& forall|i: int, j: int| 0 <= i < j < rows.len() ==> rows[i].key() != rows[j].key()
    &&& forall|i: int|
        0 <= i < rows.len() ==> #[trigger] m.contains_key(rows[i].key()) && m[rows[i].key()]
            == rows[i]
    &&& forall|k: T::Key| #[trigger]
        m.contains_key(k) ==> exists|i: int| 0 <= i < rows.len() && rows[i].key() == k
}

impl<T: Keyed> View for KeyedTable<T> {
    type V = Map<T::Key, T>;

    closed spec fn view(&self) -> Map<T::Key, T> {
        self.contents@
    }
}

impl<T: Keyed> KeyedTable<T> {
    #[verifier::type_invariant]
    spec fn inv(self) -> bool {
        rows_represent(self.rows@, self.contents@)
    }

    pub fn new() -> (r: Self)
        ensures
            r@ == Map::<T::Key, T>::empty(),
    {
        KeyedTable { rows: Vec::new(), contents: Ghost(Map::empty()) }
    }

    /// The rows, in the order in which their keys first entered the table.
    pub fn rows(&self) -> (r: &Vec<T>)
        ensures
            rows_represent(r@, self@),
            r@.len() == self@.dom().len(),
    {
        proof {
            use_type_invariant(self);
            let ks = self.rows@.map_values(|t: T| t.key());
            assert(ks.no_duplicates()) by {
                assert forall|i: int, j: int| 0 <= i < ks.len() && 0 <= j < ks.len() && i != j implies ks[i] != ks[j] by {
                    if i < j {
                        assert(self.rows@[i].key() != self.rows@[j].key());
                    } else {
                        assert(self.rows@[j].key() != self.rows@[i].key());
                    }
                }
            }
            ks.unique_seq_to_set();
            assert forall|k: T::Key| #[trigger] self@.dom().contains(k) implies ks.to_set().contains(k) by {
                let i = choose|i: int| 0 <= i < self.rows@.len() && self.rows@[i].key() == k;
                assert(ks[i] == k);
            }
            assert(ks.to_set() =~= self@.dom());
        }
        &self.rows
    }

    fn find(&self, x: &T) -> (r: Option<usize>)
        ensures
            r matches Some(i) ==> i < self.rows@.len() && self.rows@[i as int].key() == x.key(),
            r is None ==> !self@.contains_key(x.key()),
    {
        proof {
            use_type_invariant(self);
        }
        let mut i: usize = 0;
        while i < self.rows.len()
            invariant
                i <= self.rows@.len(),
                forall|j: int| 0 <= j < i ==> self.rows@[j].key() != x.key(),
            decreases self.rows@.len() - i,
        {
            if self.rows[i].same_key(x) {
                return Some(i);
            }
            i = i + 1;
        }
        None
    }

    /// Whether a row with the key of `x` is present.
    pub fn contains(&self, x: &T) -> (r: bool)
        ensures
            r == self@.contains_key(x.key()),
    {
        proof {
            use_type_invariant(self);
        }
        match self.find(x) {
            Some(_) => true,
            None => false,
        }
    }

    /// Makes `x` the row of its key: updates the row in place, or adds it.
    pub fn upsert(&mut self, x: T)
        ensures
            final(self)@ == old(self)@.insert(x.key(), x),
    {
        proof {
            use_type_invariant(&*self);
        }
        let found = self.find(&x);
        let mut whole = KeyedTable::new();
        std::mem::swap(&mut whole, self);
        proof {
            use_type_invariant(&whole);
        }
        let KeyedTable { mut rows, contents } = whole;
        let ghost m = contents@.insert(x.key(), x);
        let ghost old_rows = rows@;
        match found {
            Some(i) => {
                rows.set(i, x);
                proof {
                    assert forall|a: int| 0 <= a < rows@.len() implies #[trigger] m.contains_key(
                        rows@[a].key(),
                    ) && m[rows@[a].key()] == rows@[a] by {
                        if a != i {
                            assert(old_rows[a].key() != old_rows[i as int].key());
                        }
                    }
                    assert forall|k: T::Key| #[trigger] m.contains_key(k) implies exists|j: int|
                        0 <= j < rows@.len() && rows@[j].key() == k by {
                        if k != x.key() {
                            let j = choose|j: int| 0 <= j < old_rows.len() && old_rows[j].key() == k;
                            assert(rows@[j].key() == k);
                        } else {
                            assert(rows@[i as int].key() == k);
                        }
                    }
                }
            },
            None => {
                rows.push(x);
                proof {
                    assert forall|a: int| 0 <= a < old_rows.len() implies old_rows[a].key()
                        != x.key() by {
                        assert(contents@.contains_key(old_rows[a].key()));
                    }
                    assert forall|a: int| 0 <= a < rows@.len() implies #[trigger] m.contains_key(
                        rows@[a].key(),
                    ) && m[rows@[a].key()] == rows@[a] by {
                        if a < old_rows.len() {
                            assert(rows@[a] == old_rows[a]);
                        }
                    }
                    assert forall|k: T::Key| #[trigger] m.contains_key(k) implies exists|j: int|
                        0 <= j < rows@.len() && rows@[j].key() == k by {
                        if k != x.key() {
                            let j = choose|j: int| 0 <= j < old_rows.len() && old_rows[j].key() == k;
                            assert(rows@[j].key() == k);
                        } else {
                            assert(rows@[old_rows.len() as int].key() == k);
                        }
                    }
                }
            },
        }
        *self = KeyedTable { rows, contents: Ghost(m) };
    }

    /// Adds `x` when no row has its key; an existing row is left as it is.
    pub fn insert_if_absent(&mut self, x: T)
        ensures
            old(self)@.contains_key(x.key()) ==> final(self)@ == old(self)@,
            !old(self)@.contains_key(x.key()) ==> final(self)@ == old(self)@.insert(x.key(), x),
    {
        if !self.contains(&x) {
            self.upsert(x);
        }
    }

    /// Deletes every row whose key is not the key of some element of `keep`.
    pub fn retain_keys_of(&mut self, keep: &Vec<T>)
        ensures
            final(self)@ == old(self)@.restrict(keep@.map_values(|t: T| t.key()).to_set()),
    {
        proof {
            use_type_invariant(&*self);
        }
        let ghost keys = keep@.map_values(|t: T| t.key()).to_set();
        let mut whole = KeyedTable::new();
        std::mem::swap(&mut whole, self);
        proof {
            use_type_invariant(&whole);
        }
        let KeyedTable { rows, contents } = whole;
        let ghost m = contents@.restrict(keys);
        let mut kept: Vec<T> = Vec::new();
        let ghost mut picked: Seq<int> = Seq::empty();
        let mut i: usize = 0;
        while i < rows.len()
            invariant
                i <= rows@.len(),
                rows_represent(rows@, contents@),
                m == contents@.restrict(keys),
                keys == keep@.map_values(|t: T| t.key()).to_set(),
                picked.len() == kept@.len(),
                forall|a: int| 0 <= a < picked.len() ==> 0 <= #[trigger] picked[a] < i,
                forall|a: int, b: int| 0 <= a < b < picked.len() ==> picked[a] < picked[b],
                forall|a: int| 0 <= a < picked.len() ==> kept@[a] == rows@[#[trigger] picked[a]],
                forall|a: int| 0 <= a < kept@.len() ==> keys.contains(#[trigger] kept@[a].key()),
                forall|j: int|
                    0 <= j < i && keys.contains(#[trigger] rows@[j].key()) ==> exists|a: int|
                        0 <= a < kept@.len() && kept@[a] == rows@[j],
            decreases rows@.len() - i,
        {
            if has_key(keep, &rows[i]) {
                let ghost before = kept@;
                kept.push(rows[i].duplicate());
                proof {
                    picked = picked.push(i as int);
                    assert(kept@[kept@.len() - 1] == rows@[i as int]);
                    assert forall|j: int|
                        0 <= j < i + 1 && keys.contains(#[trigger] rows@[j].key()) implies exists|a: int|
                            0 <= a < kept@.len() && kept@[a] == rows@[j] by {
                        if j < i {
                            let a = choose|a: int| 0 <= a < before.len() && before[a] == rows@[j];
                            assert(kept@[a] == rows@[j]);
                        } else {
                            assert(kept@[kept@.len() - 1] == rows@[j]);
                        }
                    }
                }
            }
            i = i + 1;
        }
        proof {
            assert forall|a: int, b: int| 0 <= a < b < kept@.len() implies kept@[a].key()
                != kept@[b].key() by {
                assert(kept@[a] == rows@[picked[a]]);
                assert(kept@[b] == rows@[picked[b]]);
            }
            assert forall|a: int| 0 <= a < kept@.len() implies #[trigger] m.contains_key(
                kept@[a].key(),
            ) && m[kept@[a].key()] == kept@[a] by {
                assert(kept@[a] == rows@[picked[a]]);
            }
            assert forall|k: T::Key| #[trigger] m.contains_key(k) implies exists|a: int|
                0 <= a < kept@.len() && kept@[a].key() == k by {
                let j = choose|j: int| 0 <= j < rows@.len() && rows@[j].key() == k;
                assert(keys.contains(rows@[j].key()));
                let a = choose|a: int| 0 <= a < kept@.len() && kept@[a] == rows@[j];
            }
        }
        *self = KeyedTable { rows: kept, contents: Ghost(m) };
    }
}

} // verus!
