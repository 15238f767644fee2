use vstd::prelude::*;

verus! {

/// A value identified by a natural key.
pub trait Keyed: Sized {
    type Key;

    spec fn key(&self) -> Self::Key;

    /// Whether two values carry the same natural key.
    fn same_key(&self, other: &Self) -> (r: bool)
        ensures
            r == (self.key() == other.key()),
    ;

    /// A copy of the value.
    fn duplicate(&self) -> (r: Self)
        ensures
            r == *self,
    ;
}

/// The elements of `s` whose key has not occurred earlier, in order of first occurrence.
pub open spec fn first_by_key<T, K>(s: Seq<T>, key: spec_fn(T) -> K) -> Seq<T>
    decreases s.len(),
{
    if s.len() == 0 {
        Seq::empty()
    } else {
        let d = first_by_key(s.drop_last(), key);
        if d.map_values(key).contains(key(s.last())) {
            d
        } else {
            d.push(s.last())
        }
    }
}

pub(crate) fn has_key<T: Keyed>(items: &Vec<T>, x: &T) -> (r: bool)
    ensures
        r == items@.map_values(|t: T| t.key()).contains(x.key()),
{
    let mut i: usize = 0;
    while i < items.len()
        invariant
            i <= items@.len(),
            forall|j: int| 0 <= j < i ==> items@[j].key() != x.key(),
        decreases items@.len() - i,
    {
        if items[i].same_key(x) {
            assert(items@.map_values(|t: T| t.key())[i as int] == x.key());
            return true;
        }
        i = i + 1;
    }
    proof {
        let ks = items@.map_values(|t: T| t.key());
        if ks.contains(x.key()) {
            let j = choose|j: int| 0 <= j < ks.len() && ks[j] == x.key();
            assert(items@[j].key() == x.key());
        }
    }
    false
}

/// One value per natural key, the first that occurs, in order of first occurrence.
pub fn dedup_first<T: Keyed>(items: &Vec<T>) -> (r: Vec<T>)
    ensures
        r@ == first_by_key(items@, |t: T| t.key()),
{
    let mut out: Vec<T> = Vec::new();
    let mut i: usize = 0;
    while i < items.len()
        invariant
            i <= items@.len(),
            out@ == first_by_key(items@.take(i as int), |t: T| t.key()),
        decreases items@.len() - i,
    {
        let ghost prefix = items@.take(i as int);
        assert(items@.take(i as int + 1).drop_last() =~= prefix);
        assert(items@.take(i as int + 1).last() == items@[i as int]);
        if !has_key(&out, &items[i]) {
            out.push(items[i].duplicate());
        }
        i = i + 1;
    }
    assert(items@.take(items@.len() as int) =~= items@);
    out
}

} // verus!
