use vstd::prelude::*;
use vstd::seq_lib::group_to_multiset_ensures;
use vstd::multiset::group_multiset_axioms;
use crate::rng::gen_below;

verus! {

/// An ordered pile of items: a stack whose top is the most recently
/// placed item, but which also allows removal at an arbitrary index, as
/// hands need.
pub struct Pile<T>(pub Vec<T>);

impl<T> View for Pile<T> {
    type V = Seq<T>;

    open spec fn view(&self) -> Seq<T> {
        self.0@
    }
}

impl<T> Pile<T> {
    /// An empty pile.
    pub fn new() -> (r: Pile<T>)
        ensures
            r@ == Seq::<T>::empty(),
    {
        Pile(Vec::<T>::new())
    }

    /// Remove and return the top item, if any.
    pub fn draw(&mut self) -> (r: Option<T>)
        ensures
            old(self)@.len() == 0 ==> r is None && final(self)@ == old(self)@,
            old(self)@.len() > 0 ==> r == Some(old(self)@.last()) && final(self)@ == old(
                self,
            )@.drop_last(),
    {
        self.0.pop()
    }

    /// Put an item on top of the pile.
    pub fn place(&mut self, item: T)
        ensures
            final(self)@ == old(self)@.push(item),
    {
        self.0.push(item);
    }

    /// Remove the item at `index`; later items shift down to fill the gap.
    pub fn take(&mut self, index: usize) -> (r: T)
        requires
            index < old(self)@.len(),
        ensures
            r == old(self)@[index as int],
            final(self)@ == old(self)@.remove(index as int),
    {
        self.0.remove(index)
    }

    /// Look at the top item without removing it.
    pub fn top(&self) -> (r: Option<&T>)
        ensures
            self@.len() == 0 ==> r is None,
            self@.len() > 0 ==> (r matches Some(x) && *x == self@.last()),
    {
        if self.0.len() == 0 {
            None
        } else {
            Some(&self.0[self.0.len() - 1])
        }
    }

    /// How many items the pile holds.
    pub fn size(&self) -> (r: usize)
        ensures
            r == self@.len(),
    {
        self.0.len()
    }

    /// Look at the item at `index` without removing it.
    pub fn get(&self, index: usize) -> (r: &T)
        requires
            index < self@.len(),
        ensures
            *r == self@[index as int],
    {
        &self.0[index]
    }
}

impl<T: Copy> Pile<T> {
    /// Rearrange the pile into a random order, one position at a time,
    /// drawing each position's partner from the supplied generator.
    /// The items themselves are kept: the result holds the same items,
    /// each exactly as often as before.
    pub fn shuffle(&mut self, rng: &mut rand::rngs::StdRng)
        ensures
            final(self)@.to_multiset() == old(self)@.to_multiset(),
            final(self)@.len() == old(self)@.len(),
    {
        broadcast use group_to_multiset_ensures, group_multiset_axioms;

        let ghost orig: Seq<T> = self@;
        let n = self.0.len();
        let mut i: usize = n;
        while i > 1
            invariant
                i <= n,
                n == self@.len(),
                n == orig.len(),
                self@.to_multiset() == orig.to_multiset(),
            decreases i,
        {
            i = i - 1;
            let j = gen_below(rng, i + 1);
            if j != i {
                let ghost before: Seq<T> = self@;
                let vi: T = self.0[i];
                let vj: T = self.0[j];
                self.0[i] = vj;
                self.0[j] = vi;
                proof {
                    assert(before.contains(vi));
                    assert(before.contains(vj));
                    vstd::seq_lib::to_multiset_contains(before, vi);
                    vstd::seq_lib::to_multiset_contains(before, vj);
                    assert(before.to_multiset().count(vi) > 0);
                    assert(before.to_multiset().count(vj) > 0);
                    let s1 = before.update(i as int, vj);
                    vstd::seq_lib::to_multiset_update(before, i as int, vj);
                    vstd::seq_lib::to_multiset_update(s1, j as int, vi);
                    assert(s1.to_multiset() == before.to_multiset().insert(vj).remove(vi));
                    assert(s1[j as int] == vj);
                    assert(self@ == s1.update(j as int, vi));
                    assert(s1.update(j as int, vi).to_multiset() == s1.to_multiset().insert(
                        vi,
                    ).remove(vj));
                    assert forall|e: T|
                        self@.to_multiset().count(e) == before.to_multiset().count(e) by {
                        let c = before.to_multiset().count(e);
                        assert(before.to_multiset().insert(vj).count(e) == c + if e == vj {
                            1int
                        } else {
                            0int
                        });
                    }
                    assert(self@.to_multiset() =~= before.to_multiset());
                }
            }
        }
    }

    /// A copy of the pile: the same items in the same order.
    pub fn duplicate(&self) -> (r: Pile<T>)
        ensures
            r@ == self@,
    {
        let mut v: Vec<T> = Vec::new();
        let mut k: usize = 0;
        while k < self.0.len()
            invariant
                k <= self@.len(),
                v@ == self@.take(k as int),
            decreases self@.len() - k,
        {
            v.push(self.0[k]);
            proof {
                assert(v@ =~= self@.take(k + 1));
            }
            k = k + 1;
        }
        proof {
            assert(v@ =~= self@);
        }
        Pile(v)
    }
}

impl<T> From<Vec<T>> for Pile<T> {
    /// Build a pile from a vector; the vector's last element becomes the top.
    fn from(items: Vec<T>) -> (r: Pile<T>) {
        Pile(items)
    }
}

impl<T> vstd::std_specs::convert::FromSpecImpl<Vec<T>> for Pile<T> {
    open spec fn obeys_from_spec() -> bool {
        true
    }

    open spec fn from_spec(items: Vec<T>) -> Pile<T> {
        Pile(items)
    }
}

} // verus!
