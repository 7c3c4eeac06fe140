//! A hash index over positions: for each code, the positions that have
//! it. It lets a container find the few positions at which a key can
//! stand without walking all of them.

use std::collections::HashMap;
use vstd::prelude::*;

verus! {

broadcast use vstd::std_specs::hash::group_hash_axioms;

/// Whether `position` is among `list`.
pub open spec fn lists(list: Seq<usize>, position: int) -> bool {
    exists|a: int| 0 <= a < list.len() && #[trigger] list[a] == position
}

/// For each code, the positions that have it.
pub struct Slots {
    map: HashMap<u64, Vec<usize>>,
}

impl Slots {
    /// The index is that of `codes`, where `codes[i]` is the code of
    /// position `i`: every position is listed under its code, and under
    /// each code stand only positions that have it.
    pub closed spec fn inv(&self, codes: Seq<u64>) -> bool {
        &&& forall|i: int|
            0 <= i < codes.len() ==> self.map@.contains_key(#[trigger] codes[i])
                && lists(self.map@[codes[i]]@, i)
        &&& forall|h: u64, j: int|
            self.map@.contains_key(h) && 0 <= j < self.map@[h]@.len() ==> (
            #[trigger] self.map@[h]@[j]) < codes.len() && codes[self.map@[h]@[j] as int] == h
    }

    pub fn new() -> (s: Self)
        ensures
            s.inv(Seq::empty()),
    {
        Slots { map: HashMap::new() }
    }

    /// Lists one more position, the next, under its code.
    pub fn push(&mut self, h: u64, n: usize, Ghost(codes): Ghost<Seq<u64>>)
        requires
            old(self).inv(codes),
            n == codes.len(),
        ensures
            final(self).inv(codes.push(h)),
    {
        let mut list = match self.map.remove(&h) {
            Some(list) => list,
            None => Vec::new(),
        };
        let ghost before = list@;
        list.push(n);
        self.map.insert(h, list);
        proof {
            let next = codes.push(h);
            assert(list@[before.len() as int] == n);
            assert forall|i: int| 0 <= i < next.len() implies self.map@.contains_key(
                #[trigger] next[i],
            ) && lists(self.map@[next[i]]@, i) by {
                if i < codes.len() {
                    assert(old(self).map@.contains_key(codes[i]));
                    let was = old(self).map@[codes[i]]@;
                    assert(lists(was, i));
                    let j = choose|j: int| 0 <= j < was.len() && #[trigger] was[j] == i;
                    if codes[i] == h {
                        assert(list@[j] == i);
                    }
                }
            }
            assert forall|g: u64, j: int|
                self.map@.contains_key(g) && 0 <= j < self.map@[g]@.len() implies (
            #[trigger] self.map@[g]@[j]) < next.len() && next[self.map@[g]@[j] as int] == g by {
                if g == h {
                    if j < before.len() {
                        assert(old(self).map@.contains_key(h));
                        assert(old(self).map@[h]@[j] == list@[j]);
                    }
                } else {
                    assert(old(self).map@.contains_key(g));
                    assert(old(self).map@[g]@[j] == self.map@[g]@[j]);
                }
            }
        }
    }

    /// The positions that have the code `h`.
    pub fn at(&self, h: u64, Ghost(codes): Ghost<Seq<u64>>) -> (r: Option<&Vec<usize>>)
        requires
            self.inv(codes),
        ensures
            match r {
                Some(list) => {
                    &&& forall|j: int|
                        0 <= j < list@.len() ==> (#[trigger] list@[j]) < codes.len()
                            && codes[list@[j] as int] == h
                    &&& forall|i: int|
                        0 <= i < codes.len() && #[trigger] codes[i] == h ==> lists(list@, i)
                },
                None => forall|i: int| 0 <= i < codes.len() ==> #[trigger] codes[i] != h,
            },
    {
        let r = self.map.get(&h);
        proof {
            match r {
                Some(list) => {
                    assert(self.map@.contains_key(h) && self.map@[h] == *list);
                    assert forall|j: int| 0 <= j < list@.len() implies (#[trigger] list@[j])
                        < codes.len() && codes[list@[j] as int] == h by {
                        assert(self.map@[h]@[j] == list@[j]);
                    }
                },
                None => {
                    assert(!self.map@.contains_key(h));
                },
            }
        }
        r
    }

    /// A copy of the index.
    pub fn duplicate(&self, Ghost(codes): Ghost<Seq<u64>>) -> (r: Self)
        requires
            self.inv(codes),
        ensures
            r.inv(codes),
    {
        Slots { map: self.map.clone() }
    }
}

} // verus!
