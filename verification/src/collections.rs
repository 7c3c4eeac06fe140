//! Small association containers whose contents are known to the verifier.
//!
//! Both containers keep their entries in a vector, in the order in which the
//! keys first arrived, and find a key through a hash index from the code of
//! the key to the positions that have that code: a lookup compares the key
//! with the few keys of its code only. A removal builds the index anew.
//! Their views are a mathematical `Set` and `Map` over the views of keys and
//! values.

use crate::codec::{
    all_fit, all_valid, get_list, lemma_concat_assoc, lemma_read_wire_list, put_list, read_list,
    wire_list, Reader, Wire,
};
use crate::slots::{lists, Slots};
use vstd::prelude::*;

verus! {

/// A value that can be copied so that the copy has the same view, and is
/// well formed where the value is.
pub trait DeepClone: View + Sized {
    /// Whether the value is well formed; plain data always is.
    spec fn valid(&self) -> bool;

    fn deep_clone(&self) -> (r: Self)
        ensures
            r@ == self@,
            self.valid() ==> r.valid(),
    ;
}

/// A value that can serve as a key: equality is decided on the view.
pub trait Key: DeepClone {
    fn key_eq(&self, other: &Self) -> (r: bool)
        ensures
            r == (self@ == other@),
    ;

    /// A key is always well formed.
    proof fn lemma_key_valid(&self)
        ensures
            self.valid(),
    ;

    /// The code under which a key with this view is looked for: keys with
    /// one view have one code.
    spec fn spec_code(v: Self::V) -> u64;

    fn code(&self) -> (h: u64)
        ensures
            h == Self::spec_code(self@),
    ;
}

/// The codes of keys, in order.
pub open spec fn codes_of<K: Key>(views: Seq<K::V>) -> Seq<u64> {
    views.map_values(|v: K::V| K::spec_code(v))
}

/// The position at which `k` stands among the first `upto` of `items`,
/// found through the index of their codes.
fn find_before<K: Key>(items: &Vec<K>, upto: usize, slots: &Slots, k: &K) -> (r: Option<usize>)
    requires
        upto <= items@.len(),
        slots.inv(codes_of::<K>(seq_view(items@).take(upto as int))),
    ensures
        match r {
            Some(i) => i < upto && seq_view(items@)[i as int] == k@,
            None => forall|j: int| 0 <= j < upto ==> seq_view(items@)[j] != k@,
        },
{
    let ghost views = seq_view(items@).take(upto as int);
    let ghost codes = codes_of::<K>(views);
    let h = k.code();
    match slots.at(h, Ghost(codes)) {
        None => {
            proof {
                assert forall|j: int| 0 <= j < upto implies seq_view(items@)[j] != k@ by {
                    assert(views[j] == seq_view(items@)[j]);
                    assert(codes[j] != h);
                }
            }
            None
        },
        Some(list) => {
            let mut j: usize = 0;
            while j < list.len()
                invariant
                    j <= list@.len(),
                    upto <= items@.len(),
                    views == seq_view(items@).take(upto as int),
                    codes == codes_of::<K>(views),
                    forall|a: int|
                        0 <= a < list@.len() ==> (#[trigger] list@[a]) < codes.len()
                            && codes[list@[a] as int] == h,
                    forall|a: int| 0 <= a < j ==> views[(#[trigger] list@[a]) as int] != k@,
                decreases list@.len() - j,
            {
                let at = list[j];
                if items[at].key_eq(k) {
                    return Some(at);
                }
                assert(views[at as int] == seq_view(items@)[at as int]);
                j += 1;
            }
            proof {
                assert forall|i: int| 0 <= i < upto implies seq_view(items@)[i] != k@ by {
                    assert(views[i] == seq_view(items@)[i]);
                    if views[i] == k@ {
                        assert(codes[i] == h);
                        assert(lists(list@, i));
                        let a = choose|a: int| 0 <= a < list@.len() && #[trigger] list@[a] == i;
                        assert(views[list@[a] as int] != k@);
                    }
                }
            }
            None
        },
    }
}

/// The position at which `k` stands among `items`, found through the
/// index of their codes.
fn find<K: Key>(items: &Vec<K>, slots: &Slots, k: &K) -> (r: Option<usize>)
    requires
        slots.inv(codes_of::<K>(seq_view(items@))),
    ensures
        match r {
            Some(i) => i < items@.len() && seq_view(items@)[i as int] == k@,
            None => !seq_view(items@).contains(k@),
        },
{
    assert(seq_view(items@).take(items@.len() as int) =~= seq_view(items@));
    find_before(items, items.len(), slots, k)
}

/// The index of the codes of `items`, where no two of them have the same
/// view; nothing where two have.
fn index_if_distinct<K: Key>(items: &Vec<K>) -> (r: Option<Slots>)
    ensures
        match r {
            Some(slots) => seq_view(items@).no_duplicates() && slots.inv(
                codes_of::<K>(seq_view(items@)),
            ),
            None => !seq_view(items@).no_duplicates(),
        },
{
    let ghost views = seq_view(items@);
    let mut slots = Slots::new();
    let mut i: usize = 0;
    assert(codes_of::<K>(views.take(0)) =~= Seq::<u64>::empty());
    while i < items.len()
        invariant
            i <= items@.len(),
            views == seq_view(items@),
            slots.inv(codes_of::<K>(views.take(i as int))),
            forall|a: int, b: int| 0 <= a < b < i ==> views[a] != views[b],
        decreases items@.len() - i,
    {
        match find_before(items, i, &slots, &items[i]) {
            Some(at) => {
                assert(views[at as int] == views[i as int]);
                return None;
            },
            None => {},
        }
        let h = items[i].code();
        slots.push(h, i, Ghost(codes_of::<K>(views.take(i as int))));
        assert(codes_of::<K>(views.take(i + 1)) =~= codes_of::<K>(views.take(i as int)).push(h));
        i += 1;
    }
    assert(views.take(i as int) =~= views);
    Some(slots)
}

/// The index of the codes of `items`.
fn build_slots<K: Key>(items: &Vec<K>) -> (slots: Slots)
    ensures
        slots.inv(codes_of::<K>(seq_view(items@))),
{
    let ghost views = seq_view(items@);
    let mut slots = Slots::new();
    let mut i: usize = 0;
    assert(codes_of::<K>(views.take(0)) =~= Seq::<u64>::empty());
    while i < items.len()
        invariant
            i <= items@.len(),
            views == seq_view(items@),
            slots.inv(codes_of::<K>(views.take(i as int))),
        decreases items@.len() - i,
    {
        let h = items[i].code();
        slots.push(h, i, Ghost(codes_of::<K>(views.take(i as int))));
        assert(codes_of::<K>(views.take(i + 1)) =~= codes_of::<K>(views.take(i as int)).push(h));
        i += 1;
    }
    assert(views.take(i as int) =~= views);
    slots
}

/// The views of the elements of a sequence, in order.
pub open spec fn seq_view<T: View>(s: Seq<T>) -> Seq<T::V> {
    s.map_values(|t: T| t@)
}

/// The values that `m` holds for the keys of `keys`, in their order; a key
/// that `m` lacks contributes nothing.
pub open spec fn collect<K, V>(keys: Seq<K>, m: Map<K, V>) -> Seq<V>
    decreases keys.len(),
{
    if keys.len() == 0 {
        Seq::empty()
    } else {
        let rest = collect(keys.drop_last(), m);
        if m.contains_key(keys.last()) {
            rest.push(m[keys.last()])
        } else {
            rest
        }
    }
}

/// How `collect` grows with one more key.
pub proof fn lemma_collect_push<K, V>(keys: Seq<K>, k: K, m: Map<K, V>)
    ensures
        collect(keys.push(k), m) == if m.contains_key(k) {
            collect(keys, m).push(m[k])
        } else {
            collect(keys, m)
        },
        collect(Seq::<K>::empty(), m) == Seq::<V>::empty(),
{
    assert(keys.push(k).drop_last() =~= keys);
}

/// Whether `order` lists every member of `s` once, and nothing else.
pub open spec fn enumerates<K>(order: Seq<K>, s: Set<K>) -> bool {
    order.no_duplicates() && order.to_set() == s
}

/// Copies a vector element by element.
pub fn clone_vec<T: DeepClone>(v: &Vec<T>) -> (r: Vec<T>)
    ensures
        seq_view(r@) == seq_view(v@),
        r@.len() == v@.len(),
        forall|j: int| 0 <= j < v@.len() && (#[trigger] v@[j]).valid() ==> r@[j].valid(),
{
    let mut r: Vec<T> = Vec::new();
    let mut i: usize = 0;
    while i < v.len()
        invariant
            i <= v.len(),
            r.len() == i,
            forall|j: int| 0 <= j < i ==> (#[trigger] r@[j])@ == v@[j]@,
            forall|j: int| 0 <= j < i && (#[trigger] v@[j]).valid() ==> r@[j].valid(),
        decreases v.len() - i,
    {
        r.push(v[i].deep_clone());
        i += 1;
    }
    assert(seq_view(r@) =~= seq_view(v@));
    r
}

/// A finite set of keys, kept in the order of first insertion.
pub struct KeySet<K: Key> {
    items: Vec<K>,
    slots: Slots,
}

impl<K: Key> View for KeySet<K> {
    type V = Set<K::V>;

    closed spec fn view(&self) -> Set<K::V> {
        self.seq().to_set()
    }
}

impl<K: Key> KeySet<K> {
    /// The members, in the order in which they were first inserted.
    pub closed spec fn seq(&self) -> Seq<K::V> {
        seq_view(self.items@)
    }

    /// No member is stored twice, and the index of codes is that of the
    /// members.
    pub closed spec fn wf(&self) -> bool {
        &&& self.seq().no_duplicates()
        &&& self.slots.inv(codes_of::<K>(self.seq()))
    }

    /// The view holds exactly the members of `seq`.
    pub proof fn lemma_members(&self)
        ensures
            forall|k: K::V| self@.contains(k) <==> self.seq().contains(k),
            self@.finite(),
            self.wf() ==> self@.len() == self.seq().len(),
            self.wf() ==> self.seq().no_duplicates(),
    {
        broadcast use vstd::seq_lib::group_seq_properties;

        if self.wf() {
            self.seq().unique_seq_to_set();
        }
    }

    pub fn new() -> (s: Self)
        ensures
            s.wf(),
            s@ == Set::<K::V>::empty(),
            s.seq() == Seq::<K::V>::empty(),
    {
        let s = KeySet { items: Vec::new(), slots: Slots::new() };
        assert(s.seq() =~= Seq::<K::V>::empty());
        assert(codes_of::<K>(s.seq()) =~= Seq::<u64>::empty());
        assert(s@ =~= Set::<K::V>::empty());
        s
    }

    pub fn len(&self) -> (n: usize)
        ensures
            n == self.seq().len(),
    {
        self.items.len()
    }

    pub fn is_empty(&self) -> (b: bool)
        ensures
            b == (self.seq().len() == 0),
    {
        self.items.len() == 0
    }

    /// The member at position `i` of the insertion order.
    pub fn get(&self, i: usize) -> (k: &K)
        requires
            i < self.seq().len(),
        ensures
            k@ == self.seq()[i as int],
    {
        &self.items[i]
    }

    fn position(&self, k: &K) -> (r: Option<usize>)
        requires
            self.wf(),
        ensures
            match r {
                Some(i) => i < self.seq().len() && self.seq()[i as int] == k@,
                None => !self.seq().contains(k@),
            },
    {
        find(&self.items, &self.slots, k)
    }

    pub fn contains(&self, k: &K) -> (b: bool)
        requires
            self.wf(),
        ensures
            b == self@.contains(k@),
    {
        proof {
            self.lemma_members();
        }
        self.position(k).is_some()
    }

    /// Adds `k`; returns whether it was new.
    pub fn insert(&mut self, k: K) -> (fresh: bool)
        requires
            old(self).wf(),
        ensures
            final(self).wf(),
            final(self)@ == old(self)@.insert(k@),
            fresh == !old(self)@.contains(k@),
            final(self).seq() == if fresh {
                old(self).seq().push(k@)
            } else {
                old(self).seq()
            },
    {
        proof {
            self.lemma_members();
        }
        match self.position(&k) {
            Some(_) => {
                assert(self@ =~= old(self)@.insert(k@));
                false
            },
            None => {
                let ghost before = self.seq();
                let h = k.code();
                let n = self.items.len();
                self.items.push(k);
                self.slots.push(h, n, Ghost(codes_of::<K>(before)));
                assert(self.seq() =~= before.push(k@));
                assert(codes_of::<K>(self.seq()) =~= codes_of::<K>(before).push(h));
                proof {
                    self.lemma_members();
                    assert forall|x: K::V| self@.contains(x) <==> old(self)@.insert(
                        k@,
                    ).contains(x) by {
                        if before.push(k@).contains(x) {
                            let j = choose|j: int|
                                0 <= j < before.push(k@).len() && before.push(k@)[j] == x;
                            if j < before.len() {
                                assert(before[j] == x);
                            }
                        }
                        if before.contains(x) {
                            let j = choose|j: int| 0 <= j < before.len() && before[j] == x;
                            assert(before.push(k@)[j] == x);
                        }
                        assert(before.push(k@)[before.len() as int] == k@);
                    }
                    assert(self@ =~= old(self)@.insert(k@));
                }
                true
            },
        }
    }

    /// Removes `k`; returns whether it was a member.
    pub fn remove(&mut self, k: &K) -> (was: bool)
        requires
            old(self).wf(),
        ensures
            final(self).wf(),
            final(self)@ == old(self)@.remove(k@),
            was == old(self)@.contains(k@),
    {
        proof {
            self.lemma_members();
        }
        match self.position(k) {
            None => {
                assert(self@ =~= old(self)@.remove(k@));
                false
            },
            Some(i) => {
                let ghost before = self.seq();
                self.items.remove(i);
                self.slots = build_slots(&self.items);
                assert(self.seq() =~= before.remove(i as int));
                proof {
                    self.lemma_members();
                    assert forall|x: K::V| self@.contains(x) <==> old(self)@.remove(
                        k@,
                    ).contains(x) by {
                        let after = before.remove(i as int);
                        if after.contains(x) {
                            let j = choose|j: int| 0 <= j < after.len() && after[j] == x;
                            if j < i {
                                assert(before[j] == x);
                            } else {
                                assert(before[j + 1] == x);
                            }
                        }
                        if before.contains(x) && x != k@ {
                            let j = choose|j: int| 0 <= j < before.len() && before[j] == x;
                            if j < i {
                                assert(after[j] == x);
                            } else {
                                assert(after[j - 1] == x);
                            }
                        }
                    }
                    assert(self@ =~= old(self)@.remove(k@));
                }
                true
            },
        }
    }
}

impl<K: Key> KeySet<K> {
    /// Adds every member of `other`.
    pub fn extend(&mut self, other: &KeySet<K>)
        requires
            old(self).wf(),
        ensures
            final(self).wf(),
            final(self)@ == old(self)@.union(other@),
    {
        let mut i: usize = 0;
        proof {
            other.lemma_members();
            assert(other.seq().take(0).to_set() =~= Set::<K::V>::empty());
            assert(self@ =~= old(self)@.union(other.seq().take(0).to_set()));
        }
        while i < other.len()
            invariant
                i <= other.seq().len(),
                self.wf(),
                self@ == old(self)@.union(other.seq().take(i as int).to_set()),
            decreases other.seq().len() - i,
        {
            let k = other.get(i).deep_clone();
            self.insert(k);
            proof {
                let a = other.seq().take(i as int);
                let b = other.seq().take(i + 1);
                assert(b =~= a.push(other.seq()[i as int]));
                lemma_push_to_set(a, other.seq()[i as int]);
                assert(self@ =~= old(self)@.union(b.to_set()));
            }
            i += 1;
        }
        proof {
            assert(other.seq().take(i as int) =~= other.seq());
            other.lemma_view_is_seq_set();
        }
    }

    /// The view is the set of the members of `seq`.
    pub proof fn lemma_view_is_seq_set(&self)
        ensures
            self@ == self.seq().to_set(),
    {
    }
}

/// The members of a sequence with one more element.
pub proof fn lemma_push_to_set<A>(s: Seq<A>, a: A)
    ensures
        s.push(a).to_set() == s.to_set().insert(a),
{
    broadcast use vstd::seq_lib::group_seq_properties;

    assert forall|x: A| s.push(a).to_set().contains(x) <==> s.to_set().insert(a).contains(x) by {
        if s.push(a).contains(x) {
            let j = choose|j: int| 0 <= j < s.push(a).len() && s.push(a)[j] == x;
            if j < s.len() {
                assert(s[j] == x);
            }
        }
        if s.contains(x) {
            let j = choose|j: int| 0 <= j < s.len() && s[j] == x;
            assert(s.push(a)[j] == x);
        }
        assert(s.push(a)[s.len() as int] == a);
    }
    assert(s.push(a).to_set() =~= s.to_set().insert(a));
}

impl<K: Key> DeepClone for KeySet<K> {
    open spec fn valid(&self) -> bool {
        self.wf()
    }

    fn deep_clone(&self) -> (r: Self)
        ensures
            r.seq() == self.seq(),
    {
        let items = clone_vec(&self.items);
        let slots = build_slots(&items);
        let r = KeySet { items, slots };
        assert(r.seq() == self.seq());
        assert(self.valid() ==> r.valid());
        r
    }
}

/// A finite map from keys to values, kept in the order in which the keys
/// first arrived.
pub struct VecMap<K: Key, V: DeepClone> {
    keys: Vec<K>,
    vals: Vec<V>,
    slots: Slots,
}

impl<K: Key, V: DeepClone> View for VecMap<K, V> {
    type V = Map<K::V, V::V>;

    closed spec fn view(&self) -> Map<K::V, V::V> {
        Map::new(
            |k: K::V| self.key_seq().contains(k),
            |k: K::V| self.val_seq()[self.key_seq().index_of(k)],
        )
    }
}

impl<K: Key, V: DeepClone> VecMap<K, V> {
    /// The keys, in the order in which they first arrived.
    pub closed spec fn key_seq(&self) -> Seq<K::V> {
        seq_view(self.keys@)
    }

    /// The values, in the order of their keys.
    pub closed spec fn val_seq(&self) -> Seq<V::V> {
        seq_view(self.vals@)
    }

    /// The value that is stored under `k`, as it is stored.
    pub closed spec fn value_of(&self, k: K::V) -> V {
        self.vals@[self.key_seq().index_of(k)]
    }

    /// Every key has one value, no key is stored twice, every value is
    /// well formed, and the index of codes is that of the keys.
    pub closed spec fn wf(&self) -> bool {
        &&& self.keys@.len() == self.vals@.len()
        &&& self.key_seq().no_duplicates()
        &&& self.slots.inv(codes_of::<K>(self.key_seq()))
        &&& forall|i: int| 0 <= i < self.vals@.len() ==> (#[trigger] self.vals@[i]).valid()
    }

    /// The view pairs each key of `key_seq` with the value at its position.
    pub proof fn lemma_entries(&self)
        requires
            self.wf(),
        ensures
            self.key_seq().len() == self.val_seq().len(),
            self.key_seq().no_duplicates(),
            self@.dom().finite(),
            self@.dom() == self.key_seq().to_set(),
            forall|k: K::V| self@.contains_key(k) <==> self.key_seq().contains(k),
            forall|i: int|
                0 <= i < self.key_seq().len() ==> self@.contains_key(
                    #[trigger] self.key_seq()[i],
                ) && self@[self.key_seq()[i]] == self.val_seq()[i],
    {
        broadcast use vstd::seq_lib::group_seq_properties;

        assert forall|i: int| 0 <= i < self.key_seq().len() implies self@.contains_key(
            #[trigger] self.key_seq()[i],
        ) && self@[self.key_seq()[i]] == self.val_seq()[i] by {
            let k = self.key_seq()[i];
            assert(self.key_seq().contains(k));
            let j = self.key_seq().index_of(k);
            assert(j == i);
        }
        assert(self@.dom() =~= self.key_seq().to_set());
    }

    /// The stored value under a key has the view that the map gives the
    /// key, and is well formed.
    pub proof fn lemma_value_of(&self, k: K::V)
        requires
            self.wf(),
            self@.contains_key(k),
        ensures
            self.value_of(k)@ == self@[k],
            self.value_of(k).valid(),
    {
        let i = self.key_seq().index_of(k);
        assert(self.key_seq()[i] == k);
    }

    pub fn new() -> (m: Self)
        ensures
            m.wf(),
            m@ == Map::<K::V, V::V>::empty(),
            m.key_seq() == Seq::<K::V>::empty(),
    {
        let m = VecMap { keys: Vec::new(), vals: Vec::new(), slots: Slots::new() };
        assert(m.key_seq() =~= Seq::<K::V>::empty());
        assert(codes_of::<K>(m.key_seq()) =~= Seq::<u64>::empty());
        assert(m@ =~= Map::<K::V, V::V>::empty());
        m
    }

    pub fn len(&self) -> (n: usize)
        ensures
            n == self.key_seq().len(),
    {
        self.keys.len()
    }

    /// The key at position `i`.
    pub fn key_at(&self, i: usize) -> (k: &K)
        requires
            i < self.key_seq().len(),
        ensures
            k@ == self.key_seq()[i as int],
    {
        &self.keys[i]
    }

    /// The value at position `i`.
    pub fn value_at(&self, i: usize) -> (v: &V)
        requires
            self.wf(),
            i < self.key_seq().len(),
        ensures
            v@ == self.val_seq()[i as int],
            v@ == self@[self.key_seq()[i as int]],
            v.valid(),
    {
        proof {
            self.lemma_entries();
        }
        &self.vals[i]
    }

    fn position(&self, k: &K) -> (r: Option<usize>)
        requires
            self.wf(),
        ensures
            match r {
                Some(i) => i < self.key_seq().len() && self.key_seq()[i as int] == k@,
                None => !self.key_seq().contains(k@),
            },
    {
        find(&self.keys, &self.slots, k)
    }

    pub fn contains_key(&self, k: &K) -> (b: bool)
        requires
            self.wf(),
        ensures
            b == self@.contains_key(k@),
    {
        self.position(k).is_some()
    }

    pub fn get(&self, k: &K) -> (r: Option<&V>)
        requires
            self.wf(),
        ensures
            match r {
                Some(v) => self@.contains_key(k@) && v@ == self@[k@] && v.valid() && *v
                    == self.value_of(k@),
                None => !self@.contains_key(k@),
            },
    {
        proof {
            self.lemma_entries();
        }
        match self.position(k) {
            Some(i) => {
                assert(self.key_seq().index_of(k@) == i);
                Some(&self.vals[i])
            },
            None => None,
        }
    }

    /// A mutable borrow of the value stored under `k`, if there is one.
    pub fn get_mut(&mut self, k: &K) -> (r: Option<&mut V>)
        requires
            old(self).wf(),
        ensures
            match r {
                Some(v) => {
                    &&& old(self)@.contains_key(k@)
                    &&& v@ == old(self)@[k@]
                    &&& v.valid()
                    &&& final(v).valid() ==> final(self).wf()
                    &&& final(self)@ == old(self)@.insert(k@, final(v)@)
                    &&& final(self).key_seq() == old(self).key_seq()
                },
                None => !old(self)@.contains_key(k@) && *final(self) == *old(self),
            },
    {
        proof {
            self.lemma_entries();
        }
        match self.position(k) {
            Some(i) => {
                let ghost keys = self.key_seq();
                let ghost vals = self.val_seq();
                let ghost before = self@;
                let v = &mut self.vals[i];
                proof {
                    let after = VecMap::<K, V> {
                        keys: self.keys,
                        vals: after_borrow(self.vals),
                        slots: self.slots,
                    };
                    assert(after.val_seq() =~= vals.update(i as int, final(v)@));
                    assert(after.vals@ =~= old(self).vals@.update(i as int, *final(v)));
                    assert(after.key_seq() == keys);
                    assert(after@ =~= before.insert(k@, final(v)@)) by {
                        assert forall|x: K::V| after@.contains_key(x) implies #[trigger] after@[x]
                            == before.insert(k@, final(v)@)[x] by {
                            let j = keys.index_of(x);
                            assert(keys[j] == x);
                        }
                    }
                }
                Some(v)
            },
            None => None,
        }
    }

    /// Stores `v` under `k`; returns whether the key was new.
    pub fn insert(&mut self, k: K, v: V) -> (fresh: bool)
        requires
            old(self).wf(),
            v.valid(),
        ensures
            final(self).wf(),
            final(self)@ == old(self)@.insert(k@, v@),
            fresh == !old(self)@.contains_key(k@),
            final(self).key_seq() == if fresh {
                old(self).key_seq().push(k@)
            } else {
                old(self).key_seq()
            },
    {
        proof {
            self.lemma_entries();
        }
        let ghost keys = self.key_seq();
        let ghost vals = self.val_seq();
        match self.position(&k) {
            Some(i) => {
                self.vals.set(i, v);
                assert(self.val_seq() =~= vals.update(i as int, v@));
                assert(self@ =~= old(self)@.insert(k@, v@)) by {
                    assert forall|x: K::V| self@.contains_key(x) implies #[trigger] self@[x]
                        == old(self)@.insert(k@, v@)[x] by {
                        let j = keys.index_of(x);
                        assert(keys[j] == x);
                    }
                }
                false
            },
            None => {
                let h = k.code();
                let n = self.keys.len();
                self.keys.push(k);
                self.vals.push(v);
                self.slots.push(h, n, Ghost(codes_of::<K>(keys)));
                assert(self.key_seq() =~= keys.push(k@));
                assert(codes_of::<K>(self.key_seq()) =~= codes_of::<K>(keys).push(h));
                assert(self.val_seq() =~= vals.push(v@));
                proof {
                    let n = keys.len() as int;
                    assert(keys.push(k@)[n] == k@);
                    assert forall|x: K::V| keys.push(k@).contains(x) <==> (x == k@
                        || keys.contains(x)) by {
                        if keys.push(k@).contains(x) {
                            let j = choose|j: int|
                                0 <= j < keys.push(k@).len() && keys.push(k@)[j] == x;
                            if j < n {
                                assert(keys[j] == x);
                            }
                        }
                        if keys.contains(x) {
                            let j = choose|j: int| 0 <= j < keys.len() && keys[j] == x;
                            assert(keys.push(k@)[j] == x);
                        }
                    }
                    assert forall|x: K::V| self@.contains_key(x) implies #[trigger] self@[x]
                        == old(self)@.insert(k@, v@)[x] by {
                        let j = keys.push(k@).index_of(x);
                        assert(keys.push(k@)[j] == x);
                        if x != k@ {
                            assert(j < n);
                            assert(keys[j] == x);
                            assert(keys.index_of(x) == j);
                        } else {
                            assert(j == n);
                        }
                    }
                    assert(self@ =~= old(self)@.insert(k@, v@));
                }
                true
            },
        }
    }

    /// Removes the entry of `k` and returns its value, if there was one.
    pub fn remove(&mut self, k: &K) -> (r: Option<V>)
        requires
            old(self).wf(),
        ensures
            final(self).wf(),
            final(self)@ == old(self)@.remove(k@),
            match r {
                Some(v) => old(self)@.contains_key(k@) && v@ == old(self)@[k@] && v.valid(),
                None => !old(self)@.contains_key(k@),
            },
    {
        proof {
            self.lemma_entries();
        }
        let ghost keys = self.key_seq();
        let ghost vals = self.val_seq();
        match self.position(k) {
            None => {
                assert(self@ =~= old(self)@.remove(k@));
                None
            },
            Some(i) => {
                self.keys.remove(i);
                let v = self.vals.remove(i);
                self.slots = build_slots(&self.keys);
                assert(self.key_seq() =~= keys.remove(i as int));
                assert(self.val_seq() =~= vals.remove(i as int));
                proof {
                    let after = keys.remove(i as int);
                    assert forall|x: K::V| after.contains(x) <==> (x != k@ && keys.contains(
                        x,
                    )) by {
                        if after.contains(x) {
                            let j = choose|j: int| 0 <= j < after.len() && after[j] == x;
                            if j < i {
                                assert(keys[j] == x);
                            } else {
                                assert(keys[j + 1] == x);
                            }
                        }
                        if keys.contains(x) && x != k@ {
                            let j = choose|j: int| 0 <= j < keys.len() && keys[j] == x;
                            if j < i {
                                assert(after[j] == x);
                            } else {
                                assert(after[j - 1] == x);
                            }
                        }
                    }
                    assert forall|x: K::V| self@.contains_key(x) implies #[trigger] self@[x]
                        == old(self)@.remove(k@)[x] by {
                        let j = after.index_of(x);
                        assert(after[j] == x);
                        if j < i {
                            assert(keys[j] == x);
                            assert(keys.index_of(x) == j);
                        } else {
                            assert(keys[j + 1] == x);
                            assert(keys.index_of(x) == j + 1);
                        }
                    }
                    assert(self@ =~= old(self)@.remove(k@));
                }
                Some(v)
            },
        }
    }
}

impl<K: Key, V: DeepClone> DeepClone for VecMap<K, V> {
    open spec fn valid(&self) -> bool {
        self.wf()
    }

    fn deep_clone(&self) -> (r: Self)
        ensures
            r.key_seq() == self.key_seq(),
    {
        let keys = clone_vec(&self.keys);
        let slots = build_slots(&keys);
        let r = VecMap { keys, vals: clone_vec(&self.vals), slots };
        assert(r.key_seq() == self.key_seq());
        assert(r.val_seq() == self.val_seq());
        assert(r@ =~= self@);
        assert(self.wf() ==> r.wf()) by {
            if self.wf() {
                assert forall|i: int| 0 <= i < r.vals@.len() implies (#[trigger] r.vals@[i]).valid() by {
                    assert(self.vals@[i].valid());
                }
            }
        }
        assert(self.valid() ==> r.valid());
        r
    }
}


impl<K: Key + Wire> Wire for KeySet<K> {
    closed spec fn fits(&self) -> bool {
        all_fit(self.items@) && self.items@.len() <= u64::MAX
    }

    closed spec fn wire(&self) -> Seq<u8> {
        wire_list(self.items@)
    }

    /// A set is read as a list of keys; a list that holds a key twice is
    /// refused.
    open spec fn read(bytes: Seq<u8>) -> Option<(Set<K::V>, Seq<u8>)> {
        match read_list::<K>(bytes) {
            Some((keys, rest)) => if keys.no_duplicates() {
                Some((keys.to_set(), rest))
            } else {
                None
            },
            None => None,
        }
    }

    proof fn lemma_read_wire(&self, rest: Seq<u8>) {
        assert(all_valid(self.items@)) by {
            assert forall|i: int| 0 <= i < self.items@.len() implies (#[trigger] self.items@[i]).valid() by {
                self.items@[i].lemma_key_valid();
            }
        }
        lemma_read_wire_list(self.items@, rest);
    }

    fn encode(&self, out: &mut Vec<u8>) {
        proof {
            assert forall|i: int| 0 <= i < self.items@.len() implies (#[trigger] self.items@[i]).valid() by {
                self.items@[i].lemma_key_valid();
            }
        }
        put_list(&self.items, out);
    }

    fn decode(reader: &mut Reader<'_>) -> (r: Option<Self>) {
        let items = match get_list::<K>(reader) {
            Some(items) => items,
            None => {
                return None;
            },
        };
        let slots = match index_if_distinct(&items) {
            Some(slots) => slots,
            None => {
                return None;
            },
        };
        let r = KeySet { items, slots };
        assert(r.valid());
        Some(r)
    }
}

/// The map that pairs each key with the value at its position.
pub open spec fn pairs_map<K, V>(keys: Seq<K>, vals: Seq<V>) -> Map<K, V> {
    Map::new(|k: K| keys.contains(k), |k: K| vals[keys.index_of(k)])
}

impl<K: Key + Wire, V: DeepClone + Wire> Wire for VecMap<K, V> {
    closed spec fn fits(&self) -> bool {
        &&& all_fit(self.keys@)
        &&& self.keys@.len() <= u64::MAX
        &&& all_fit(self.vals@)
        &&& self.vals@.len() <= u64::MAX
    }

    closed spec fn wire(&self) -> Seq<u8> {
        wire_list(self.keys@) + wire_list(self.vals@)
    }

    /// A map is read as a list of keys and a list of values; lists of
    /// different lengths, and a list that holds a key twice, are refused.
    open spec fn read(bytes: Seq<u8>) -> Option<(Map<K::V, V::V>, Seq<u8>)> {
        match read_list::<K>(bytes) {
            Some((keys, after)) => match read_list::<V>(after) {
                Some((vals, rest)) => if keys.len() == vals.len() && keys.no_duplicates() {
                    Some((pairs_map(keys, vals), rest))
                } else {
                    None
                },
                None => None,
            },
            None => None,
        }
    }

    proof fn lemma_read_wire(&self, rest: Seq<u8>) {
        assert(all_valid(self.keys@)) by {
            assert forall|i: int| 0 <= i < self.keys@.len() implies (#[trigger] self.keys@[i]).valid() by {
                self.keys@[i].lemma_key_valid();
            }
        }
        lemma_read_wire_list(self.keys@, wire_list(self.vals@) + rest);
        lemma_read_wire_list(self.vals@, rest);
        lemma_concat_assoc(wire_list(self.keys@), wire_list(self.vals@), rest);
        assert(self@ =~= pairs_map(self.key_seq(), self.val_seq()));
    }

    fn encode(&self, out: &mut Vec<u8>) {
        proof {
            assert forall|i: int| 0 <= i < self.keys@.len() implies (#[trigger] self.keys@[i]).valid() by {
                self.keys@[i].lemma_key_valid();
            }
        }
        let ghost o = old(out)@;
        put_list(&self.keys, out);
        put_list(&self.vals, out);
        proof {
            lemma_concat_assoc(o, wire_list(self.keys@), wire_list(self.vals@));
        }
    }

    fn decode(reader: &mut Reader<'_>) -> (r: Option<Self>) {
        let keys = match get_list::<K>(reader) {
            Some(keys) => keys,
            None => {
                return None;
            },
        };
        let vals = match get_list::<V>(reader) {
            Some(vals) => vals,
            None => {
                return None;
            },
        };
        if keys.len() != vals.len() {
            return None;
        }
        let slots = match index_if_distinct(&keys) {
            Some(slots) => slots,
            None => {
                return None;
            },
        };
        let r = VecMap { keys, vals, slots };
        assert(r@ =~= pairs_map(r.key_seq(), r.val_seq()));
        assert(r.valid());
        Some(r)
    }
}

} // verus!
