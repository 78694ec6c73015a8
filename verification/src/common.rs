//! The registry that owns long-lived objects, and the type interner.

use vstd::prelude::*;
use std::collections::HashMap;
use crate::ty::Type;

verus! {

/// An insertion-ordered registry. An item's index is its handle: it is handed
/// out by `push` and names the same slot for as long as the registry lives.
pub struct Context<T> {
    pub(crate) vec: Vec<T>,
}

impl<T> Context<T> {
    /// The items held, in insertion order.
    pub open(crate) spec fn view(&self) -> Seq<T> {
        self.vec@
    }

    /// An empty registry.
    pub fn new() -> (ctxt: Self)
        ensures
            ctxt@ == Seq::<T>::empty(),
    {
        Context { vec: Vec::new() }
    }

    /// Stores `variant` behind all earlier items and returns its handle.
    pub fn push(&mut self, variant: T) -> (id: usize)
        ensures
            id == old(self)@.len(),
            final(self)@ == old(self)@.push(variant),
    {
        let id = self.vec.len();
        self.vec.push(variant);
        id
    }

    /// The number of items held.
    pub fn len(&self) -> (n: usize)
        ensures
            n == self@.len(),
    {
        self.vec.len()
    }

    /// The item behind handle `idx`, if there is one.
    pub fn get(&self, idx: usize) -> (item: Option<&T>)
        ensures
            idx < self@.len() ==> item == Some(&self@[idx as int]),
            idx >= self@.len() ==> item is None,
    {
        if idx < self.vec.len() {
            Some(&self.vec[idx])
        } else {
            None
        }
    }

    /// Exclusive access to the item behind handle `idx`. Whatever the caller
    /// writes through it replaces that item; every other slot keeps its item.
    pub fn get_mut(&mut self, idx: usize) -> (item: &mut T)
        requires
            idx < old(self)@.len(),
        ensures
            *item == old(self)@[idx as int],
            final(self)@ == old(self)@.update(idx as int, *final(item)),
    {
        &mut self.vec[idx]
    }

    /// A cursor over the items in insertion order, starting at the first.
    pub fn iter(&self) -> (iter: ContextIter<'_, T>)
        ensures
            iter.remaining() == self@,
    {
        ContextIter { vec: &self.vec, idx: 0 }
    }
}

/// A cursor over a registry's items.
pub struct ContextIter<'a, T> {
    pub(crate) vec: &'a Vec<T>,
    pub(crate) idx: usize,
}

impl<'a, T> ContextIter<'a, T> {
    /// The items that `next` has yet to hand out, in order.
    pub open(crate) spec fn remaining(&self) -> Seq<T> {
        if self.idx <= self.vec@.len() {
            self.vec@.skip(self.idx as int)
        } else {
            Seq::empty()
        }
    }

    /// Hands out the next item, or `None` once all were handed out.
    pub fn next(&mut self) -> (item: Option<&'a T>)
        ensures
            old(self).remaining().len() == 0 ==> item is None && final(self).remaining()
                == old(self).remaining(),
            old(self).remaining().len() > 0 ==> item == Some(&old(self).remaining()[0])
                && final(self).remaining() == old(self).remaining().skip(1),
    {
        if self.idx >= self.vec.len() {
            None
        } else {
            let ret = &self.vec[self.idx];
            self.idx += 1;
            assert(self.vec@.skip(self.idx as int) =~= old(self).remaining().skip(1));
            Some(ret)
        }
    }
}

/// Deduplicates structural type descriptors. A descriptor's identity is its
/// position in the table of distinct descriptors seen so far; it is assigned
/// when the descriptor is first requested and never changes.
pub struct Interner {
    pub(crate) store: Vec<Type>,
    pub(crate) refs: HashMap<u64, usize>,
}

impl Interner {
    /// Whether no descriptor occurs twice in `table`.
    pub open spec fn canonical(table: Seq<Type>) -> bool {
        forall|i: int, j: int| 0 <= i < j < table.len() ==> table[i] != table[j]
    }

    /// A position of `variant` in `table`; the only one in a canonical table
    /// that holds it.
    pub open spec fn position(table: Seq<Type>, variant: Type) -> int {
        choose|i: int| 0 <= i < table.len() && table[i] == variant
    }

    /// The table after `variant` was requested: unchanged if it already holds
    /// `variant`, else with `variant` behind all earlier descriptors.
    pub open spec fn interned(table: Seq<Type>, variant: Type) -> Seq<Type> {
        if table.contains(variant) {
            table
        } else {
            table.push(variant)
        }
    }

    /// The identity that a request for `variant` yields on `table`.
    pub open spec fn identity(table: Seq<Type>, variant: Type) -> int {
        if table.contains(variant) {
            Self::position(table, variant)
        } else {
            table.len() as int
        }
    }

    /// The integer under which the side table files a descriptor. Distinct
    /// descriptors have distinct keys.
    pub open spec fn key(variant: Type) -> u64 {
        match variant {
            Type::Bool => 0,
            Type::Integer(size) => (size + 1) as u64,
        }
    }

    /// The distinct descriptors seen so far, in the order of their first
    /// request.
    pub open(crate) spec fn view(&self) -> Seq<Type> {
        self.store@
    }

    /// The side table maps the key of each stored descriptor to its position,
    /// and holds nothing else.
    pub open(crate) spec fn wf(&self) -> bool {
        &&& forall|i: int|
            0 <= i < self.store@.len() ==> self.refs@.contains_key(
                Self::key(#[trigger] self.store@[i]),
            ) && self.refs@[Self::key(self.store@[i])] == i
        &&& forall|k: u64| #[trigger]
            self.refs@.contains_key(k) ==> self.refs@[k] < self.store@.len() && Self::key(
                self.store@[self.refs@[k] as int],
            ) == k
    }

    /// A well-formed interner never holds a descriptor twice.
    pub proof fn lemma_canonical(&self)
        requires
            self.wf(),
        ensures
            Self::canonical(self@),
    {
        assert forall|i: int, j: int| 0 <= i < j < self@.len() implies self@[i] != self@[j] by {
            assert(self.refs@[Self::key(self.store@[i])] == i);
            assert(self.refs@[Self::key(self.store@[j])] == j);
        }
    }

    /// An interner that has seen no descriptor.
    pub fn new() -> (interner: Self)
        ensures
            interner.wf(),
            interner@ == Seq::<Type>::empty(),
    {
        broadcast use vstd::std_specs::hash::group_hash_axioms;

        Interner { store: Vec::new(), refs: HashMap::new() }
    }

    fn key_of(variant: Type) -> (k: u64)
        ensures
            k == Self::key(variant),
    {
        match variant {
            Type::Bool => 0,
            Type::Integer(size) => size as u64 + 1,
        }
    }

    /// Returns the identity of `variant`, recording the descriptor if this is
    /// its first request.
    pub fn get(&mut self, variant: Type) -> (id: usize)
        requires
            old(self).wf(),
        ensures
            final(self).wf(),
            final(self)@ == Self::interned(old(self)@, variant),
            id == Self::identity(old(self)@, variant),
    {
        broadcast use vstd::std_specs::hash::group_hash_axioms;

        let k = Self::key_of(variant);
        let found = match self.refs.get(&k) {
            Some(id) => Some(*id),
            None => None,
        };
        match found {
            Some(id) => {
                proof {
                    assert(self.store@[id as int] == variant);
                    assert(self@.contains(variant));
                    let p = Self::position(self@, variant);
                    assert(self.refs@[Self::key(self.store@[p])] == p);
                }
                id
            },
            None => {
                let id = self.store.len();
                proof {
                    if old(self)@.contains(variant) {
                        let i = choose|i: int| 0 <= i < old(self)@.len() && old(self)@[i] == variant;
                        assert(old(self).refs@.contains_key(Self::key(old(self).store@[i])));
                    }
                }
                self.store.push(variant);
                self.refs.insert(k, id);
                proof {
                    assert forall|i: int| 0 <= i < self.store@.len() implies self.refs@.contains_key(
                        Self::key(#[trigger] self.store@[i]),
                    ) && self.refs@[Self::key(self.store@[i])] == i by {
                        if i < id {
                            assert(self.store@[i] == old(self).store@[i]);
                            assert(old(self).refs@.contains_key(Self::key(old(self).store@[i])));
                        }
                    }
                    assert forall|q: u64| #[trigger] self.refs@.contains_key(q) implies self.refs@[q]
                        < self.store@.len() && Self::key(self.store@[self.refs@[q] as int]) == q by {
                        if q != k {
                            assert(old(self).refs@.contains_key(q));
                        }
                    }
                }
                id
            },
        }
    }

    /// The descriptor with identity `id`, if one was assigned it.
    pub fn lookup(&self, id: usize) -> (variant: Option<Type>)
        ensures
            id < self@.len() ==> variant == Some(self@[id as int]),
            id >= self@.len() ==> variant is None,
    {
        if id < self.store.len() {
            Some(self.store[id])
        } else {
            None
        }
    }

    /// The number of distinct descriptors seen so far.
    pub fn len(&self) -> (n: usize)
        ensures
            n == self@.len(),
    {
        self.store.len()
    }

    /// Requesting a descriptor again yields the identity of the first request
    /// and leaves the table as that request left it.
    pub proof fn lemma_intern_idempotent(table: Seq<Type>, variant: Type)
        requires
            Self::canonical(table),
        ensures
            Self::canonical(Self::interned(table, variant)),
            Self::interned(Self::interned(table, variant), variant) == Self::interned(
                table,
                variant,
            ),
            Self::identity(Self::interned(table, variant), variant) == Self::identity(
                table,
                variant,
            ),
            0 <= Self::identity(table, variant) < Self::interned(table, variant).len(),
            Self::interned(table, variant)[Self::identity(table, variant)] == variant,
    {
        let after = Self::interned(table, variant);
        let id = Self::identity(table, variant);
        if table.contains(variant) {
            let w = choose|i: int| 0 <= i < table.len() && table[i] == variant;
            assert(0 <= id < table.len() && table[id] == variant);
        } else {
            assert(after[table.len() as int] == variant);
            assert(after.contains(variant));
            assert forall|i: int, j: int| 0 <= i < j < after.len() implies after[i] != after[j] by {
                if j == table.len() {
                    if after[i] == variant {
                        assert(table[i] == variant);
                        assert(table.contains(variant));
                    }
                }
            }
            let p = Self::position(after, variant);
            assert(0 <= p < after.len() && after[p] == variant);
            if p != table.len() {
                assert(table[p] == variant);
                assert(table.contains(variant));
            }
        }
    }

    /// Two requests in a row yield the same identity exactly when they are for
    /// the same descriptor.
    pub proof fn lemma_intern_distinguishes(table: Seq<Type>, first: Type, second: Type)
        requires
            Self::canonical(table),
        ensures
            (Self::identity(Self::interned(table, first), second) == Self::identity(table, first))
                <==> first == second,
    {
        Self::lemma_intern_idempotent(table, first);
        let mid = Self::interned(table, first);
        Self::lemma_intern_idempotent(mid, second);
        let a = Self::identity(table, first);
        let b = Self::identity(mid, second);
        if first != second && a == b {
            let last = Self::interned(mid, second);
            assert(last[b] == second);
            assert(mid[a] == first);
            if mid.contains(second) {
                assert(last == mid);
            } else {
                assert(b == mid.len());
            }
        }
    }

    /// A request never changes the identity of a descriptor seen before.
    pub proof fn lemma_intern_keeps(table: Seq<Type>, variant: Type, id: int)
        requires
            0 <= id < table.len(),
        ensures
            id < Self::interned(table, variant).len(),
            Self::interned(table, variant)[id] == table[id],
    {
    }
}

} // verus!
