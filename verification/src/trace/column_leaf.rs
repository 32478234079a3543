//! A leaf: keys in strictly ascending order, each with its weight.
use vstd::prelude::*;
use crate::algebra::Key;

verus! {

/// `keys` are in strictly ascending order.
pub open spec fn ascending<K: Key>(keys: Seq<K>) -> bool {
    forall|i: int, j: int| 0 <= i < j < keys.len() ==> (#[trigger] keys[i]).less(#[trigger] keys[j])
}

/// A leaf of sorted keys with a weight for each.
pub struct OrderedColumnLeaf<K: Key, R> {
    keys: Vec<K>,
    diffs: Vec<R>,
}

impl<K: Key, R> OrderedColumnLeaf<K, R> {
    /// The keys, in order.
    pub closed spec fn keys(&self) -> Seq<K> {
        self.keys@
    }

    /// The weight of each key, by the key's index.
    pub closed spec fn diffs(&self) -> Seq<R> {
        self.diffs@
    }

    /// Every key has a weight and the keys ascend strictly.
    pub open spec fn wf(&self) -> bool {
        &&& self.keys().len() == self.diffs().len()
        &&& ascending(self.keys())
    }

    /// A leaf is always well formed.
    #[verifier::type_invariant]
    closed spec fn inv(&self) -> bool {
        &&& self.keys@.len() == self.diffs@.len()
        &&& ascending(self.keys@)
    }

    /// A leaf without keys.
    pub fn empty() -> (leaf: Self)
        ensures
            leaf.wf(),
            leaf.keys().len() == 0,
    {
        OrderedColumnLeaf { keys: Vec::new(), diffs: Vec::new() }
    }

    /// Builds a leaf from keys and their weights, or nothing where there are
    /// not as many weights as keys or the keys do not ascend strictly.
    pub fn from_parts(keys: Vec<K>, diffs: Vec<R>) -> (leaf: Option<Self>)
        ensures
            leaf is Some <==> (keys@.len() == diffs@.len() && ascending(keys@)),
            leaf matches Some(l) ==> l.wf() && l.keys() == keys@ && l.diffs() == diffs@,
    {
        if keys.len() != diffs.len() {
            return None;
        }
        let mut i: usize = 1;
        while i < keys.len()
            invariant
                1 <= i,
                forall|a: int, b: int| 0 <= a < b < i && b < keys.len() ==> (#[trigger] keys[a]).less(#[trigger] keys[b]),
            decreases keys.len() - i,
        {
            if !keys[i - 1].lt(&keys[i]) {
                return None;
            }
            proof {
                assert forall|a: int, b: int| 0 <= a < b < i + 1 implies (#[trigger] keys[a]).less(
                    #[trigger] keys[b],
                ) by {
                    if b == i && a < i - 1 {
                        K::lemma_transitive(keys[a], keys[i - 1], keys[i as int]);
                    }
                }
            }
            i += 1;
        }
        Some(OrderedColumnLeaf { keys, diffs })
    }

    /// Number of keys. A leaf is always well formed.
    pub fn len(&self) -> (n: usize)
        ensures
            n == self.keys().len(),
            self.wf(),
    {
        proof {
            use_type_invariant(self);
        }
        self.keys.len()
    }

    /// Whether the leaf has no key.
    pub fn is_empty(&self) -> (b: bool)
        ensures
            b == (self.keys().len() == 0),
    {
        self.keys.len() == 0
    }

    /// The key at `index`.
    pub fn key_at(&self, index: usize) -> (key: &K)
        requires
            index < self.keys().len(),
        ensures
            *key == self.keys()[index as int],
    {
        &self.keys[index]
    }

    /// The weight at `index`.
    pub fn diff_at(&self, index: usize) -> (diff: &R)
        requires
            index < self.diffs().len(),
        ensures
            *diff == self.diffs()[index as int],
    {
        &self.diffs[index]
    }
}

} // verus!
