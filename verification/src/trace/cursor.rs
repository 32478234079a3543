//! A cursor over a leaf: a position between two bounds that can step, seek
//! and be put elsewhere.
use vstd::prelude::*;
use crate::algebra::Key;
use crate::algebra::Weight;
use crate::decimal::decimal;
use crate::trace::column_leaf::ascending;
use crate::trace::column_leaf::OrderedColumnLeaf;

verus! {

/// What a walk over sorted keys and their weights offers.
///
/// A cursor stands at `position` between `lower` and `upper`; it is valid
/// while it stands below `upper`.
pub trait Cursor<K: Key, R>: Sized {
    /// All keys of the storage that the cursor walks, in order.
    spec fn storage_keys(&self) -> Seq<K>;

    /// The weight of each key of the storage.
    spec fn storage_weights(&self) -> Seq<R>;

    /// The first index that the cursor may stand at.
    spec fn lower(&self) -> int;

    /// The index just past the last one that the cursor may read.
    spec fn upper(&self) -> int;

    /// The index that the cursor stands at.
    spec fn position(&self) -> int;

    /// The cursor stands inside its bounds, the bounds inside the storage,
    /// and the storage is sorted.
    spec fn wf(&self) -> bool;

    /// What `wf` says of the indices and of the keys.
    proof fn lemma_bounds(&self)
        requires
            self.wf(),
        ensures
            0 <= self.lower() <= self.position() <= self.upper() <= self.storage_keys().len(),
            self.storage_keys().len() == self.storage_weights().len(),
            ascending(self.storage_keys()),
    ;

    /// Number of keys between the bounds.
    fn keys(&self) -> (n: usize)
        requires
            self.wf(),
        ensures
            n == self.upper() - self.lower(),
    ;

    /// Whether the cursor stands at an entry.
    fn valid(&self) -> (b: bool)
        requires
            self.wf(),
        ensures
            b == (self.position() < self.upper()),
    ;

    /// The key that the cursor stands at.
    fn key(&self) -> (key: &K)
        requires
            self.wf(),
            self.position() < self.upper(),
        ensures
            *key == self.storage_keys()[self.position()],
    ;

    /// The weight that the cursor stands at.
    fn weight(&self) -> (weight: &R)
        requires
            self.wf(),
            self.position() < self.upper(),
        ensures
            *weight == self.storage_weights()[self.position()],
    ;

    /// Moves on by one entry; past the last one the cursor stands at `upper`.
    fn step(&mut self)
        requires
            old(self).wf(),
        ensures
            final(self).wf(),
            final(self).storage_keys() == old(self).storage_keys(),
            final(self).storage_weights() == old(self).storage_weights(),
            final(self).lower() == old(self).lower(),
            final(self).upper() == old(self).upper(),
            final(self).position() == if old(self).position() + 1 < old(self).upper() {
                old(self).position() + 1
            } else {
                old(self).upper()
            },
    ;

    /// Moves back by one entry; before the first one, and from `upper`, the
    /// cursor stands at `upper`.
    fn step_key_reverse(&mut self)
        requires
            old(self).wf(),
        ensures
            final(self).wf(),
            final(self).storage_keys() == old(self).storage_keys(),
            final(self).storage_weights() == old(self).storage_weights(),
            final(self).lower() == old(self).lower(),
            final(self).upper() == old(self).upper(),
            final(self).position() == if old(self).lower() < old(self).position() < old(self).upper() {
                old(self).position() - 1
            } else {
                old(self).upper()
            },
    ;

    /// Moves to the last entry between the bounds; where there is none the
    /// cursor stands at `upper`.
    fn fast_forward_keys(&mut self)
        requires
            old(self).wf(),
        ensures
            final(self).wf(),
            final(self).storage_keys() == old(self).storage_keys(),
            final(self).storage_weights() == old(self).storage_weights(),
            final(self).lower() == old(self).lower(),
            final(self).upper() == old(self).upper(),
            final(self).position() == if old(self).lower() < old(self).upper() {
                old(self).upper() - 1
            } else {
                old(self).upper()
            },
    ;

    /// Moves forward to the first entry whose key does not come before
    /// `key`, or to `upper` where every remaining key comes before it.
    fn seek(&mut self, key: &K)
        requires
            old(self).wf(),
        ensures
            final(self).wf(),
            final(self).storage_keys() == old(self).storage_keys(),
            final(self).storage_weights() == old(self).storage_weights(),
            final(self).lower() == old(self).lower(),
            final(self).upper() == old(self).upper(),
            old(self).position() <= final(self).position() <= old(self).upper(),
            forall|i: int|
                old(self).position() <= i < final(self).position() ==> (#[trigger] old(self).storage_keys()[i]).less(
                    *key,
                ),
            final(self).position() < old(self).upper() ==> !old(self).storage_keys()[final(self).position()].less(
                *key,
            ),
    ;

    /// The last entry between the bounds, if there is one.
    fn last_key(&self) -> (last: Option<(&K, &R)>)
        requires
            self.wf(),
        ensures
            last is Some <==> self.lower() < self.upper(),
            last matches Some(entry) ==> {
                &&& *entry.0 == self.storage_keys()[self.upper() - 1]
                &&& *entry.1 == self.storage_weights()[self.upper() - 1]
            },
    ;

    /// Moves back to `lower`.
    fn rewind(&mut self)
        requires
            old(self).wf(),
        ensures
            final(self).wf(),
            final(self).storage_keys() == old(self).storage_keys(),
            final(self).storage_weights() == old(self).storage_weights(),
            final(self).lower() == old(self).lower(),
            final(self).upper() == old(self).upper(),
            final(self).position() == final(self).lower(),
    ;

    /// Sets new bounds and moves to the lower one.
    fn reposition(&mut self, lower: usize, upper: usize)
        requires
            old(self).wf(),
            lower <= upper <= old(self).storage_keys().len(),
        ensures
            final(self).wf(),
            final(self).storage_keys() == old(self).storage_keys(),
            final(self).storage_weights() == old(self).storage_weights(),
            final(self).lower() == lower,
            final(self).upper() == upper,
            final(self).position() == lower,
    ;
}

/// The entries with index from `from` up to `upper`, each a key with its
/// weight, in the order of their keys.
pub open spec fn entries<K, R>(keys: Seq<K>, weights: Seq<R>, from: int, upper: int) -> Seq<(K, R)> {
    Seq::new((upper - from) as nat, |i: int| (keys[from + i], weights[from + i]))
}

/// What is said of a cursor that stands at `position`, outside a leaf of
/// `length` entries.
pub open spec fn oob_message(position: usize, length: usize) -> Seq<char> {
    "the cursor was at the invalid position "@ + decimal(position as nat) + " while the leaf was only "@
        + decimal(length as nat) + " elements long"@
}

/// `format!` with `{}` on two `usize`: each number is written in decimal
/// without sign or padding, at its place in the sentence.
#[verifier::external_body]
fn cursor_position_oob(position: usize, length: usize) -> (message: String)
    ensures
        message@ == oob_message(position, length),
{
    format!("the cursor was at the invalid position {position} while the leaf was only {length} elements long")
}

/// A cursor for walking through an [`OrderedColumnLeaf`].
pub struct ColumnLeafCursor<'s, K: Key, R> {
    pos: usize,
    storage: &'s OrderedColumnLeaf<K, R>,
    bounds: (usize, usize),
}

impl<'s, K: Key, R> ColumnLeafCursor<'s, K, R> {
    /// A cursor over `storage` at `pos`, between `bounds.0` and `bounds.1`.
    pub fn new(pos: usize, storage: &'s OrderedColumnLeaf<K, R>, bounds: (usize, usize)) -> (cursor: Self)
        requires
            bounds.0 <= pos <= bounds.1 <= storage.keys().len(),
        ensures
            cursor.wf(),
            cursor.storage_keys() == storage.keys(),
            cursor.storage_weights() == storage.diffs(),
            cursor.position() == pos,
            cursor.lower() == bounds.0,
            cursor.upper() == bounds.1,
    {
        let length = storage.len();
        Self { pos, storage, bounds }
    }

    /// The leaf that the cursor walks.
    pub fn storage(&self) -> (storage: &'s OrderedColumnLeaf<K, R>)
        ensures
            storage.keys() == self.storage_keys(),
            storage.diffs() == self.storage_weights(),
    {
        self.storage
    }

    /// The bounds of the cursor, lower first.
    pub fn bounds(&self) -> (bounds: (usize, usize))
        ensures
            bounds.0 == self.lower(),
            bounds.1 == self.upper(),
    {
        self.bounds
    }

    /// Moves forward to the first entry whose key does not come before
    /// `key`, or to the upper bound where every remaining key comes before
    /// it.
    pub fn seek_key(&mut self, key: &K)
        requires
            old(self).wf(),
        ensures
            final(self).wf(),
            final(self).storage_keys() == old(self).storage_keys(),
            final(self).storage_weights() == old(self).storage_weights(),
            final(self).lower() == old(self).lower(),
            final(self).upper() == old(self).upper(),
            old(self).position() <= final(self).position() <= old(self).upper(),
            forall|i: int|
                old(self).position() <= i < final(self).position() ==> (#[trigger] old(self).storage_keys()[i]).less(
                    *key,
                ),
            final(self).position() < old(self).upper() ==> !old(self).storage_keys()[final(self).position()].less(
                *key,
            ),
    {
        let ghost keys = self.storage.keys();
        let ghost start = self.pos as int;
        let mut low = self.pos;
        let mut high = self.bounds.1;
        while low < high
            invariant
                self.wf(),
                self.pos == start,
                keys == self.storage.keys(),
                start <= low <= high <= self.bounds.1,
                forall|i: int| start <= i < low ==> (#[trigger] keys[i]).less(*key),
                forall|i: int| high <= i < self.bounds.1 ==> !(#[trigger] keys[i]).less(*key),
            decreases high - low,
        {
            let mid = low + (high - low) / 2;
            if self.storage.key_at(mid).lt(key) {
                proof {
                    assert forall|i: int| start <= i < mid + 1 implies (#[trigger] keys[i]).less(*key) by {
                        if i < mid {
                            K::lemma_transitive(keys[i], keys[mid as int], *key);
                        }
                    }
                }
                low = mid + 1;
            } else {
                proof {
                    assert forall|i: int| mid <= i < self.bounds.1 implies !(#[trigger] keys[i]).less(
                        *key,
                    ) by {
                        if mid < i && keys[i].less(*key) {
                            K::lemma_transitive(keys[mid as int], keys[i], *key);
                        }
                    }
                }
                high = mid;
            }
        }
        self.pos = low;
    }

    /// The entry at the cursor's position: its key and its weight. Where
    /// the cursor is not valid, standing at its upper bound, there is none,
    /// and the answer says so with the position and the length of the leaf.
    pub fn try_key(&self) -> (entry: Result<(&K, &R), String>)
        requires
            self.wf(),
        ensures
            entry is Ok <==> self.position() < self.upper(),
            entry matches Ok(found) ==> {
                &&& *found.0 == self.storage_keys()[self.position()]
                &&& *found.1 == self.storage_weights()[self.position()]
            },
            entry matches Err(message) ==> message@ == oob_message(
                self.position() as usize,
                self.storage_keys().len() as usize,
            ),
    {
        if self.pos >= self.bounds.1 {
            return Err(cursor_position_oob(self.pos, self.storage.len()));
        }
        Ok((self.storage.key_at(self.pos), self.storage.diff_at(self.pos)))
    }

    /// The entries from the cursor's position up to its upper bound, in
    /// order: what is left of the walk.
    pub fn remaining(&self) -> (left: Vec<(K, R)>) where R: Weight
        requires
            self.wf(),
        ensures
            left@ == entries(
                self.storage_keys(),
                self.storage_weights(),
                self.position(),
                self.upper(),
            ),
    {
        let mut left: Vec<(K, R)> = Vec::new();
        let mut at = self.pos;
        while at < self.bounds.1
            invariant
                self.wf(),
                self.pos <= at <= self.bounds.1,
                left@ == entries(self.storage.keys(), self.storage.diffs(), self.pos as int, at as int),
            decreases self.bounds.1 - at,
        {
            left.push((self.storage.key_at(at).duplicate(), self.storage.diff_at(at).duplicate()));
            assert(left@ =~= entries(self.storage.keys(), self.storage.diffs(), self.pos as int, at + 1));
            at += 1;
        }
        left
    }

    /// The key at the cursor's position, which must lie inside the leaf.
    pub fn current_key(&self) -> (key: &K)
        requires
            self.wf(),
            self.position() < self.storage_keys().len(),
        ensures
            *key == self.storage_keys()[self.position()],
    {
        self.storage.key_at(self.pos)
    }

    /// The weight at the cursor's position, which must lie inside the leaf.
    pub fn current_diff(&self) -> (diff: &R)
        requires
            self.wf(),
            self.position() < self.storage_keys().len(),
        ensures
            *diff == self.storage_weights()[self.position()],
    {
        self.storage.diff_at(self.pos)
    }
}

impl<'s, K: Key, R> Cursor<K, R> for ColumnLeafCursor<'s, K, R> {
    closed spec fn storage_keys(&self) -> Seq<K> {
        self.storage.keys()
    }

    closed spec fn storage_weights(&self) -> Seq<R> {
        self.storage.diffs()
    }

    closed spec fn lower(&self) -> int {
        self.bounds.0 as int
    }

    closed spec fn upper(&self) -> int {
        self.bounds.1 as int
    }

    closed spec fn position(&self) -> int {
        self.pos as int
    }

    closed spec fn wf(&self) -> bool {
        &&& self.storage.wf()
        &&& self.bounds.0 <= self.pos <= self.bounds.1 <= self.storage.keys().len()
    }

    proof fn lemma_bounds(&self) {
    }

    fn keys(&self) -> (n: usize) {
        self.bounds.1 - self.bounds.0
    }

    fn valid(&self) -> (b: bool) {
        self.pos < self.bounds.1
    }

    fn key(&self) -> (key: &K) {
        self.storage.key_at(self.pos)
    }

    fn weight(&self) -> (weight: &R) {
        self.storage.diff_at(self.pos)
    }

    fn step(&mut self) {
        if self.pos < self.bounds.1 {
            self.pos += 1;
        }
        if !(self.pos < self.bounds.1) {
            self.pos = self.bounds.1;
        }
    }

    fn step_key_reverse(&mut self) {
        if self.pos < self.bounds.1 && self.pos > self.bounds.0 {
            self.pos -= 1;
        } else {
            self.pos = self.bounds.1;
        }
    }

    fn fast_forward_keys(&mut self) {
        if self.bounds.0 < self.bounds.1 {
            self.pos = self.bounds.1 - 1;
        } else {
            self.pos = self.bounds.1;
        }
    }

    fn seek(&mut self, key: &K) {
        self.seek_key(key);
    }

    fn last_key(&self) -> (last: Option<(&K, &R)>) {
        if self.bounds.1 > self.bounds.0 {
            Some((self.storage.key_at(self.bounds.1 - 1), self.storage.diff_at(self.bounds.1 - 1)))
        } else {
            None
        }
    }

    fn rewind(&mut self) {
        self.pos = self.bounds.0;
    }

    fn reposition(&mut self, lower: usize, upper: usize) {
        self.pos = lower;
        self.bounds = (lower, upper);
    }
}

} // verus!
