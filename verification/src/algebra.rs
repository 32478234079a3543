//! What a leaf asks of its keys and weights.
use vstd::prelude::*;

verus! {

/// A key of a leaf: a value with a strict total order.
pub trait Key: Sized {
    /// `self` comes strictly before `other`.
    spec fn less(self, other: Self) -> bool;

    /// No key comes before itself.
    proof fn lemma_irreflexive(a: Self)
        ensures
            !a.less(a),
    ;

    /// The order is transitive.
    proof fn lemma_transitive(a: Self, b: Self, c: Self)
        requires
            a.less(b),
            b.less(c),
        ensures
            a.less(c),
    ;

    /// Of two different keys one comes before the other.
    proof fn lemma_total(a: Self, b: Self)
        ensures
            a.less(b) || b.less(a) || a == b,
    ;

    /// Whether `self` comes strictly before `other`.
    fn lt(&self, other: &Self) -> (r: bool)
        ensures
            r == self.less(*other),
    ;

    /// A copy of the key.
    fn duplicate(&self) -> (r: Self)
        ensures
            r == *self,
    ;
}

/// A weight of a leaf: a multiplicity that may be zero.
pub trait Weight: Sized {
    /// The weight says that the key is not there.
    spec fn zero(self) -> bool;

    /// Whether the weight is zero.
    fn is_zero(&self) -> (r: bool)
        ensures
            r == self.zero(),
    ;

    /// A copy of the weight.
    fn duplicate(&self) -> (r: Self)
        ensures
            r == *self,
    ;
}

impl Key for u32 {
    open spec fn less(self, other: Self) -> bool {
        self < other
    }

    proof fn lemma_irreflexive(a: Self) {
    }

    proof fn lemma_transitive(a: Self, b: Self, c: Self) {
    }

    proof fn lemma_total(a: Self, b: Self) {
    }

    fn lt(&self, other: &Self) -> (r: bool) {
        *self < *other
    }

    fn duplicate(&self) -> (r: Self) {
        *self
    }
}

impl Key for u64 {
    open spec fn less(self, other: Self) -> bool {
        self < other
    }

    proof fn lemma_irreflexive(a: Self) {
    }

    proof fn lemma_transitive(a: Self, b: Self, c: Self) {
    }

    proof fn lemma_total(a: Self, b: Self) {
    }

    fn lt(&self, other: &Self) -> (r: bool) {
        *self < *other
    }

    fn duplicate(&self) -> (r: Self) {
        *self
    }
}

impl Key for usize {
    open spec fn less(self, other: Self) -> bool {
        self < other
    }

    proof fn lemma_irreflexive(a: Self) {
    }

    proof fn lemma_transitive(a: Self, b: Self, c: Self) {
    }

    proof fn lemma_total(a: Self, b: Self) {
    }

    fn lt(&self, other: &Self) -> (r: bool) {
        *self < *other
    }

    fn duplicate(&self) -> (r: Self) {
        *self
    }
}

impl Key for i32 {
    open spec fn less(self, other: Self) -> bool {
        self < other
    }

    proof fn lemma_irreflexive(a: Self) {
    }

    proof fn lemma_transitive(a: Self, b: Self, c: Self) {
    }

    proof fn lemma_total(a: Self, b: Self) {
    }

    fn lt(&self, other: &Self) -> (r: bool) {
        *self < *other
    }

    fn duplicate(&self) -> (r: Self) {
        *self
    }
}

impl Key for i64 {
    open spec fn less(self, other: Self) -> bool {
        self < other
    }

    proof fn lemma_irreflexive(a: Self) {
    }

    proof fn lemma_transitive(a: Self, b: Self, c: Self) {
    }

    proof fn lemma_total(a: Self, b: Self) {
    }

    fn lt(&self, other: &Self) -> (r: bool) {
        *self < *other
    }

    fn duplicate(&self) -> (r: Self) {
        *self
    }
}

impl Weight for i32 {
    open spec fn zero(self) -> bool {
        self == 0
    }

    fn is_zero(&self) -> (r: bool) {
        *self == 0
    }

    fn duplicate(&self) -> (r: Self) {
        *self
    }
}

impl Weight for i64 {
    open spec fn zero(self) -> bool {
        self == 0
    }

    fn is_zero(&self) -> (r: bool) {
        *self == 0
    }

    fn duplicate(&self) -> (r: Self) {
        *self
    }
}

impl Weight for isize {
    open spec fn zero(self) -> bool {
        self == 0
    }

    fn is_zero(&self) -> (r: bool) {
        *self == 0
    }

    fn duplicate(&self) -> (r: Self) {
        *self
    }
}

} // verus!
