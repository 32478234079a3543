//! The top-k group transform: of the entries of one group, the first `k`
//! that are there at all, from the lowest key up or from the highest down.
use vstd::prelude::*;
use std::marker::PhantomData;
use crate::algebra::Key;
use crate::algebra::Weight;
use crate::decimal::decimal;
use crate::trace::column_leaf::ascending;
use crate::trace::cursor::entries;
use crate::trace::cursor::Cursor;

verus! {

/// The order in which a group transform hands out its keys.
#[derive(Clone, Copy, Debug, PartialEq, Eq, Structural)]
pub enum Monotonicity {
    /// No order is promised.
    Unordered,
    /// Keys come out lowest first.
    Ascending,
    /// Keys come out highest first.
    Descending,
}

/// The name of the transform that keeps `k` entries: `top-`, the number in
/// decimal, and `-asc` or `-desc`.
pub open spec fn topk_name(k: usize, asc: bool) -> Seq<char> {
    "top-"@ + decimal(k as nat) + if asc {
        "-asc"@
    } else {
        "-desc"@
    }
}

/// The entries that a scan hands out: starting at index `from` and going up
/// to `upper`, the first `limit` entries whose weight is not zero.
pub open spec fn first_entries<K, R: Weight>(
    keys: Seq<K>,
    weights: Seq<R>,
    from: int,
    upper: int,
    limit: nat,
) -> Seq<(K, R)>
    decreases upper - from,
{
    if from >= upper || limit == 0 {
        Seq::empty()
    } else if weights[from].zero() {
        first_entries(keys, weights, from + 1, upper, limit)
    } else {
        seq![(keys[from], weights[from])] + first_entries(keys, weights, from + 1, upper, (limit - 1) as nat)
    }
}

/// Where the scan of [`first_entries`] ends: at `upper` when the entries
/// ran out, else just past the last entry handed out.
pub open spec fn first_entries_end<R: Weight>(weights: Seq<R>, from: int, upper: int, limit: nat) -> int
    decreases upper - from,
{
    if from >= upper {
        upper
    } else if limit == 0 {
        from
    } else if weights[from].zero() {
        first_entries_end(weights, from + 1, upper, limit)
    } else {
        first_entries_end(weights, from + 1, upper, (limit - 1) as nat)
    }
}

/// The entries that a scan from the top hands out: starting at index `from`
/// and going down to `lower`, the first `limit` entries whose weight is not
/// zero.
pub open spec fn last_entries<K, R: Weight>(
    keys: Seq<K>,
    weights: Seq<R>,
    lower: int,
    from: int,
    limit: nat,
) -> Seq<(K, R)>
    decreases from - lower + 1,
{
    if from < lower || limit == 0 {
        Seq::empty()
    } else if weights[from].zero() {
        last_entries(keys, weights, lower, from - 1, limit)
    } else {
        seq![(keys[from], weights[from])] + last_entries(keys, weights, lower, from - 1, (limit - 1) as nat)
    }
}

/// Where the scan of [`last_entries`] ends: at `upper` when the entries ran
/// out, else just below the last entry handed out.
pub open spec fn last_entries_end<R: Weight>(
    weights: Seq<R>,
    lower: int,
    upper: int,
    from: int,
    limit: nat,
) -> int
    decreases from - lower + 1,
{
    if from < lower {
        upper
    } else if limit == 0 {
        from
    } else if weights[from].zero() {
        last_entries_end(weights, lower, upper, from - 1, limit)
    } else {
        last_entries_end(weights, lower, upper, from - 1, (limit - 1) as nat)
    }
}

/// The test whether an entry is there at all: its weight is not zero.
pub open spec fn is_present<K, R: Weight>() -> spec_fn((K, R)) -> bool {
    |entry: (K, R)| !entry.1.zero()
}

/// The first `limit` items of `s`, or all of them where there are fewer.
pub open spec fn first_of<A>(s: Seq<A>, limit: nat) -> Seq<A> {
    if limit < s.len() {
        s.take(limit as int)
    } else {
        s
    }
}

proof fn lemma_first_of_prepended<A>(x: A, s: Seq<A>, limit: nat)
    requires
        limit > 0,
    ensures
        first_of(seq![x] + s, limit) == seq![x] + first_of(s, (limit - 1) as nat),
{
    assert(first_of(seq![x] + s, limit) =~= seq![x] + first_of(s, (limit - 1) as nat));
}

/// What an ascending scan hands out is the run of entries from `from` on,
/// without those of weight zero, cut after `limit` entries.
pub proof fn lemma_first_entries<K, R: Weight>(
    keys: Seq<K>,
    weights: Seq<R>,
    from: int,
    upper: int,
    limit: nat,
)
    requires
        0 <= from <= upper <= keys.len(),
        keys.len() == weights.len(),
    ensures
        first_entries(keys, weights, from, upper, limit) == first_of(
            entries(keys, weights, from, upper).filter(is_present::<K, R>()),
            limit,
        ),
    decreases upper - from,
{
    let all = entries(keys, weights, from, upper);
    let present = is_present::<K, R>();
    if from >= upper {
        assert(all =~= Seq::<(K, R)>::empty());
        assert(first_of(all.filter(present), limit) =~= Seq::<(K, R)>::empty());
    } else {
        let entry = (keys[from], weights[from]);
        let rest = entries(keys, weights, from + 1, upper);
        assert(all =~= seq![entry] + rest);
        rest.lemma_filter_prepend(entry, present);
        if limit == 0 {
            assert(first_of(all.filter(present), limit) =~= Seq::<(K, R)>::empty());
        } else if weights[from].zero() {
            lemma_first_entries(keys, weights, from + 1, upper, limit);
            assert(Seq::<(K, R)>::empty() + rest.filter(present) =~= rest.filter(present));
        } else {
            lemma_first_entries(keys, weights, from + 1, upper, (limit - 1) as nat);
            lemma_first_of_prepended(entry, rest.filter(present), limit);
        }
    }
}

/// What a descending scan hands out is the run of entries from `lower` up
/// to `from`, read from the top down, without those of weight zero, cut
/// after `limit` entries.
pub proof fn lemma_last_entries<K, R: Weight>(
    keys: Seq<K>,
    weights: Seq<R>,
    lower: int,
    from: int,
    limit: nat,
)
    requires
        0 <= lower <= from + 1 <= keys.len(),
        keys.len() == weights.len(),
    ensures
        last_entries(keys, weights, lower, from, limit) == first_of(
            entries(keys, weights, lower, from + 1).reverse().filter(is_present::<K, R>()),
            limit,
        ),
    decreases from - lower + 1,
{
    let all = entries(keys, weights, lower, from + 1).reverse();
    let present = is_present::<K, R>();
    if from < lower {
        assert(all =~= Seq::<(K, R)>::empty());
        assert(first_of(all.filter(present), limit) =~= Seq::<(K, R)>::empty());
    } else {
        let entry = (keys[from], weights[from]);
        let rest = entries(keys, weights, lower, from).reverse();
        assert(all =~= seq![entry] + rest);
        rest.lemma_filter_prepend(entry, present);
        if limit == 0 {
            assert(first_of(all.filter(present), limit) =~= Seq::<(K, R)>::empty());
        } else if weights[from].zero() {
            lemma_last_entries(keys, weights, lower, from - 1, limit);
            assert(Seq::<(K, R)>::empty() + rest.filter(present) =~= rest.filter(present));
        } else {
            lemma_last_entries(keys, weights, lower, from - 1, (limit - 1) as nat);
            lemma_first_of_prepended(entry, rest.filter(present), limit);
        }
    }
}

/// `entry` is one of the entries with index from `from` up to `upper`, and
/// its weight is not zero.
pub open spec fn is_entry_within<K, R: Weight>(
    keys: Seq<K>,
    weights: Seq<R>,
    from: int,
    upper: int,
    entry: (K, R),
) -> bool {
    exists|i: int| from <= i < upper && #[trigger] keys[i] == entry.0 && weights[i] == entry.1 && !weights[i].zero()
}

/// The keys of the entries come in strictly ascending order.
pub open spec fn keys_ascend<K: Key, R>(out: Seq<(K, R)>) -> bool {
    forall|i: int, j: int| 0 <= i < j < out.len() ==> (#[trigger] out[i]).0.less((#[trigger] out[j]).0)
}

/// The keys of the entries come in strictly descending order.
pub open spec fn keys_descend<K: Key, R>(out: Seq<(K, R)>) -> bool {
    forall|i: int, j: int| 0 <= i < j < out.len() ==> (#[trigger] out[j]).0.less((#[trigger] out[i]).0)
}

/// An ascending scan over sorted keys hands out at most `limit` entries,
/// each an entry of the range with a weight other than zero, with keys in
/// strictly ascending order.
pub proof fn lemma_ascending_output<K: Key, R: Weight>(
    keys: Seq<K>,
    weights: Seq<R>,
    from: int,
    upper: int,
    limit: nat,
)
    requires
        ascending(keys),
        0 <= from <= upper <= keys.len(),
        keys.len() == weights.len(),
    ensures
        first_entries(keys, weights, from, upper, limit).len() <= limit,
        forall|j: int|
            0 <= j < first_entries(keys, weights, from, upper, limit).len() ==> is_entry_within(
                keys,
                weights,
                from,
                upper,
                #[trigger] first_entries(keys, weights, from, upper, limit)[j],
            ),
        keys_ascend(first_entries(keys, weights, from, upper, limit)),
    decreases upper - from,
{
    let out = first_entries(keys, weights, from, upper, limit);
    if from >= upper || limit == 0 {
    } else if weights[from].zero() {
        lemma_ascending_output(keys, weights, from + 1, upper, limit);
        let rest = first_entries(keys, weights, from + 1, upper, limit);
        assert forall|j: int| 0 <= j < out.len() implies is_entry_within(
            keys,
            weights,
            from,
            upper,
            #[trigger] out[j],
        ) by {
            assert(is_entry_within(keys, weights, from + 1, upper, rest[j]));
        }
    } else {
        lemma_ascending_output(keys, weights, from + 1, upper, (limit - 1) as nat);
        let rest = first_entries(keys, weights, from + 1, upper, (limit - 1) as nat);
        let entry = (keys[from], weights[from]);
        assert(out =~= seq![entry] + rest);
        assert forall|j: int| 0 <= j < out.len() implies is_entry_within(
            keys,
            weights,
            from,
            upper,
            #[trigger] out[j],
        ) by {
            if j > 0 {
                assert(out[j] == rest[j - 1]);
                assert(is_entry_within(keys, weights, from + 1, upper, rest[j - 1]));
            } else {
                assert(keys[from] == entry.0);
            }
        }
        assert forall|i: int, j: int| 0 <= i < j < out.len() implies (#[trigger] out[i]).0.less(
            (#[trigger] out[j]).0,
        ) by {
            assert(out[j] == rest[j - 1]);
            if i == 0 {
                assert(is_entry_within(keys, weights, from + 1, upper, rest[j - 1]));
                let at = choose|at: int|
                    from + 1 <= at < upper && #[trigger] keys[at] == rest[j - 1].0 && weights[at] == rest[j
                        - 1].1 && !weights[at].zero();
                assert(keys[from].less(keys[at]));
            } else {
                assert(out[i] == rest[i - 1]);
            }
        }
    }
}

/// A descending scan over sorted keys hands out at most `limit` entries,
/// each an entry of the range with a weight other than zero, with keys in
/// strictly descending order.
pub proof fn lemma_descending_output<K: Key, R: Weight>(
    keys: Seq<K>,
    weights: Seq<R>,
    lower: int,
    from: int,
    limit: nat,
)
    requires
        ascending(keys),
        0 <= lower <= from + 1 <= keys.len(),
        keys.len() == weights.len(),
    ensures
        last_entries(keys, weights, lower, from, limit).len() <= limit,
        forall|j: int|
            0 <= j < last_entries(keys, weights, lower, from, limit).len() ==> is_entry_within(
                keys,
                weights,
                lower,
                from + 1,
                #[trigger] last_entries(keys, weights, lower, from, limit)[j],
            ),
        keys_descend(last_entries(keys, weights, lower, from, limit)),
    decreases from - lower + 1,
{
    let out = last_entries(keys, weights, lower, from, limit);
    if from < lower || limit == 0 {
    } else if weights[from].zero() {
        lemma_descending_output(keys, weights, lower, from - 1, limit);
        let rest = last_entries(keys, weights, lower, from - 1, limit);
        assert forall|j: int| 0 <= j < out.len() implies is_entry_within(
            keys,
            weights,
            lower,
            from + 1,
            #[trigger] out[j],
        ) by {
            assert(is_entry_within(keys, weights, lower, from, rest[j]));
        }
    } else {
        lemma_descending_output(keys, weights, lower, from - 1, (limit - 1) as nat);
        let rest = last_entries(keys, weights, lower, from - 1, (limit - 1) as nat);
        let entry = (keys[from], weights[from]);
        assert(out =~= seq![entry] + rest);
        assert forall|j: int| 0 <= j < out.len() implies is_entry_within(
            keys,
            weights,
            lower,
            from + 1,
            #[trigger] out[j],
        ) by {
            if j > 0 {
                assert(out[j] == rest[j - 1]);
                assert(is_entry_within(keys, weights, lower, from, rest[j - 1]));
            } else {
                assert(keys[from] == entry.0);
            }
        }
        assert forall|i: int, j: int| 0 <= i < j < out.len() implies (#[trigger] out[j]).0.less(
            (#[trigger] out[i]).0,
        ) by {
            assert(out[j] == rest[j - 1]);
            if i == 0 {
                assert(is_entry_within(keys, weights, lower, from, rest[j - 1]));
                let at = choose|at: int|
                    lower <= at < from && #[trigger] keys[at] == rest[j - 1].0 && weights[at] == rest[j - 1].1
                        && !weights[at].zero();
                assert(keys[at].less(keys[from]));
            } else {
                assert(out[i] == rest[i - 1]);
            }
        }
    }
}

/// `format!` with `{}` on a `usize` and on two string slices: the number is
/// written in decimal without sign or padding, between the two slices.
#[verifier::external_body]
fn format_name(prefix: &str, k: usize, suffix: &str) -> (name: String)
    ensures
        name@ == prefix@ + decimal(k as nat) + suffix@,
{
    format!("{prefix}{k}{suffix}")
}

/// A transform that reads the entries of one group through a cursor and
/// hands out entries of its own. It works the group through from scratch
/// each time it is asked.
pub trait NonIncrementalGroupTransformer<I: Key, R: Weight> {
    /// A name for the transform, for messages.
    fn name(&self) -> &str;

    /// The order in which the transform hands out its keys.
    fn monotonicity(&self) -> Monotonicity;

    /// Reads the group that `cursor` stands in and appends what the
    /// transform makes of it to `output`. The cursor keeps its storage and
    /// its bounds.
    fn transform<C: Cursor<I, R>>(&self, cursor: &mut C, output: &mut Vec<(I, R)>)
        requires
            old(cursor).wf(),
        ensures
            final(cursor).wf(),
            final(cursor).storage_keys() == old(cursor).storage_keys(),
            final(cursor).storage_weights() == old(cursor).storage_weights(),
            final(cursor).lower() == old(cursor).lower(),
            final(cursor).upper() == old(cursor).upper(),
            old(output)@.is_prefix_of(final(output)@),
    ;
}

/// A group transform that keeps the first `k` entries of a group, from the
/// lowest key up or from the highest key down, and drops the rest.
pub struct TopK<I, R> {
    k: usize,
    name: String,
    asc: bool,
    _phantom: PhantomData<(I, R)>,
}

impl<I: Key, R: Weight> TopK<I, R> {
    /// Number of entries that the transform keeps.
    pub closed spec fn limit(&self) -> usize {
        self.k
    }

    /// Whether the transform scans from the lowest key up.
    pub closed spec fn ascending(&self) -> bool {
        self.asc
    }

    /// The name given to the transform when it was made.
    pub closed spec fn spec_name(&self) -> Seq<char> {
        self.name@
    }

    /// The order in which the transform hands out its keys: that of its
    /// scan.
    pub open spec fn spec_monotonicity(&self) -> Monotonicity {
        if self.ascending() {
            Monotonicity::Ascending
        } else {
            Monotonicity::Descending
        }
    }

    /// The transform that keeps the `k` lowest keys.
    pub fn asc(k: usize) -> (topk: Self)
        ensures
            topk.limit() == k,
            topk.ascending(),
            topk.spec_monotonicity() == Monotonicity::Ascending,
            topk.spec_name() == topk_name(k, true),
    {
        Self { k, name: format_name("top-", k, "-asc"), asc: true, _phantom: PhantomData }
    }

    /// The transform that keeps the `k` highest keys.
    pub fn desc(k: usize) -> (topk: Self)
        ensures
            topk.limit() == k,
            !topk.ascending(),
            topk.spec_monotonicity() == Monotonicity::Descending,
            topk.spec_name() == topk_name(k, false),
    {
        Self { k, name: format_name("top-", k, "-desc"), asc: false, _phantom: PhantomData }
    }
}

impl<I: Key, R: Weight> NonIncrementalGroupTransformer<I, R> for TopK<I, R> {
    /// The name of the transform.
    fn name(&self) -> (name: &str)
        ensures
            name@ == self.spec_name(),
    {
        self.name.as_str()
    }

    /// Ascending for a transform made by `asc`, descending for one made by
    /// `desc`.
    fn monotonicity(&self) -> (order: Monotonicity)
        ensures
            order == self.spec_monotonicity(),
    {
        if self.asc {
            Monotonicity::Ascending
        } else {
            Monotonicity::Descending
        }
    }

    /// Scans the group that `cursor` stands in and appends the entries kept
    /// to `output`.
    ///
    /// Ascending, the scan starts where the cursor stands and goes up;
    /// descending, it starts at the last entry between the bounds and goes
    /// down. An entry with weight zero is passed over and does not count.
    fn transform<C: Cursor<I, R>>(&self, cursor: &mut C, output: &mut Vec<(I, R)>)
        ensures
            self.ascending() ==> {
                &&& final(output)@ == old(output)@ + first_entries(
                    old(cursor).storage_keys(),
                    old(cursor).storage_weights(),
                    old(cursor).position(),
                    old(cursor).upper(),
                    self.limit() as nat,
                )
                &&& final(cursor).position() == first_entries_end(
                    old(cursor).storage_weights(),
                    old(cursor).position(),
                    old(cursor).upper(),
                    self.limit() as nat,
                )
            },
            !self.ascending() ==> {
                &&& final(output)@ == old(output)@ + last_entries(
                    old(cursor).storage_keys(),
                    old(cursor).storage_weights(),
                    old(cursor).lower(),
                    old(cursor).upper() - 1,
                    self.limit() as nat,
                )
                &&& final(cursor).position() == last_entries_end(
                    old(cursor).storage_weights(),
                    old(cursor).lower(),
                    old(cursor).upper(),
                    old(cursor).upper() - 1,
                    self.limit() as nat,
                )
            },
    {
        let ghost keys = cursor.storage_keys();
        let ghost weights = cursor.storage_weights();
        let ghost lower = cursor.lower();
        let ghost upper = cursor.upper();
        let ghost start = cursor.position();
        let ghost before = output@;
        proof {
            cursor.lemma_bounds();
        }
        let mut count: usize = 0;

        if self.asc {
            let ghost all = first_entries(keys, weights, start, upper, self.k as nat);
            let ghost end = first_entries_end(weights, start, upper, self.k as nat);
            assert(before + all =~= output@ + all);
            while cursor.valid() && count < self.k
                invariant
                    cursor.wf(),
                    keys == cursor.storage_keys(),
                    weights == cursor.storage_weights(),
                    upper == cursor.upper(),
                    lower == cursor.lower(),
                    count <= self.k,
                    before + all == output@ + first_entries(
                        keys,
                        weights,
                        cursor.position(),
                        upper,
                        (self.k - count) as nat,
                    ),
                    end == first_entries_end(weights, cursor.position(), upper, (self.k - count) as nat),
                decreases upper - cursor.position(),
            {
                proof {
                    cursor.lemma_bounds();
                }
                let ghost at = cursor.position();
                let ghost rest = first_entries(keys, weights, at + 1, upper, (self.k - count - 1) as nat);
                let w = cursor.weight();
                if !w.is_zero() {
                    let entry = (cursor.key().duplicate(), w.duplicate());
                    assert(output@.push(entry) + rest =~= output@ + (seq![entry] + rest));
                    output.push(entry);
                    count += 1;
                }
                cursor.step();
            }
            proof {
                cursor.lemma_bounds();
                assert(output@ + Seq::<(I, R)>::empty() =~= output@);
            }
        } else {
            let ghost all = last_entries(keys, weights, lower, upper - 1, self.k as nat);
            let ghost end = last_entries_end(weights, lower, upper, upper - 1, self.k as nat);
            cursor.fast_forward_keys();
            assert(before + all =~= output@ + all);
            while cursor.valid() && count < self.k
                invariant
                    cursor.wf(),
                    keys == cursor.storage_keys(),
                    weights == cursor.storage_weights(),
                    upper == cursor.upper(),
                    lower == cursor.lower(),
                    count <= self.k,
                    before + all == output@ + last_entries(
                        keys,
                        weights,
                        lower,
                        if cursor.position() < upper {
                            cursor.position()
                        } else {
                            lower - 1
                        },
                        (self.k - count) as nat,
                    ),
                    end == last_entries_end(
                        weights,
                        lower,
                        upper,
                        if cursor.position() < upper {
                            cursor.position()
                        } else {
                            lower - 1
                        },
                        (self.k - count) as nat,
                    ),
                decreases
                        if cursor.position() < upper {
                            cursor.position() - lower + 1
                        } else {
                            0
                        },
            {
                proof {
                    cursor.lemma_bounds();
                }
                let ghost at = cursor.position();
                let ghost rest = last_entries(keys, weights, lower, at - 1, (self.k - count - 1) as nat);
                let w = cursor.weight();
                if !w.is_zero() {
                    let entry = (cursor.key().duplicate(), w.duplicate());
                    assert(output@.push(entry) + rest =~= output@ + (seq![entry] + rest));
                    output.push(entry);
                    count += 1;
                }
                cursor.step_key_reverse();
            }
            proof {
                cursor.lemma_bounds();
                assert(output@ + Seq::<(I, R)>::empty() =~= output@);
            }
        }
    }
}

} // verus!
