//! A compact string: one handle that owns a block of a length, a capacity
//! and the bytes themselves.
//!
//! The empty string owns no block. Every empty handle stands for the same
//! shared instance, which is never written to.
//!
//! A string can leave its handle for a plain number that fits a field of a
//! row, and come back from it. An arena keeps the block in the meantime, so
//! that the number is the block's only owner: it is given back once. The
//! number belongs to the block: a string that came back and leaves again
//! leaves for the same number.
use vstd::prelude::*;
use vstd::layout::layout_of_primitives;
use vstd::slice::slice_subrange;
use vstd::string::StringSliceAdditionalSpecFns;
use vstd::utf8::encode_utf8_valid_utf8;
use vstd::utf8::valid_utf8;
use std::cmp::Ordering;

verus! {

/// The block that a non-empty handle owns.
struct StrHeader {
    length: usize,
    capacity: usize,
    data: Vec<u8>,
    /// The raw handle that the block last rested under, or the null handle
    /// where it never left its string.
    home: usize,
}

/// A string held through a single handle.
pub struct ThinStr {
    buf: Option<Box<StrHeader>>,
}

/// A borrowed [`ThinStr`].
pub struct ThinStrRef<'a> {
    string: &'a ThinStr,
}

impl View for ThinStr {
    type V = Seq<u8>;

    /// The bytes of the string.
    closed spec fn view(&self) -> Seq<u8> {
        match self.buf {
            Some(header) => header.data@.subrange(0, header.length as int),
            None => Seq::empty(),
        }
    }
}

/// `a` and `b` agree before index `i`, and there `a` ends while `b` goes
/// on, or `a` has the smaller byte.
pub open spec fn less_at(a: Seq<u8>, b: Seq<u8>, i: int) -> bool {
    &&& 0 <= i <= a.len()
    &&& i < b.len()
    &&& a.take(i) == b.take(i)
    &&& (i == a.len() || a[i] < b[i])
}

/// `a` comes before `b` in the order of strings: at the first place where
/// they differ `a` has the smaller byte, or `a` ends there and `b` goes on.
pub open spec fn lex_less(a: Seq<u8>, b: Seq<u8>) -> bool {
    exists|i: int| less_at(a, b, i)
}

/// `core::str::from_utf8`: the string slice over `bytes` where they are
/// valid UTF-8, and nothing where they are not.
#[verifier::external_body]
fn str_from_utf8(bytes: &[u8]) -> (text: Option<&str>)
    ensures
        text is Some <==> valid_utf8(bytes@),
        text matches Some(s) ==> s.spec_bytes() == bytes@,
{
    core::str::from_utf8(bytes).ok()
}

/// No bytes at all are valid UTF-8.
proof fn lemma_empty_is_utf8()
    ensures
        valid_utf8(Seq::<u8>::empty()),
{
    encode_utf8_valid_utf8(Seq::<char>::empty());
    reveal_with_fuel(vstd::utf8::encode_utf8, 1);
    assert(vstd::utf8::encode_utf8(Seq::<char>::empty()) =~= Seq::<u8>::empty());
}

/// Whether two runs of bytes are the same.
fn bytes_equal(a: &[u8], b: &[u8]) -> (r: bool)
    ensures
        r == (a@ == b@),
{
    if a.len() != b.len() {
        return false;
    }
    let mut i: usize = 0;
    while i < a.len()
        invariant
            a@.len() == b@.len(),
            i <= a@.len(),
            a@.take(i as int) == b@.take(i as int),
        decreases a@.len() - i,
    {
        if a[i] != b[i] {
            return false;
        }
        assert(a@.take(i + 1) =~= a@.take(i as int).push(a@[i as int]));
        assert(b@.take(i + 1) =~= b@.take(i as int).push(b@[i as int]));
        i += 1;
    }
    assert(a@ =~= a@.take(i as int));
    assert(b@ =~= b@.take(i as int));
    true
}

/// Whether `a` comes before `b` in the order of strings.
fn bytes_less(a: &[u8], b: &[u8]) -> (r: bool)
    ensures
        r == lex_less(a@, b@),
{
    let mut i: usize = 0;
    while i < a.len() && i < b.len()
        invariant
            i <= a@.len(),
            i <= b@.len(),
            a@.take(i as int) == b@.take(i as int),
        decreases a@.len() - i,
    {
        if a[i] != b[i] {
            let r = a[i] < b[i];
            proof {
                lemma_lex_decided(a@, b@, i as int);
            }
            return r;
        }
        assert(a@.take(i + 1) =~= a@.take(i as int).push(a@[i as int]));
        assert(b@.take(i + 1) =~= b@.take(i as int).push(b@[i as int]));
        i += 1;
    }
    proof {
        lemma_lex_decided(a@, b@, i as int);
    }
    i < b.len()
}

/// Where two runs of bytes agree up to `i` and one of them ends there or
/// they differ there, what happens at `i` decides their order.
proof fn lemma_lex_decided(a: Seq<u8>, b: Seq<u8>, i: int)
    requires
        0 <= i <= a.len(),
        i <= b.len(),
        a.take(i) == b.take(i),
        i == a.len() || i == b.len() || a[i] != b[i],
    ensures
        lex_less(a, b) == (i < b.len() && (i == a.len() || a[i] < b[i])),
{
    if lex_less(a, b) {
        let j = choose|j: int| less_at(a, b, j);
        assert(less_at(a, b, j));
        if j < i {
            assert(a.take(i)[j] == a[j]);
            assert(b.take(i)[j] == b[j]);
            assert(false);
        } else if j > i {
            assert(i < a.len() && i < b.len());
            assert(a.take(j)[i] == a[i]);
            assert(b.take(j)[i] == b[i]);
            assert(false);
        }
    }
    if i < b.len() && (i == a.len() || a[i] < b[i]) {
        assert(less_at(a, b, i));
    }
}

/// The raw handle of a string of `length` bytes that was just made: that of
/// the shared empty instance where there are no bytes, and else the null
/// handle, for a block that never left its string.
pub open spec fn fresh_home(length: nat) -> usize {
    if length == 0 {
        EMPTY_HANDLE
    } else {
        NULL_HANDLE
    }
}

/// The order of two runs of bytes as strings.
pub open spec fn lex_order(a: Seq<u8>, b: Seq<u8>) -> Ordering {
    if a == b {
        Ordering::Equal
    } else if lex_less(a, b) {
        Ordering::Less
    } else {
        Ordering::Greater
    }
}

impl ThinStr {
    /// The handle is the shared empty instance: it owns no block.
    pub closed spec fn is_shared_empty(&self) -> bool {
        self.buf is None
    }

    /// Number of bytes that the block can hold; zero for the shared empty
    /// instance.
    pub closed spec fn spec_capacity(&self) -> nat {
        match self.buf {
            Some(header) => header.capacity as nat,
            None => 0,
        }
    }

    /// All bytes of the block, those past the length too.
    pub closed spec fn buffer(&self) -> Seq<u8> {
        match self.buf {
            Some(header) => header.data@,
            None => Seq::empty(),
        }
    }

    /// The raw handle that belongs to the string's block: that of the
    /// shared empty instance for a string without a block, the handle that
    /// the block last rested under for a string that came back from one, and
    /// the null handle for a block that never left its string.
    pub closed spec fn home(&self) -> usize {
        match self.buf {
            Some(header) => header.home,
            None => EMPTY_HANDLE,
        }
    }

    /// The string with the same block, which now belongs to the raw handle
    /// `raw`. The shared empty instance stays what it is.
    pub closed spec fn housed_at(self, raw: usize) -> ThinStr {
        match self.buf {
            Some(header) => ThinStr {
                buf: Some(
                    Box::new(
                        StrHeader {
                            length: header.length,
                            capacity: header.capacity,
                            data: header.data,
                            home: raw,
                        },
                    ),
                ),
            },
            None => self,
        }
    }

    /// The length is within the capacity, the block holds as many bytes as
    /// its capacity says, and the bytes of the string are valid UTF-8.
    #[verifier::type_invariant]
    closed spec fn wf(&self) -> bool {
        match self.buf {
            Some(header) => {
                &&& header.length <= header.capacity
                &&& header.capacity == header.data@.len()
                &&& valid_utf8(header.data@.subrange(0, header.length as int))
            },
            None => true,
        }
    }

    /// The shared empty instance has no bytes, no room and no block, and its
    /// raw handle is the one kept for it.
    pub proof fn lemma_shared_empty(self)
        requires
            self.is_shared_empty(),
        ensures
            self@.len() == 0,
            self.spec_capacity() == 0,
            self.buffer().len() == 0,
            self.home() == EMPTY_HANDLE,
    {
    }

    /// A string that belongs to another raw handle is the same string in the
    /// same block: only the handle differs.
    pub proof fn lemma_housed_at(self, raw: usize)
        ensures
            self.housed_at(raw)@ == self@,
            self.housed_at(raw).buffer() == self.buffer(),
            self.housed_at(raw).spec_capacity() == self.spec_capacity(),
            self.housed_at(raw).is_shared_empty() == self.is_shared_empty(),
            self.housed_at(raw).home() == if self.is_shared_empty() {
                EMPTY_HANDLE
            } else {
                raw
            },
            !self.is_shared_empty() && self.home() == raw ==> self.housed_at(raw) == self,
    {
    }

    /// The empty string: the shared empty instance, for which nothing is
    /// allocated.
    pub fn new() -> (s: Self)
        ensures
            s@.len() == 0,
            s.spec_capacity() == 0,
            s.is_shared_empty(),
            s.home() == EMPTY_HANDLE,
    {
        Self { buf: None }
    }

    /// Whether the string owns a block: every string does but the shared
    /// empty instance.
    pub fn owns_block(&self) -> (b: bool)
        ensures
            b == !self.is_shared_empty(),
    {
        self.buf.is_some()
    }

    /// Number of bytes of the string. It never exceeds the capacity.
    pub fn len(&self) -> (n: usize)
        ensures
            n == self@.len(),
            n <= self.spec_capacity(),
    {
        proof {
            use_type_invariant(self);
        }
        match &self.buf {
            Some(header) => header.length,
            None => 0,
        }
    }

    /// Whether the string has no bytes.
    pub fn is_empty(&self) -> (b: bool)
        ensures
            b == (self@.len() == 0),
    {
        self.len() == 0
    }

    /// Number of bytes that the string can hold without a new block.
    pub fn capacity(&self) -> (n: usize)
        ensures
            n == self.spec_capacity(),
            n == self.buffer().len(),
            self@.len() <= n,
            self.is_shared_empty() ==> n == 0,
    {
        proof {
            use_type_invariant(self);
        }
        match &self.buf {
            Some(header) => header.capacity,
            None => 0,
        }
    }

    /// The bytes of the string: the first bytes of its block, which are
    /// valid UTF-8.
    pub fn as_bytes(&self) -> (bytes: &[u8])
        ensures
            bytes@ == self@,
            bytes@ == self.buffer().subrange(0, self@.len() as int),
            valid_utf8(bytes@),
    {
        proof {
            use_type_invariant(self);
        }
        match &self.buf {
            Some(header) => slice_subrange(header.data.as_slice(), 0, header.length),
            None => {
                let empty: &[u8] = &[];
                proof {
                    assert(empty@ =~= Seq::<u8>::empty());
                    assert(self.buffer().subrange(0, 0) =~= Seq::<u8>::empty());
                    lemma_empty_is_utf8();
                }
                empty
            },
        }
    }

    /// The string as a string slice.
    pub fn as_str(&self) -> (text: &str)
        ensures
            text.spec_bytes() == self@,
    {
        match str_from_utf8(self.as_bytes()) {
            Some(text) => text,
            None => "",
        }
    }

    /// A string with the bytes of `text`, in a block of exactly that many
    /// bytes; the shared empty instance where `text` is empty.
    pub fn from_str(text: &str) -> (s: Self)
        ensures
            s@ == text.spec_bytes(),
            s.spec_capacity() == s@.len(),
            s.buffer() == s@,
            s.is_shared_empty() == (text.spec_bytes().len() == 0),
            s.home() == fresh_home(s@.len()),
    {
        let bytes = text.as_bytes();
        proof {
            encode_utf8_valid_utf8(text@);
        }
        Self::copy_of(bytes)
    }

    /// A string with the given bytes in a block of exactly that many bytes;
    /// the shared empty instance where there are none.
    fn copy_of(bytes: &[u8]) -> (s: Self)
        requires
            valid_utf8(bytes@),
        ensures
            s@ == bytes@,
            s.spec_capacity() == bytes@.len(),
            s.buffer() == bytes@,
            s.is_shared_empty() == (bytes@.len() == 0),
            s.home() == fresh_home(bytes@.len()),
    {
        if bytes.len() == 0 {
            let s = Self::new();
            assert(s@ =~= bytes@);
            assert(s.buffer() =~= bytes@);
            return s;
        }
        let mut s = Self::with_capacity(bytes.len());
        let ghost zeros = s.buffer();
        s.overwrite(bytes);
        assert(bytes@ + zeros.skip(bytes@.len() as int) =~= bytes@);
        s
    }

    /// An empty string in a block of its own that can hold `capacity`
    /// bytes, all of them zero.
    pub fn with_capacity(capacity: usize) -> (s: Self)
        ensures
            s@.len() == 0,
            s.spec_capacity() == capacity,
            s.buffer() == Seq::new(capacity as nat, |i: int| 0u8),
            !s.is_shared_empty(),
            s.home() == NULL_HANDLE,
    {
        let mut data: Vec<u8> = Vec::new();
        let mut i: usize = 0;
        while i < capacity
            invariant
                i <= capacity,
                data@ == Seq::new(i as nat, |i: int| 0u8),
            decreases capacity - i,
        {
            data.push(0);
            assert(data@ =~= Seq::new((i + 1) as nat, |i: int| 0u8));
            i += 1;
        }
        proof {
            assert(data@.subrange(0, 0) =~= Seq::<u8>::empty());
            lemma_empty_is_utf8();
        }
        Self { buf: Some(Box::new(StrHeader { length: 0, capacity, data, home: NULL_HANDLE })) }
    }

    /// Sets the length of a string that owns a block, without touching the
    /// bytes: the string is then the first `length` bytes of the block,
    /// which must be valid UTF-8. The shared empty instance is never given
    /// here.
    pub fn set_len(&mut self, length: usize)
        requires
            !old(self).is_shared_empty(),
            length <= old(self).spec_capacity(),
            valid_utf8(old(self).buffer().subrange(0, length as int)),
        ensures
            final(self)@ == old(self).buffer().subrange(0, length as int),
            final(self).buffer() == old(self).buffer(),
            final(self).spec_capacity() == old(self).spec_capacity(),
            !final(self).is_shared_empty(),
            final(self).home() == old(self).home(),
    {
        let mut taken = Self::new();
        core::mem::swap(self, &mut taken);
        proof {
            use_type_invariant(&taken);
        }
        match taken.buf {
            Some(header) => {
                let StrHeader { length: _, capacity, data, home } = *header;
                *self = Self { buf: Some(Box::new(StrHeader { length, capacity, data, home })) };
            },
            None => {},
        }
    }

    /// Sets the length as [`set_len`](Self::set_len) does, where that can be
    /// done: the string owns a block, the length is within its capacity, and
    /// the first `length` bytes of the block are valid UTF-8. Else the
    /// string stays as it is.
    pub fn try_set_len(&mut self, length: usize) -> (done: bool)
        ensures
            done == (!old(self).is_shared_empty() && length <= old(self).spec_capacity() && valid_utf8(
                old(self).buffer().subrange(0, length as int),
            )),
            done ==> final(self)@ == old(self).buffer().subrange(0, length as int),
            !done ==> final(self)@ == old(self)@,
            final(self).buffer() == old(self).buffer(),
            final(self).spec_capacity() == old(self).spec_capacity(),
            final(self).is_shared_empty() == old(self).is_shared_empty(),
            final(self).home() == old(self).home(),
    {
        proof {
            use_type_invariant(&*self);
        }
        let fits = match &self.buf {
            Some(header) => length <= header.capacity && str_from_utf8(
                slice_subrange(header.data.as_slice(), 0, length),
            ).is_some(),
            None => false,
        };
        if fits {
            self.set_len(length);
        }
        fits
    }

    /// Overwrites the first bytes of the block with `bytes` and sets the
    /// length to theirs. The block is kept: its other bytes, its capacity
    /// and its raw handle stay.
    fn overwrite(&mut self, bytes: &[u8])
        requires
            !old(self).is_shared_empty(),
            bytes@.len() <= old(self).spec_capacity(),
            valid_utf8(bytes@),
        ensures
            final(self)@ == bytes@,
            final(self).buffer() == bytes@ + old(self).buffer().skip(bytes@.len() as int),
            final(self).spec_capacity() == old(self).spec_capacity(),
            !final(self).is_shared_empty(),
            final(self).home() == old(self).home(),
    {
        let mut taken = Self::new();
        core::mem::swap(self, &mut taken);
        proof {
            use_type_invariant(&taken);
        }
        match taken.buf {
            Some(header) => {
                let StrHeader { length: _, capacity, data, home } = *header;
                let ghost before = data@;
                let mut data = data;
                let length = bytes.len();
                let mut i: usize = 0;
                while i < length
                    invariant
                        length == bytes@.len(),
                        i <= length <= capacity,
                        before.len() == capacity,
                        data@ == bytes@.subrange(0, i as int) + before.skip(i as int),
                    decreases length - i,
                {
                    data.set(i, bytes[i]);
                    assert(data@ =~= bytes@.subrange(0, i + 1) + before.skip(i + 1));
                    i += 1;
                }
                assert(bytes@.subrange(0, length as int) =~= bytes@);
                assert(data@.subrange(0, length as int) =~= bytes@);
                *self = Self { buf: Some(Box::new(StrHeader { length, capacity, data, home })) };
            },
            None => {},
        }
    }

    /// Makes `self` a copy of `source`.
    ///
    /// Where `self` can hold the bytes of `source`, its block is kept: the
    /// bytes are written over its first bytes and the length is set, and
    /// the rest of the block, its capacity and its raw handle stay. That is
    /// so for an empty `source` too, which fits any block; a `self` that is
    /// the shared empty instance then stays that. Where `self` cannot hold
    /// the bytes it becomes a fresh clone, in a block of exactly their
    /// number.
    pub fn clone_from(&mut self, source: &Self)
        ensures
            final(self)@ == source@,
            old(self).spec_capacity() >= source@.len() ==> {
                &&& final(self).spec_capacity() == old(self).spec_capacity()
                &&& final(self).buffer() == source@ + old(self).buffer().skip(source@.len() as int)
                &&& final(self).is_shared_empty() == old(self).is_shared_empty()
                &&& final(self).home() == old(self).home()
            },
            old(self).spec_capacity() < source@.len() ==> {
                &&& final(self).spec_capacity() == source@.len()
                &&& final(self).buffer() == source@
                &&& !final(self).is_shared_empty()
                &&& final(self).home() == NULL_HANDLE
            },
    {
        if self.capacity() >= source.len() {
            if self.owns_block() {
                self.overwrite(source.as_bytes());
            } else {
                // nothing fits the shared empty instance but no bytes, and
                // those it holds already
                let length = self.len();
                assert(self@ =~= source@);
                assert(self.buffer() =~= source@ + self.buffer().skip(0));
            }
        } else {
            *self = source.clone();
        }
    }

    /// How the string stands to `other` in the order of strings.
    pub fn compare(&self, other: &Self) -> (order: Ordering)
        ensures
            order == lex_order(self@, other@),
    {
        let a = self.as_bytes();
        let b = other.as_bytes();
        if bytes_equal(a, b) {
            Ordering::Equal
        } else if bytes_less(a, b) {
            Ordering::Less
        } else {
            Ordering::Greater
        }
    }

    /// A borrowed handle to the string.
    pub fn as_thin_ref(&self) -> (r: ThinStrRef<'_>)
        ensures
            r@ == self@,
    {
        ThinStrRef { string: self }
    }

    /// Number of bytes and alignment of the block that a string of the
    /// given capacity takes in memory: a header of two words, then the
    /// bytes, rounded up to whole words.
    pub fn layout_for(capacity: usize) -> (layout: (usize, usize))
        requires
            capacity <= usize::MAX / 2,
        ensures
            layout.1 == vstd::layout::size_of::<usize>(),
            layout.0 == 2 * layout.1 + round_up(capacity as nat, layout.1 as nat),
    {
        broadcast use layout_of_primitives;

        let align = core::mem::size_of::<usize>();
        assert(align == 4 || align == 8);
        assert(4usize & 3 == 0 && 8usize & 7 == 0) by (bit_vector);
        let bytes = round_to_align(capacity, align);
        proof {
            lemma_word_multiple(bytes);
            lemma_multiple_in_window(capacity as int, align as int, bytes as int);
        }
        (2 * align + bytes, align)
    }
}

impl Clone for ThinStr {
    /// A copy of the string in storage of its own: the shared empty instance
    /// for an empty string, else a block of exactly as many bytes as the
    /// string has.
    fn clone(&self) -> (copy: Self)
        ensures
            copy@ == self@,
            copy.spec_capacity() == self@.len(),
            copy.buffer() == self@,
            copy.is_shared_empty() == (self@.len() == 0),
            copy.home() == fresh_home(self@.len()),
    {
        Self::copy_of(self.as_bytes())
    }
}

impl Default for ThinStr {
    fn default() -> (s: Self)
        ensures
            s@.len() == 0,
            s.spec_capacity() == 0,
            s.is_shared_empty(),
    {
        Self::new()
    }
}

impl PartialEq for ThinStr {
    fn eq(&self, other: &Self) -> (r: bool) {
        bytes_equal(self.as_bytes(), other.as_bytes())
    }
}

impl Eq for ThinStr {

}

impl vstd::std_specs::cmp::PartialEqSpecImpl for ThinStr {
    open spec fn obeys_eq_spec() -> bool {
        true
    }

    open spec fn eq_spec(&self, other: &Self) -> bool {
        self@ == other@
    }
}

impl PartialOrd for ThinStr {
    fn partial_cmp(&self, other: &Self) -> (order: Option<Ordering>) {
        Some(self.compare(other))
    }
}

impl vstd::std_specs::cmp::PartialOrdSpecImpl for ThinStr {
    open spec fn obeys_partial_cmp_spec() -> bool {
        true
    }

    open spec fn partial_cmp_spec(&self, other: &Self) -> Option<Ordering> {
        Some(lex_order(self@, other@))
    }
}

impl<'a> View for ThinStrRef<'a> {
    type V = Seq<u8>;

    closed spec fn view(&self) -> Seq<u8> {
        self.string@
    }
}

impl<'a> ThinStrRef<'a> {
    /// The string that the handle borrows.
    pub fn get(&self) -> (string: &'a ThinStr)
        ensures
            string@ == self@,
    {
        self.string
    }

    /// Number of bytes of the string.
    pub fn len(&self) -> (n: usize)
        ensures
            n == self@.len(),
    {
        self.string.len()
    }

    /// The string as a string slice.
    pub fn as_str(&self) -> (text: &'a str)
        ensures
            text.spec_bytes() == self@,
    {
        self.string.as_str()
    }
}

/// The raw handle that no string has: in a row it marks a string column as
/// null.
pub const NULL_HANDLE: usize = 0;

/// The raw handle of the shared empty instance.
pub const EMPTY_HANDLE: usize = 1;

/// Where the blocks of strings rest while only a raw handle knows them.
///
/// A raw handle is given once and then belongs to its block. While the
/// string is back with its owner the handle is kept for it.
pub struct StrArena {
    slots: Vec<Option<ThinStr>>,
}

impl View for StrArena {
    type V = Map<usize, ThinStr>;

    /// The strings at rest, by their raw handle. Each owns a block.
    closed spec fn view(&self) -> Map<usize, ThinStr> {
        Map::new(
            |raw: usize|
                raw >= 2 && raw - 2 < self.slots@.len() && self.slots@[raw - 2] is Some && self.slots@[raw
                    - 2]->0.buf is Some,
            |raw: usize| self.slots@[raw - 2]->0,
        )
    }
}

impl StrArena {
    /// Number of raw handles that the arena has given so far.
    pub closed spec fn handed_out(&self) -> nat {
        self.slots@.len()
    }

    /// The raw handles that the arena gave and keeps for strings that are
    /// back with their owners.
    pub closed spec fn reserved(&self) -> Set<usize> {
        Set::new(|raw: usize| raw >= 2 && raw - 2 < self.slots@.len() && self.slots@[raw - 2] is None)
    }

    /// What the arena's parts say of each other: a handle is at most one of
    /// kept and at rest, and both kinds were given by the arena; no string
    /// at rest is the shared empty instance.
    pub proof fn lemma_handles(self, raw: usize)
        ensures
            self.reserved().contains(raw) ==> !self@.contains_key(raw),
            self.reserved().contains(raw) || self@.contains_key(raw) ==> 2 <= raw < self.handed_out() + 2,
            self@.contains_key(raw) ==> !self@[raw].is_shared_empty(),
    {
    }

    /// An arena in which nothing rests and that has given no handle.
    pub fn new() -> (arena: Self)
        ensures
            arena@ == Map::<usize, ThinStr>::empty(),
            arena.reserved() == Set::<usize>::empty(),
            arena.handed_out() == 0,
    {
        let arena = StrArena { slots: Vec::new() };
        assert(arena@ =~= Map::<usize, ThinStr>::empty());
        assert(arena.reserved() =~= Set::<usize>::empty());
        arena
    }

    /// Whether `raw` can be turned back into a string: it is the handle of
    /// the shared empty instance, or that of a string at rest here.
    pub fn holds(&self, raw: usize) -> (b: bool)
        ensures
            b == (raw == EMPTY_HANDLE || self@.contains_key(raw)),
    {
        if raw == EMPTY_HANDLE {
            return true;
        }
        if raw < 2 || raw - 2 >= self.slots.len() {
            return false;
        }
        match &self.slots[raw - 2] {
            Some(resting) => resting.buf.is_some(),
            None => false,
        }
    }

    /// Number of raw handles that the arena has given so far.
    pub fn handles_given(&self) -> (n: usize)
        ensures
            n == self.handed_out(),
    {
        self.slots.len()
    }

    /// Whether the arena keeps `raw` for a string that is back with its
    /// owner.
    pub fn keeps(&self, raw: usize) -> (b: bool)
        ensures
            b == self.reserved().contains(raw),
    {
        raw >= 2 && raw - 2 < self.slots.len() && self.slots[raw - 2].is_none()
    }
}

impl ThinStr {
    /// Gives the string up for a raw handle, which is then its only owner.
    ///
    /// The handle is never the null handle. For the shared empty instance
    /// it is [`EMPTY_HANDLE`] and nothing comes to rest. Any other string
    /// comes to rest in the arena as it is: under the handle of its block,
    /// where the arena keeps that handle for it, and else under a handle
    /// that was never given before.
    pub fn into_raw(self, arena: &mut StrArena) -> (raw: usize)
        requires
            self.is_shared_empty() || old(arena).reserved().contains(self.home()) || old(arena).handed_out()
                + 2 < usize::MAX,
        ensures
            raw != NULL_HANDLE,
            self.is_shared_empty() ==> {
                &&& raw == EMPTY_HANDLE
                &&& final(arena)@ == old(arena)@
                &&& final(arena).reserved() == old(arena).reserved()
                &&& final(arena).handed_out() == old(arena).handed_out()
            },
            !self.is_shared_empty() ==> {
                &&& raw == if old(arena).reserved().contains(self.home()) {
                    self.home()
                } else {
                    (old(arena).handed_out() + 2) as usize
                }
                &&& !old(arena)@.contains_key(raw)
                &&& final(arena)@ == old(arena)@.insert(raw, self)
                &&& final(arena).reserved() == old(arena).reserved().remove(raw)
                &&& final(arena).handed_out() == if old(arena).reserved().contains(self.home()) {
                    old(arena).handed_out()
                } else {
                    old(arena).handed_out() + 1
                }
            },
    {
        let home = match &self.buf {
            Some(header) => header.home,
            None => {
                return EMPTY_HANDLE;
            },
        };
        let ghost resting = self;
        if arena.keeps(home) {
            arena.slots.set(home - 2, Some(self));
            assert(arena@ =~= old(arena)@.insert(home, resting));
            assert(arena.reserved() =~= old(arena).reserved().remove(home));
            home
        } else {
            let raw = arena.slots.len() + 2;
            arena.slots.push(Some(self));
            assert(arena@ =~= old(arena)@.insert(raw, resting));
            assert(arena.reserved() =~= old(arena).reserved().remove(raw));
            raw
        }
    }

    /// Takes the string back from its raw handle, which owns it no longer.
    /// The handle is one that `into_raw` gave and that was not taken back
    /// since; it is never the null handle.
    ///
    /// The string comes back as it went: the same bytes in the same block.
    /// The block now belongs to the handle, and the arena keeps the handle
    /// for it: given up again, the string gets the same handle.
    pub fn from_raw(raw: usize, arena: &mut StrArena) -> (s: Self)
        requires
            raw == EMPTY_HANDLE || old(arena)@.contains_key(raw),
        ensures
            raw == EMPTY_HANDLE ==> {
                &&& s.is_shared_empty()
                &&& s@.len() == 0
                &&& s.spec_capacity() == 0
                &&& final(arena)@ == old(arena)@
                &&& final(arena).reserved() == old(arena).reserved()
            },
            raw != EMPTY_HANDLE ==> {
                &&& s == old(arena)@[raw].housed_at(raw)
                &&& s@ == old(arena)@[raw]@
                &&& s.buffer() == old(arena)@[raw].buffer()
                &&& s.spec_capacity() == old(arena)@[raw].spec_capacity()
                &&& !s.is_shared_empty()
                &&& final(arena)@ == old(arena)@.remove(raw)
                &&& final(arena).reserved() == old(arena).reserved().insert(raw)
            },
            s.home() == raw,
            final(arena).handed_out() == old(arena).handed_out(),
    {
        if raw == EMPTY_HANDLE {
            return Self::new();
        }
        let index = raw - 2;
        arena.slots.push(None);
        let taken = arena.slots.swap_remove(index);
        assert(arena.slots@ =~= old(arena).slots@.update(index as int, None::<ThinStr>));
        assert(arena@ =~= old(arena)@.remove(raw));
        assert(arena.reserved() =~= old(arena).reserved().insert(raw));
        match taken {
            Some(resting) => {
                proof {
                    use_type_invariant(&resting);
                }
                match resting.buf {
                    Some(header) => {
                        let StrHeader { length, capacity, data, home: _ } = *header;
                        Self { buf: Some(Box::new(StrHeader { length, capacity, data, home: raw })) }
                    },
                    None => Self::new(),
                }
            },
            None => Self::new(),
        }
    }
}

/// `align` is a power of two.
pub open spec fn is_power_of_two(align: usize) -> bool {
    align != 0 && align & ((align - 1) as usize) == 0
}

/// The least multiple of `align` that is not below `size`.
pub open spec fn round_up(size: nat, align: nat) -> nat {
    if size % align == 0 {
        size
    } else {
        (size + align - size % align) as nat
    }
}

proof fn lemma_clear_bits(t: usize, m: usize)
    by (bit_vector)
    ensures
        t & !m == t - (t & m),
        (t & !m) & m == 0,
{
}

proof fn lemma_round_bits(size: u64, align: u64)
    by (bit_vector)
    requires
        align != 0,
        align & ((align - 1) as u64) == 0,
        size <= 0xffff_ffff_ffff_ffff - (align - 1),
    ensures
        ({
            let t = (size + align - 1) as u64;
            let cleared = t - (t & ((align - 1) as u64));
            &&& size <= cleared
            &&& cleared - size < align
        }),
{
}

proof fn lemma_word_multiple(x: usize)
    by (bit_vector)
    ensures
        x & 3 == 0 ==> x % 4 == 0,
        x & 7 == 0 ==> x % 8 == 0,
{
}

proof fn lemma_multiple_in_window(size: int, align: int, rounded: int)
    requires
        0 <= size,
        0 < align,
        rounded % align == 0,
        size <= rounded < size + align,
    ensures
        rounded == round_up(size as nat, align as nat),
{
    vstd::arithmetic::div_mod::lemma_fundamental_div_mod(size, align);
    vstd::arithmetic::div_mod::lemma_fundamental_div_mod(rounded, align);
    let q = size / align;
    let k = rounded / align;
    let m = size % align;
    assert(rounded == align * k);
    assert(size == align * q + m);
    if k <= q {
        assert(align * k <= align * q) by (nonlinear_arith)
            requires
                k <= q,
                0 < align,
        ;
    } else if k >= q + 2 {
        assert(align * k >= align * (q + 2)) by (nonlinear_arith)
            requires
                k >= q + 2,
                0 < align,
        ;
        assert(align * (q + 2) == align * q + 2 * align) by (nonlinear_arith);
    } else {
        assert(k == q + 1);
        assert(align * (q + 1) == align * q + align) by (nonlinear_arith);
    }
}

/// `size + align - 1` with all bits below `align` cleared, in wrapping
/// arithmetic. For a power of two `align`, and a `size` that leaves room
/// for it, that is `size` rounded up to the next number with no bit below
/// `align` set: the next multiple of `align`.
pub fn round_to_align(size: usize, align: usize) -> (rounded: usize)
    ensures
        rounded == size.wrapping_add(align).wrapping_sub(1) & !align.wrapping_sub(1),
        is_power_of_two(align) && size + align - 1 <= usize::MAX ==> {
            &&& rounded & ((align - 1) as usize) == 0
            &&& size <= rounded < size + align
        },
{
    let rounded = size.wrapping_add(align).wrapping_sub(1) & !align.wrapping_sub(1);
    proof {
        if is_power_of_two(align) && size + align - 1 <= usize::MAX {
            let t = (size + align - 1) as usize;
            let m = (align - 1) as usize;
            assert(size.wrapping_add(align).wrapping_sub(1) == t);
            assert(align.wrapping_sub(1) == m);
            lemma_clear_bits(t, m);
            lemma_round_bits(size as u64, align as u64);
            assert(t & m == (t as u64) & (m as u64));
            assert(align & m == (align as u64) & (m as u64));
        }
    }
    rounded
}

} // verus!
