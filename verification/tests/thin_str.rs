use rowtrace::thin_str::{round_to_align, StrArena, ThinStr, EMPTY_HANDLE, NULL_HANDLE};
use std::cmp::Ordering;

#[test]
fn new_is_empty_without_a_block() {
    let s = ThinStr::new();
    assert_eq!(s.len(), 0);
    assert_eq!(s.capacity(), 0);
    assert!(s.is_empty());
    assert_eq!(s.as_str(), "");
    assert_eq!(s.as_bytes(), b"");
}

#[test]
fn default_is_the_empty_string() {
    let s = ThinStr::default();
    assert_eq!(s.len(), 0);
    assert_eq!(s.capacity(), 0);
    assert!(s == ThinStr::new());
}

#[test]
fn from_str_holds_the_text_in_a_block_of_its_size() {
    let s = ThinStr::from_str("hello");
    assert_eq!(s.len(), 5);
    assert_eq!(s.capacity(), 5);
    assert!(!s.is_empty());
    assert_eq!(s.as_str(), "hello");
    assert_eq!(s.as_bytes(), b"hello");
}

#[test]
fn from_str_counts_bytes_not_characters() {
    let s = ThinStr::from_str("héllo wörld");
    assert_eq!(s.len(), 13);
    assert_eq!(s.capacity(), 13);
    assert_eq!(s.as_str(), "héllo wörld");
}

#[test]
fn from_empty_str_owns_no_block() {
    let s = ThinStr::from_str("");
    assert_eq!(s.len(), 0);
    assert_eq!(s.capacity(), 0);
}

#[test]
fn clone_of_non_empty_has_same_content_in_own_storage() {
    let original = ThinStr::from_str("row engine");
    let mut copy = original.clone();
    assert_eq!(copy.as_str(), "row engine");
    assert_eq!(copy.len(), 10);
    assert_eq!(copy.capacity(), 10);
    // writing to the copy leaves the original alone
    copy.clone_from(&ThinStr::from_str("changed"));
    assert_eq!(copy.as_str(), "changed");
    assert_eq!(original.as_str(), "row engine");
}

#[test]
fn clone_takes_exactly_the_length() {
    let mut roomy = ThinStr::with_capacity(32);
    roomy.clone_from(&ThinStr::from_str("abc"));
    assert_eq!(roomy.capacity(), 32);
    let copy = roomy.clone();
    assert_eq!(copy.as_str(), "abc");
    assert_eq!(copy.capacity(), 3);
}

#[test]
fn clone_of_empty_is_empty_without_a_block() {
    let copy = ThinStr::new().clone();
    assert_eq!(copy.len(), 0);
    assert_eq!(copy.capacity(), 0);
    let copy = ThinStr::with_capacity(8).clone();
    assert_eq!(copy.len(), 0);
    assert_eq!(copy.capacity(), 0);
}

#[test]
fn clone_from_keeps_a_block_that_is_large_enough() {
    let mut dest = ThinStr::from_str("a longer string");
    assert_eq!(dest.capacity(), 15);
    dest.clone_from(&ThinStr::from_str("abc"));
    assert_eq!(dest.as_str(), "abc");
    assert_eq!(dest.len(), 3);
    assert_eq!(dest.capacity(), 15);
}

#[test]
fn clone_from_keeps_a_block_of_exactly_the_size() {
    let mut dest = ThinStr::from_str("abc");
    dest.clone_from(&ThinStr::from_str("xyz"));
    assert_eq!(dest.as_str(), "xyz");
    assert_eq!(dest.capacity(), 3);
}

#[test]
fn clone_from_takes_a_new_block_when_the_old_is_too_small() {
    let mut dest = ThinStr::from_str("ab");
    dest.clone_from(&ThinStr::from_str("hello world"));
    assert_eq!(dest.as_str(), "hello world");
    assert_eq!(dest.len(), 11);
    assert_eq!(dest.capacity(), 11);
}

#[test]
fn clone_from_into_the_empty_string_takes_a_new_block() {
    let mut dest = ThinStr::new();
    dest.clone_from(&ThinStr::from_str("x"));
    assert_eq!(dest.as_str(), "x");
    assert_eq!(dest.capacity(), 1);
}

#[test]
fn clone_from_an_empty_source_keeps_the_block() {
    let mut dest = ThinStr::from_str("something");
    dest.clone_from(&ThinStr::new());
    assert_eq!(dest.len(), 0);
    assert_eq!(dest.capacity(), 9);
    assert!(dest.owns_block());
    assert_eq!(dest.as_str(), "");
    // the bytes of the block are still there
    dest.set_len(4);
    assert_eq!(dest.as_str(), "some");
}

#[test]
fn clone_from_an_empty_source_leaves_the_empty_string_without_a_block() {
    let mut dest = ThinStr::new();
    dest.clone_from(&ThinStr::with_capacity(16));
    assert_eq!(dest.len(), 0);
    assert_eq!(dest.capacity(), 0);
    assert!(!dest.owns_block());
}

#[test]
fn clone_from_writes_over_the_first_bytes_only() {
    let mut dest = ThinStr::from_str("abcdefgh");
    dest.clone_from(&ThinStr::from_str("XY"));
    assert_eq!(dest.as_str(), "XY");
    dest.set_len(8);
    assert_eq!(dest.as_str(), "XYcdefgh");
}

#[test]
fn only_the_empty_string_owns_no_block() {
    assert!(!ThinStr::new().owns_block());
    assert!(!ThinStr::from_str("").owns_block());
    assert!(ThinStr::from_str("abc").owns_block());
    assert!(ThinStr::with_capacity(0).owns_block());
    assert!(!ThinStr::with_capacity(4).clone().owns_block());
}

#[test]
fn with_capacity_is_empty_and_zeroed() {
    let s = ThinStr::with_capacity(8);
    assert_eq!(s.len(), 0);
    assert_eq!(s.capacity(), 8);
    assert_eq!(s.as_str(), "");
}

#[test]
fn set_len_uncovers_the_bytes_of_the_block() {
    let mut s = ThinStr::with_capacity(8);
    s.set_len(3);
    assert_eq!(s.len(), 3);
    assert_eq!(s.capacity(), 8);
    assert_eq!(s.as_bytes(), &[0u8, 0, 0]);
    s.set_len(0);
    assert_eq!(s.len(), 0);
    assert_eq!(s.capacity(), 8);
}

#[test]
fn set_len_shortens_at_a_character_boundary() {
    let mut s = ThinStr::from_str("abcdef");
    s.set_len(2);
    assert_eq!(s.as_str(), "ab");
    assert_eq!(s.capacity(), 6);
    s.set_len(6);
    assert_eq!(s.as_str(), "abcdef");
}

#[test]
fn equality_goes_by_content() {
    let a = ThinStr::from_str("same");
    let mut b = ThinStr::with_capacity(64);
    b.clone_from(&a);
    assert!(a == b);
    assert!(!(a != b));
    assert!(a != ThinStr::from_str("samf"));
    assert!(a != ThinStr::from_str("sam"));
    assert!(ThinStr::new() == ThinStr::with_capacity(4));
}

#[test]
fn order_is_that_of_strings() {
    let samples = ["", "a", "ab", "abc", "abd", "b", "B", "é", "z", "zz", "\u{10348}", "a\0", "10", "9"];
    for x in samples {
        for y in samples {
            let a = ThinStr::from_str(x);
            let b = ThinStr::from_str(y);
            assert_eq!(a.compare(&b), x.cmp(y), "{x:?} against {y:?}");
            assert_eq!(a.partial_cmp(&b), Some(x.cmp(y)));
            assert_eq!(a < b, x < y);
            assert_eq!(a >= b, x >= y);
            assert_eq!(a == b, x == y);
        }
    }
}

#[test]
fn a_prefix_comes_first() {
    assert_eq!(ThinStr::from_str("ab").compare(&ThinStr::from_str("abc")), Ordering::Less);
    assert_eq!(ThinStr::from_str("abc").compare(&ThinStr::from_str("ab")), Ordering::Greater);
    assert_eq!(ThinStr::from_str("abc").compare(&ThinStr::from_str("abc")), Ordering::Equal);
    assert_eq!(ThinStr::from_str("b").compare(&ThinStr::from_str("abc")), Ordering::Greater);
}

#[test]
fn borrowed_handle_reads_the_same_string() {
    let s = ThinStr::from_str("borrowed");
    let r = s.as_thin_ref();
    assert_eq!(r.len(), 8);
    assert_eq!(r.as_str(), "borrowed");
    assert_eq!(r.get().as_str(), "borrowed");
}

#[test]
fn raw_handle_round_trip() {
    let mut arena = StrArena::new();
    let raw = ThinStr::from_str("in a row").into_raw(&mut arena);
    assert_ne!(raw, NULL_HANDLE);
    assert_ne!(raw, EMPTY_HANDLE);
    assert!(arena.holds(raw));
    let back = ThinStr::from_raw(raw, &mut arena);
    assert_eq!(back.as_str(), "in a row");
    assert_eq!(back.capacity(), 8);
    // the handle owned the string once
    assert!(!arena.holds(raw));
}

#[test]
fn raw_handle_of_the_empty_string_is_shared() {
    let mut arena = StrArena::new();
    let first = ThinStr::new().into_raw(&mut arena);
    let second = ThinStr::default().into_raw(&mut arena);
    assert_eq!(first, EMPTY_HANDLE);
    assert_eq!(second, EMPTY_HANDLE);
    assert!(arena.holds(EMPTY_HANDLE));
    let back = ThinStr::from_raw(first, &mut arena);
    assert!(back.is_empty());
    assert_eq!(back.capacity(), 0);
    assert!(arena.holds(EMPTY_HANDLE));
}

#[test]
fn raw_handles_are_distinct_and_never_null() {
    let mut arena = StrArena::new();
    let a = ThinStr::from_str("a").into_raw(&mut arena);
    let b = ThinStr::from_str("b").into_raw(&mut arena);
    let c = ThinStr::with_capacity(4).into_raw(&mut arena);
    assert_eq!((a, b, c), (2, 3, 4));
    assert!(!arena.holds(NULL_HANDLE));
    assert!(!arena.holds(5));
    assert_eq!(ThinStr::from_raw(b, &mut arena).as_str(), "b");
    assert!(arena.holds(a));
    assert!(!arena.holds(b));
    let d = ThinStr::from_str("d").into_raw(&mut arena);
    assert_eq!(d, 5);
    assert_eq!(ThinStr::from_raw(a, &mut arena).as_str(), "a");
    assert_eq!(ThinStr::from_raw(c, &mut arena).capacity(), 4);
    assert_eq!(ThinStr::from_raw(d, &mut arena).as_str(), "d");
}

#[test]
fn round_to_align_rounds_up_to_a_multiple() {
    assert_eq!(round_to_align(0, 8), 0);
    assert_eq!(round_to_align(1, 8), 8);
    assert_eq!(round_to_align(7, 8), 8);
    assert_eq!(round_to_align(8, 8), 8);
    assert_eq!(round_to_align(9, 8), 16);
    assert_eq!(round_to_align(13, 4), 16);
    assert_eq!(round_to_align(13, 1), 13);
    assert_eq!(round_to_align(1000, 16), 1008);
}

#[test]
fn round_to_align_wraps_at_the_top() {
    assert_eq!(round_to_align(usize::MAX, 8), 0);
    assert_eq!(round_to_align(usize::MAX - 7, 8), usize::MAX - 7);
    // an alignment of zero keeps every bit of size - 1 and then none
    assert_eq!(round_to_align(5, 0), 0);
}

#[test]
fn layout_for_is_a_header_and_whole_words() {
    let word = std::mem::size_of::<usize>();
    assert_eq!(ThinStr::layout_for(0), (2 * word, word));
    assert_eq!(ThinStr::layout_for(1), (3 * word, word));
    assert_eq!(ThinStr::layout_for(word), (3 * word, word));
    assert_eq!(ThinStr::layout_for(word + 1), (4 * word, word));
}

#[test]
fn a_string_that_came_back_leaves_for_the_same_handle() {
    let mut arena = StrArena::new();
    let first = ThinStr::from_str("first").into_raw(&mut arena);
    let second = ThinStr::from_str("second").into_raw(&mut arena);
    let back = ThinStr::from_raw(first, &mut arena);
    assert!(arena.keeps(first));
    assert!(!arena.holds(first));
    let third = ThinStr::from_str("third").into_raw(&mut arena);
    assert_eq!(back.into_raw(&mut arena), first);
    assert!(arena.holds(first));
    assert!(!arena.keeps(first));
    assert_ne!(third, first);
    assert_ne!(third, second);
    assert_eq!(ThinStr::from_raw(first, &mut arena).as_str(), "first");
    assert_eq!(ThinStr::from_raw(second, &mut arena).as_str(), "second");
    assert_eq!(ThinStr::from_raw(third, &mut arena).as_str(), "third");
}

#[test]
fn the_handle_belongs_to_the_block() {
    let mut arena = StrArena::new();
    let raw = ThinStr::from_str("a block of bytes").into_raw(&mut arena);
    let mut back = ThinStr::from_raw(raw, &mut arena);
    // written over in place, the block is the same block
    back.clone_from(&ThinStr::from_str("short"));
    back.set_len(3);
    // a clone lives in a block of its own
    let copy = back.clone();
    let other = copy.into_raw(&mut arena);
    assert_ne!(other, raw);
    assert_eq!(back.into_raw(&mut arena), raw);
    assert_eq!(ThinStr::from_raw(raw, &mut arena).as_str(), "sho");
    assert_eq!(ThinStr::from_raw(other, &mut arena).as_str(), "sho");
}

#[test]
fn a_new_block_gets_a_new_handle() {
    let mut arena = StrArena::new();
    let raw = ThinStr::from_str("ab").into_raw(&mut arena);
    let mut back = ThinStr::from_raw(raw, &mut arena);
    // too long for the block: the string moves to a new one
    back.clone_from(&ThinStr::from_str("much longer"));
    let moved = back.into_raw(&mut arena);
    assert_ne!(moved, raw);
    assert!(arena.keeps(raw));
    assert_eq!(ThinStr::from_raw(moved, &mut arena).as_str(), "much longer");
}

#[test]
fn a_handle_of_another_arena_is_not_kept_here() {
    let mut one = StrArena::new();
    let mut two = StrArena::new();
    let raw = ThinStr::from_str("x").into_raw(&mut one);
    let filler = ThinStr::from_str("y").into_raw(&mut two);
    assert_eq!(raw, filler);
    let back = ThinStr::from_raw(raw, &mut one);
    // in the other arena that handle is taken
    let there = back.into_raw(&mut two);
    assert_ne!(there, raw);
    assert_eq!(ThinStr::from_raw(there, &mut two).as_str(), "x");
    assert_eq!(ThinStr::from_raw(filler, &mut two).as_str(), "y");
}

#[test]
fn try_set_len_sets_what_can_be_set() {
    let mut s = ThinStr::from_str("héllo");
    assert!(s.try_set_len(1));
    assert_eq!(s.as_str(), "h");
    assert!(s.try_set_len(3));
    assert_eq!(s.as_str(), "hé");
    assert!(s.try_set_len(6));
    assert_eq!(s.as_str(), "héllo");
    assert_eq!(s.capacity(), 6);
}

#[test]
fn try_set_len_refuses_and_leaves_the_string() {
    let mut s = ThinStr::from_str("héllo");
    // in the middle of a character
    assert!(!s.try_set_len(2));
    // past the capacity
    assert!(!s.try_set_len(7));
    assert_eq!(s.as_str(), "héllo");
    // the shared empty instance is never written to
    let mut empty = ThinStr::new();
    assert!(!empty.try_set_len(0));
    assert!(!empty.owns_block());
}

#[test]
fn arena_counts_the_handles_it_gave() {
    let mut arena = StrArena::new();
    assert_eq!(arena.handles_given(), 0);
    let raw = ThinStr::from_str("a").into_raw(&mut arena);
    ThinStr::new().into_raw(&mut arena);
    assert_eq!(arena.handles_given(), 1);
    let back = ThinStr::from_raw(raw, &mut arena);
    back.into_raw(&mut arena);
    assert_eq!(arena.handles_given(), 1);
    ThinStr::from_str("b").into_raw(&mut arena);
    assert_eq!(arena.handles_given(), 2);
}
