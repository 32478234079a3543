use rowtrace::trace::column_leaf::OrderedColumnLeaf;
use rowtrace::trace::cursor::{ColumnLeafCursor, Cursor};

fn leaf(keys: &[u64], diffs: &[i64]) -> OrderedColumnLeaf<u64, i64> {
    OrderedColumnLeaf::from_parts(keys.to_vec(), diffs.to_vec()).unwrap()
}

fn sample() -> OrderedColumnLeaf<u64, i64> {
    leaf(&[10, 20, 30, 40, 50, 60], &[1, -1, 2, 0, 5, 7])
}

#[test]
fn leaf_wants_ascending_keys() {
    assert!(OrderedColumnLeaf::<u64, i64>::from_parts(vec![1, 2, 3], vec![1, 1, 1]).is_some());
    assert!(OrderedColumnLeaf::<u64, i64>::from_parts(vec![1, 3, 2], vec![1, 1, 1]).is_none());
    assert!(OrderedColumnLeaf::<u64, i64>::from_parts(vec![2, 1], vec![1, 1]).is_none());
}

#[test]
fn leaf_wants_no_key_twice() {
    assert!(OrderedColumnLeaf::<u64, i64>::from_parts(vec![1, 2, 2], vec![1, 1, 1]).is_none());
}

#[test]
fn leaf_wants_a_weight_for_each_key() {
    assert!(OrderedColumnLeaf::<u64, i64>::from_parts(vec![1, 2], vec![1]).is_none());
    assert!(OrderedColumnLeaf::<u64, i64>::from_parts(vec![], vec![1]).is_none());
    assert!(OrderedColumnLeaf::<u64, i64>::from_parts(vec![], vec![]).is_some());
}

#[test]
fn leaf_reads_back() {
    let l = sample();
    assert_eq!(l.len(), 6);
    assert!(!l.is_empty());
    assert_eq!(*l.key_at(2), 30);
    assert_eq!(*l.diff_at(2), 2);
    assert!(OrderedColumnLeaf::<u64, i64>::empty().is_empty());
}

#[test]
fn new_cursor_stands_where_it_was_put() {
    let l = sample();
    let c = ColumnLeafCursor::new(2, &l, (1, 5));
    assert_eq!(c.bounds(), (1, 5));
    assert_eq!(c.storage().len(), 6);
    assert_eq!(c.keys(), 4);
    assert!(c.valid());
    assert_eq!(*c.current_key(), 30);
    assert_eq!(*c.current_diff(), 2);
    assert_eq!(*c.key(), 30);
    assert_eq!(*c.weight(), 2);
}

#[test]
fn seek_key_lands_on_the_key() {
    let l = sample();
    let mut c = ColumnLeafCursor::new(0, &l, (0, 6));
    c.seek_key(&30);
    assert!(c.valid());
    assert_eq!(*c.key(), 30);
}

#[test]
fn seek_key_lands_on_the_first_key_not_below() {
    let l = sample();
    let mut c = ColumnLeafCursor::new(0, &l, (0, 6));
    c.seek_key(&31);
    assert_eq!(*c.key(), 40);
    c.seek_key(&0);
    assert_eq!(*c.key(), 40);
    c.seek_key(&60);
    assert_eq!(*c.key(), 60);
}

#[test]
fn seek_key_never_moves_back() {
    let l = sample();
    let mut c = ColumnLeafCursor::new(4, &l, (0, 6));
    c.seek_key(&10);
    assert_eq!(*c.key(), 50);
}

#[test]
fn seek_key_past_every_key_ends_at_upper() {
    let l = sample();
    let mut c = ColumnLeafCursor::new(0, &l, (0, 6));
    c.seek_key(&61);
    assert!(!c.valid());
    c.rewind();
    assert_eq!(*c.key(), 10);
}

#[test]
fn seek_key_stays_within_the_bounds() {
    let l = sample();
    let mut c = ColumnLeafCursor::new(1, &l, (1, 4));
    c.seek_key(&50);
    assert!(!c.valid());
    let mut c = ColumnLeafCursor::new(1, &l, (1, 4));
    c.seek_key(&5);
    assert_eq!(*c.key(), 20);
    c.seek(&40);
    assert_eq!(*c.key(), 40);
}

#[test]
fn seek_key_on_every_position_and_key() {
    let l = sample();
    let keys = [10u64, 20, 30, 40, 50, 60];
    for lower in 0..=6 {
        for upper in lower..=6 {
            for pos in lower..=upper {
                for wanted in 0..=70u64 {
                    let mut c = ColumnLeafCursor::new(pos, &l, (lower, upper));
                    c.seek_key(&wanted);
                    let expected = (pos..upper).find(|i| keys[*i] >= wanted).unwrap_or(upper);
                    assert_eq!(c.valid(), expected < upper);
                    if expected < upper {
                        assert_eq!(*c.key(), keys[expected]);
                    }
                    assert_eq!(c.bounds(), (lower, upper));
                }
            }
        }
    }
}

#[test]
fn step_walks_to_upper_and_stays() {
    let l = sample();
    let mut c = ColumnLeafCursor::new(3, &l, (3, 5));
    assert_eq!(*c.key(), 40);
    c.step();
    assert_eq!(*c.key(), 50);
    c.step();
    assert!(!c.valid());
    c.step();
    assert!(!c.valid());
    c.rewind();
    assert_eq!(*c.key(), 40);
}

#[test]
fn step_key_reverse_walks_down_then_ends() {
    let l = sample();
    let mut c = ColumnLeafCursor::new(3, &l, (2, 5));
    c.fast_forward_keys();
    assert_eq!(*c.key(), 50);
    c.step_key_reverse();
    assert_eq!(*c.key(), 40);
    c.step_key_reverse();
    assert_eq!(*c.key(), 30);
    c.step_key_reverse();
    assert!(!c.valid());
    c.step_key_reverse();
    assert!(!c.valid());
}

#[test]
fn fast_forward_on_empty_bounds_is_invalid() {
    let l = sample();
    let mut c = ColumnLeafCursor::new(2, &l, (2, 2));
    c.fast_forward_keys();
    assert!(!c.valid());
    assert!(c.last_key().is_none());
    assert_eq!(c.keys(), 0);
}

#[test]
fn reposition_sets_bounds_and_position() {
    let l = sample();
    let mut c = ColumnLeafCursor::new(0, &l, (0, 6));
    c.reposition(2, 4);
    assert_eq!(c.bounds(), (2, 4));
    assert!(c.valid());
    assert_eq!(*c.key(), 30);
    c.reposition(4, 4);
    assert!(!c.valid());
    c.reposition(6, 6);
    assert!(!c.valid());
    c.reposition(0, 1);
    assert_eq!(*c.key(), 10);
}

#[test]
fn last_key_is_the_last_within_bounds() {
    let l = sample();
    let c = ColumnLeafCursor::new(0, &l, (0, 6));
    assert_eq!(c.last_key(), Some((&60, &7)));
    let c = ColumnLeafCursor::new(1, &l, (1, 4));
    assert_eq!(c.last_key(), Some((&40, &0)));
}

#[test]
fn cursor_over_an_empty_leaf() {
    let l = OrderedColumnLeaf::<u64, i64>::empty();
    let mut c = ColumnLeafCursor::new(0, &l, (0, 0));
    assert!(!c.valid());
    c.seek_key(&1);
    assert!(!c.valid());
    c.step();
    c.step_key_reverse();
    c.fast_forward_keys();
    c.rewind();
    assert!(!c.valid());
    assert!(c.last_key().is_none());
}

#[test]
fn signed_keys_order_below_zero_first() {
    let l = OrderedColumnLeaf::<i64, i32>::from_parts(vec![-5, -1, 0, 3], vec![1, 2, 3, 4]).unwrap();
    let mut c = ColumnLeafCursor::new(0, &l, (0, 4));
    c.seek_key(&-2);
    assert_eq!(*c.key(), -1);
    assert_eq!(*c.weight(), 2);
}

#[test]
fn try_key_reads_the_entry_of_a_valid_cursor() {
    let l = sample();
    let c = ColumnLeafCursor::new(4, &l, (0, 6));
    assert_eq!(c.try_key(), Ok((&50, &5)));
    let c = ColumnLeafCursor::new(1, &l, (1, 2));
    assert_eq!(c.try_key(), Ok((&20, &-1)));
}

#[test]
fn try_key_at_the_upper_bound_tells_position_and_length() {
    let l = sample();
    let c = ColumnLeafCursor::new(6, &l, (0, 6));
    assert_eq!(
        c.try_key(),
        Err("the cursor was at the invalid position 6 while the leaf was only 6 elements long".to_string())
    );
    // the upper bound ends the walk inside the leaf too
    let mut c = ColumnLeafCursor::new(2, &l, (0, 3));
    assert!(c.try_key().is_ok());
    c.step();
    assert_eq!(
        c.try_key(),
        Err("the cursor was at the invalid position 3 while the leaf was only 6 elements long".to_string())
    );
    let empty = OrderedColumnLeaf::<u64, i64>::empty();
    let c = ColumnLeafCursor::new(0, &empty, (0, 0));
    assert_eq!(
        c.try_key(),
        Err("the cursor was at the invalid position 0 while the leaf was only 0 elements long".to_string())
    );
}

#[test]
fn remaining_lists_what_is_left() {
    let l = sample();
    let mut c = ColumnLeafCursor::new(0, &l, (1, 4));
    c.rewind();
    assert_eq!(c.remaining(), vec![(20, -1), (30, 2), (40, 0)]);
    c.step();
    assert_eq!(c.remaining(), vec![(30, 2), (40, 0)]);
    c.step();
    c.step();
    assert!(c.remaining().is_empty());
}
