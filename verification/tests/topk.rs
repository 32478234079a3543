use rowtrace::topk::{Monotonicity, NonIncrementalGroupTransformer, TopK};
use rowtrace::trace::column_leaf::OrderedColumnLeaf;
use rowtrace::trace::cursor::{ColumnLeafCursor, Cursor};

fn scenario() -> OrderedColumnLeaf<u64, i64> {
    OrderedColumnLeaf::from_parts(vec![1, 2, 3, 4, 5], vec![1, 1, 0, 1, 1]).unwrap()
}

fn keys_of(output: &[(u64, i64)]) -> Vec<u64> {
    output.iter().map(|entry| entry.0).collect()
}

#[test]
fn topk_ascending_skips_zero_weights() {
    let leaf = scenario();
    let mut cursor = ColumnLeafCursor::new(0, &leaf, (0, 5));
    let mut output = Vec::new();
    TopK::<u64, i64>::asc(3).transform(&mut cursor, &mut output);
    assert_eq!(keys_of(&output), vec![1, 2, 4]);
    assert_eq!(output, vec![(1, 1), (2, 1), (4, 1)]);
}

#[test]
fn topk_descending_takes_from_the_top() {
    let leaf = scenario();
    let mut cursor = ColumnLeafCursor::new(0, &leaf, (0, 5));
    let mut output = Vec::new();
    TopK::<u64, i64>::desc(2).transform(&mut cursor, &mut output);
    assert_eq!(keys_of(&output), vec![5, 4]);
}

#[test]
fn topk_descending_skips_zero_weights() {
    let leaf = scenario();
    let mut cursor = ColumnLeafCursor::new(0, &leaf, (0, 5));
    let mut output = Vec::new();
    TopK::<u64, i64>::desc(3).transform(&mut cursor, &mut output);
    assert_eq!(keys_of(&output), vec![5, 4, 2]);
}

#[test]
fn topk_appends_to_what_is_there() {
    let leaf = scenario();
    let mut cursor = ColumnLeafCursor::new(0, &leaf, (0, 5));
    let mut output = vec![(99, 9)];
    TopK::<u64, i64>::asc(1).transform(&mut cursor, &mut output);
    assert_eq!(output, vec![(99, 9), (1, 1)]);
}

#[test]
fn topk_with_more_room_than_entries_takes_all() {
    let leaf = scenario();
    let mut cursor = ColumnLeafCursor::new(0, &leaf, (0, 5));
    let mut output = Vec::new();
    TopK::<u64, i64>::asc(10).transform(&mut cursor, &mut output);
    assert_eq!(keys_of(&output), vec![1, 2, 4, 5]);
    assert!(!cursor.valid());
    let mut cursor = ColumnLeafCursor::new(0, &leaf, (0, 5));
    let mut output = Vec::new();
    TopK::<u64, i64>::desc(10).transform(&mut cursor, &mut output);
    assert_eq!(keys_of(&output), vec![5, 4, 2, 1]);
    assert!(!cursor.valid());
}

#[test]
fn topk_zero_takes_nothing_and_moves_only_to_the_start() {
    let leaf = scenario();
    let mut cursor = ColumnLeafCursor::new(1, &leaf, (0, 5));
    let mut output = Vec::new();
    TopK::<u64, i64>::asc(0).transform(&mut cursor, &mut output);
    assert!(output.is_empty());
    assert_eq!(*cursor.key(), 2);
    TopK::<u64, i64>::desc(0).transform(&mut cursor, &mut output);
    assert!(output.is_empty());
    assert_eq!(*cursor.key(), 5);
}

#[test]
fn topk_ascending_starts_where_the_cursor_stands() {
    let leaf = scenario();
    let mut cursor = ColumnLeafCursor::new(1, &leaf, (0, 5));
    let mut output = Vec::new();
    TopK::<u64, i64>::asc(2).transform(&mut cursor, &mut output);
    assert_eq!(keys_of(&output), vec![2, 4]);
    // the cursor stands just past the last entry handed out
    assert_eq!(*cursor.key(), 5);
}

#[test]
fn topk_descending_leaves_the_cursor_below_the_last_entry() {
    let leaf = scenario();
    let mut cursor = ColumnLeafCursor::new(0, &leaf, (0, 5));
    let mut output = Vec::new();
    TopK::<u64, i64>::desc(2).transform(&mut cursor, &mut output);
    assert_eq!(*cursor.key(), 3);
}

#[test]
fn topk_stays_within_the_group() {
    let leaf = OrderedColumnLeaf::<u64, i64>::from_parts(
        vec![1, 2, 3, 4, 5, 6, 7, 8],
        vec![1, 0, 3, 0, 0, 6, 7, 8],
    )
    .unwrap();
    let mut cursor = ColumnLeafCursor::new(0, &leaf, (0, 8));
    cursor.reposition(2, 6);
    let mut output = Vec::new();
    TopK::<u64, i64>::asc(5).transform(&mut cursor, &mut output);
    assert_eq!(output, vec![(3, 3), (6, 6)]);
    cursor.rewind();
    let mut output = Vec::new();
    TopK::<u64, i64>::desc(1).transform(&mut cursor, &mut output);
    assert_eq!(output, vec![(6, 6)]);
}

#[test]
fn topk_of_all_zero_weights_is_empty_and_consumes_the_group() {
    let leaf = OrderedColumnLeaf::<u64, i64>::from_parts(vec![1, 2, 3], vec![0, 0, 0]).unwrap();
    let mut cursor = ColumnLeafCursor::new(0, &leaf, (0, 3));
    let mut output = Vec::new();
    TopK::<u64, i64>::asc(2).transform(&mut cursor, &mut output);
    assert!(output.is_empty());
    assert!(!cursor.valid());
    cursor.rewind();
    TopK::<u64, i64>::desc(2).transform(&mut cursor, &mut output);
    assert!(output.is_empty());
    assert!(!cursor.valid());
}

#[test]
fn topk_of_an_empty_group() {
    let leaf = OrderedColumnLeaf::<u64, i64>::empty();
    let mut cursor = ColumnLeafCursor::new(0, &leaf, (0, 0));
    let mut output = Vec::new();
    TopK::<u64, i64>::asc(3).transform(&mut cursor, &mut output);
    TopK::<u64, i64>::desc(3).transform(&mut cursor, &mut output);
    assert!(output.is_empty());
}

#[test]
fn topk_keeps_negative_weights() {
    let leaf = OrderedColumnLeaf::<i64, i32>::from_parts(vec![-3, 0, 7], vec![-2, 0, 4]).unwrap();
    let mut cursor = ColumnLeafCursor::new(0, &leaf, (0, 3));
    let mut output = Vec::new();
    TopK::<i64, i32>::asc(2).transform(&mut cursor, &mut output);
    assert_eq!(output, vec![(-3, -2), (7, 4)]);
}

#[test]
fn monotonicity_follows_the_direction() {
    assert_eq!(TopK::<u64, i64>::asc(3).monotonicity(), Monotonicity::Ascending);
    assert_eq!(TopK::<u64, i64>::desc(3).monotonicity(), Monotonicity::Descending);
    assert_ne!(TopK::<u64, i64>::asc(0).monotonicity(), Monotonicity::Unordered);
}

#[test]
fn name_tells_size_and_direction() {
    assert_eq!(TopK::<u64, i64>::asc(3).name(), "top-3-asc");
    assert_eq!(TopK::<u64, i64>::desc(2).name(), "top-2-desc");
    assert_eq!(TopK::<u64, i64>::asc(0).name(), "top-0-asc");
    assert_eq!(TopK::<u64, i64>::desc(1205).name(), "top-1205-desc");
    assert_eq!(TopK::<u64, i64>::asc(usize::MAX).name(), format!("top-{}-asc", usize::MAX));
}
