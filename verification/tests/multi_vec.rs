use lamport_signature_plus::multi_vec::axes_product;
use lamport_signature_plus::utils::separate_one_and_zero_values;
use lamport_signature_plus::MultiVec;

fn counting(rows: usize, cols: usize) -> MultiVec<u8, 2> {
    MultiVec::fill_fn([rows, cols], |i| i as u8)
}

#[test]
fn fill_spans_the_axes() {
    let m = MultiVec::<u8, 2>::fill([3, 4], 7);
    assert_eq!(m.len(), 12);
    assert!(!m.is_empty());
    assert_eq!(m.axes(), [3, 4]);
    assert_eq!(m.to_vec(), vec![7u8; 12]);
}

#[test]
fn fill_with_three_axes() {
    let m = MultiVec::<u16, 3>::fill([2, 3, 4], 9);
    assert_eq!(m.len(), 24);
    assert!(m.iter().all(|cell| *cell == 9));
}

#[test]
fn fill_with_an_empty_axis() {
    let m = MultiVec::<u8, 2>::fill([5, 0], 1);
    assert_eq!(m.len(), 0);
    assert!(m.is_empty());
    assert_eq!(m.axes(), [5, 0]);
}

#[test]
fn fill_without_axes_holds_one_cell() {
    let m = MultiVec::<u8, 0>::fill([], 4);
    assert_eq!(m.len(), 1);
}

#[test]
fn axes_product_multiplies() {
    assert_eq!(axes_product(&[3usize, 4, 5]), 60);
    assert_eq!(axes_product(&[usize::MAX, usize::MAX, 0]), 0);
    assert_eq!(axes_product::<0>(&[]), 1);
    assert_eq!(axes_product(&[usize::MAX, 1]), usize::MAX);
}

#[test]
fn new_spans_the_axes() {
    let m = MultiVec::<u8, 2>::new([256, 32]);
    assert_eq!(m.len(), 256 * 32);
    assert!(!m.is_empty());
    assert_eq!(m.axes(), [256, 32]);
    assert!(m.iter().all(|cell| *cell == 0));
    assert_eq!(&m[255], &[0u8; 32]);
    let flags = MultiVec::<bool, 3>::new([2, 3, 4]);
    assert_eq!(flags.len(), 24);
    assert!(flags.iter().all(|cell| !*cell));
}

#[test]
fn default_is_empty() {
    let m = MultiVec::<u8, 2>::default();
    assert_eq!(m.len(), 0);
    assert_eq!(m.axes(), [0, 0]);
}

#[test]
fn fill_fn_calls_with_the_flat_index() {
    let m = counting(3, 4);
    assert_eq!(m.to_vec(), (0u8..12).collect::<Vec<_>>());
}

#[test]
fn iso_changes_the_axes_only() {
    let mut m = counting(3, 4);
    m.iso([2, 6]);
    assert_eq!(m.axes(), [2, 6]);
    assert_eq!(&m[1], &[6, 7, 8, 9, 10, 11]);
    assert_eq!(m.to_vec(), (0u8..12).collect::<Vec<_>>());
}

#[test]
fn begin_is_row_times_columns() {
    let m = counting(3, 4);
    assert_eq!(m.begin(0), 0);
    assert_eq!(m.begin(2), 8);
}

#[test]
fn rows_cells_and_ranges() {
    let m = counting(3, 4);
    assert_eq!(&m[0], &[0, 1, 2, 3]);
    assert_eq!(&m[2], &[8, 9, 10, 11]);
    assert_eq!(m[(1, 2)], 6);
    assert_eq!(&m[(1, 1..3)], &[5, 6]);
    assert_eq!(&m[(1, 2..2)], &[] as &[u8]);
    assert_eq!(m.range_from(1, 1), &[5, 6, 7]);
    assert_eq!(m.range_from(1, 4), &[] as &[u8]);
    assert_eq!(m.range_to(1, 3), &[4, 5, 6]);
    assert_eq!(m.range_inclusive(1, 1, 2), &[5, 6]);
    assert_eq!(m.range_to_inclusive(1, 2), &[4, 5, 6]);
}

#[test]
fn a_range_may_run_into_the_next_row() {
    let m = counting(3, 4);
    assert_eq!(&m[(0, 2..6)], &[2, 3, 4, 5]);
    assert_eq!(m[(0, 5)], 5);
}

#[test]
fn rows_and_ranges_are_written() {
    let mut m = counting(3, 4);
    m.row_mut(1).copy_from_slice(&[40, 41, 42, 43]);
    assert_eq!(m.as_ref(), &[0, 1, 2, 3, 40, 41, 42, 43, 8, 9, 10, 11]);
    m.range_mut(2, 1, 3).copy_from_slice(&[90, 91]);
    assert_eq!(m.as_ref(), &[0, 1, 2, 3, 40, 41, 42, 43, 8, 90, 91, 11]);
    m.range_mut(0, 0, 1)[0] = 77;
    assert_eq!(m[(0, 0)], 77);
}

#[test]
fn cells_are_iterated_in_storage_order() {
    let mut m = counting(2, 3);
    assert_eq!(m.iter().copied().collect::<Vec<_>>(), vec![0, 1, 2, 3, 4, 5]);
    assert_eq!(m.as_ref(), &[0, 1, 2, 3, 4, 5]);
    for cell in m.iter_mut() {
        *cell += 10;
    }
    m.as_mut()[0] = 99;
    assert_eq!(m.to_vec(), vec![99, 11, 12, 13, 14, 15]);
}

#[test]
fn equality_compares_cells_and_axes() {
    let a = counting(2, 3);
    let b = counting(2, 3);
    let mut c = counting(2, 3);
    c.iso([3, 2]);
    let mut d = counting(2, 3);
    d.iter_mut()[5] = 0;
    assert!(a == b);
    assert!(a != c);
    assert!(a != d);
    assert!(a != counting(2, 2));
}

#[test]
fn order_is_by_cells_then_axes() {
    let a = counting(2, 3);
    let mut b = counting(2, 3);
    b.iter_mut()[0] = 1;
    let mut c = counting(2, 3);
    c.iso([3, 2]);
    assert!(a < b);
    assert!(a < c);
    assert!(c < b);
    assert!(counting(1, 2) < counting(1, 3));
}

#[test]
fn clone_is_equal() {
    let a = counting(4, 4);
    let b = a.clone();
    assert!(a == b);
    assert_eq!(b.axes(), [4, 4]);
}

#[test]
fn zeroize_overwrites_every_cell() {
    let mut m = MultiVec::<u8, 2>::fill([2, 2], 9);
    m.zeroize();
    assert_eq!(m.len(), 4);
    assert!(m.iter().all(|cell| *cell == 0));
    assert_eq!(m.axes(), [2, 2]);
    assert_eq!(&m[1], &[0, 0]);

    let mut m = counting(2, 3);
    m.zeroize();
    assert_eq!(m.len(), 6);
    assert!(!m.is_empty());
    assert_eq!(m.axes(), [2, 3]);
    assert_eq!(m.to_vec(), vec![0u8; 6]);

    let mut empty = MultiVec::<u8, 2>::fill([3, 0], 1);
    empty.zeroize();
    assert_eq!(empty.len(), 0);
    assert_eq!(empty.axes(), [3, 0]);
}

#[test]
fn separate_splits_after_the_first_matrix() {
    let input: Vec<u8> = (0u8..16).collect();
    let (zero, one) = separate_one_and_zero_values(&input, 1);
    assert_eq!(zero.axes(), [8, 1]);
    assert_eq!(one.axes(), [8, 1]);
    assert_eq!(zero.to_vec(), (0u8..8).collect::<Vec<_>>());
    assert_eq!(one.to_vec(), (8u8..16).collect::<Vec<_>>());
}

#[test]
fn separate_gives_the_rest_to_the_second_matrix() {
    let input: Vec<u8> = (0u8..19).collect();
    let (zero, one) = separate_one_and_zero_values(&input, 1);
    assert_eq!(zero.len(), 8);
    assert_eq!(one.to_vec(), (8u8..19).collect::<Vec<_>>());
    let (zero, one) = separate_one_and_zero_values(&input, 0);
    assert_eq!(zero.len(), 0);
    assert_eq!(one.len(), 19);
}
