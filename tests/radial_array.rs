use radial_array::{ArrayError, RadialArray, Storage};

#[test]
fn full_storage_init() {
    let array: RadialArray<f64> = RadialArray::new(3, 2, 2, Storage::Full).unwrap();
    println!("{:?}", array);
    assert_eq!(array.len(), 12);
    assert!(array.as_slice().iter().all(|x| *x == 0.0));
}

#[test]
fn packed_storage_init() {
    let array: RadialArray<f64> = RadialArray::new(3, 2, 2, Storage::Packed).unwrap();
    println!("{:?}", array);
    assert_eq!(array.len(), 9);
    assert!(array.as_slice().iter().all(|x| *x == 0.0));
}

#[test]
fn packed_storage_write() {
    let mut array: RadialArray<f64> = RadialArray::new(3, 2, 2, Storage::Packed).unwrap();
    array.write_to_idx(1000.0, (2, 0, 1)).unwrap();
    println!("{:?}", array);
    assert_eq!(array.read_at((2, 1, 0)), Ok(1000.0));
    assert_eq!(array.read_flat(7), Ok(1000.0));
}

#[test]
fn full_storage_write() {
    let mut array: RadialArray<f64> = RadialArray::new(3, 2, 2, Storage::Full).unwrap();
    array.write_to_idx(1000.0, (0, 1, 1)).unwrap();
    println!("{:?}", array);
    for (i, x) in array.as_slice().iter().enumerate() {
        if i == 3 {
            assert_eq!(*x, 1000.0);
        } else {
            assert_eq!(*x, 0.0);
        }
    }
}

#[test]
fn full_len_is_grid_times_rows_times_cols() {
    let array: RadialArray<i32> = RadialArray::new(4, 3, 5, Storage::Full).unwrap();
    assert_eq!(array.len(), 60);
    assert_eq!(array.len_sites(), 15);
    assert_eq!(array.ngrid(), 4);
    assert_eq!(array.ns1(), 3);
    assert_eq!(array.ns2(), 5);
    assert_eq!(array.storage(), Storage::Full);
    assert!(array.as_slice().iter().all(|x| *x == 0));
}

#[test]
fn packed_len_is_triangular() {
    let array: RadialArray<u64> = RadialArray::new(5, 4, 4, Storage::Packed).unwrap();
    assert_eq!(array.len_sites(), 10);
    assert_eq!(array.len(), 50);
    let one: RadialArray<u8> = RadialArray::new(2, 1, 1, Storage::Packed).unwrap();
    assert_eq!(one.len(), 2);
}

#[test]
fn packed_asymmetric_is_refused() {
    let r: Result<RadialArray<f64>, ArrayError> = RadialArray::new(3, 2, 3, Storage::Packed);
    let e = r.unwrap_err();
    assert_eq!(e, ArrayError::AsymmetricPacked);
    assert!(e.is_configuration_error());
    let r: Result<RadialArray<i64>, ArrayError> = RadialArray::new(0, 4, 1, Storage::Packed);
    assert_eq!(r.unwrap_err(), ArrayError::AsymmetricPacked);
}

#[test]
fn full_allows_non_square() {
    let r: Result<RadialArray<f64>, ArrayError> = RadialArray::new(3, 2, 3, Storage::Full);
    assert_eq!(r.unwrap().len(), 18);
}

#[test]
fn zero_sized_element_is_refused() {
    let r = RadialArray::filled(3, 2, 2, Storage::Full, ());
    let e = r.unwrap_err();
    assert_eq!(e, ArrayError::ZeroSizedElement);
    assert!(e.is_configuration_error());
}

#[test]
fn oversized_buffer_is_refused() {
    let r: Result<RadialArray<u64>, ArrayError> =
        RadialArray::new(usize::MAX, usize::MAX, 2, Storage::Full);
    assert_eq!(r.unwrap_err(), ArrayError::TooLarge);
    let r: Result<RadialArray<u64>, ArrayError> =
        RadialArray::new(1 << 40, 1 << 20, 1, Storage::Full);
    assert_eq!(r.unwrap_err(), ArrayError::TooLarge);
    let r: Result<RadialArray<u64>, ArrayError> =
        RadialArray::new(2, usize::MAX, usize::MAX, Storage::Packed);
    assert_eq!(r.unwrap_err(), ArrayError::TooLarge);
    assert!(!ArrayError::TooLarge.is_configuration_error());
}

#[test]
fn empty_grid_holds_nothing() {
    let array: RadialArray<f64> = RadialArray::new(0, 3, 3, Storage::Packed).unwrap();
    assert!(array.is_empty());
    assert_eq!(array.len_sites(), 6);
    let array: RadialArray<f64> = RadialArray::new(4, 0, 3, Storage::Full).unwrap();
    assert_eq!(array.len(), 0);
}

#[test]
fn filled_sets_every_element() {
    let array = RadialArray::filled(2, 3, 3, Storage::Packed, 7u16).unwrap();
    assert_eq!(array.as_slice(), &[7u16; 12][..]);
}

#[test]
fn full_offsets_follow_row_major_order() {
    let array: RadialArray<f64> = RadialArray::new(3, 2, 4, Storage::Full).unwrap();
    assert_eq!(array.flat_index((0, 0, 0)), Ok(0));
    assert_eq!(array.flat_index((0, 1, 2)), Ok(6));
    assert_eq!(array.flat_index((2, 1, 3)), Ok(23));
    assert_eq!(array.flat_index((1, 0, 1)), Ok(9));
}

#[test]
fn packed_offsets_collapse_symmetric_pairs() {
    let array: RadialArray<f64> = RadialArray::new(2, 3, 3, Storage::Packed).unwrap();
    assert_eq!(array.flat_index((0, 0, 0)), Ok(0));
    assert_eq!(array.flat_index((0, 1, 0)), Ok(1));
    assert_eq!(array.flat_index((0, 0, 1)), Ok(1));
    assert_eq!(array.flat_index((0, 1, 1)), Ok(2));
    assert_eq!(array.flat_index((0, 2, 0)), Ok(3));
    assert_eq!(array.flat_index((0, 1, 2)), Ok(4));
    assert_eq!(array.flat_index((0, 2, 2)), Ok(5));
    assert_eq!(array.flat_index((1, 2, 1)), Ok(10));
}

#[test]
fn packed_later_write_wins() {
    let mut array: RadialArray<i32> = RadialArray::new(3, 2, 2, Storage::Packed).unwrap();
    array.write_to_idx(1, (2, 0, 1)).unwrap();
    array.write_to_idx(2, (2, 1, 0)).unwrap();
    assert_eq!(array.read_at((2, 0, 1)), Ok(2));
    assert_eq!(array.read_at((2, 1, 0)), Ok(2));
    assert_eq!(array.as_slice().iter().filter(|x| **x != 0).count(), 1);
}

#[test]
fn out_of_range_writes_change_nothing() {
    let mut array: RadialArray<i32> = RadialArray::new(3, 2, 2, Storage::Full).unwrap();
    array.write_to_1d_idx(5, 4).unwrap();
    let before: Vec<i32> = array.as_slice().to_vec();
    assert_eq!(array.write_to_1d_idx(9, 12), Err(ArrayError::OutOfBounds));
    assert_eq!(array.write_to_idx(9, (3, 0, 0)), Err(ArrayError::OutOfBounds));
    assert_eq!(array.write_to_idx(9, (0, 2, 0)), Err(ArrayError::OutOfBounds));
    assert_eq!(array.write_to_idx(9, (0, 0, 2)), Err(ArrayError::OutOfBounds));
    assert_eq!(array.as_slice(), &before[..]);
    assert_eq!(array.read_flat(12), Err(ArrayError::OutOfBounds));
    assert_eq!(array.read_at((0, 0, 2)), Err(ArrayError::OutOfBounds));
    assert_eq!(array.flat_index((0, 0, 2)), Err(ArrayError::OutOfBounds));
}

#[test]
fn flat_write_then_read() {
    let mut array: RadialArray<u32> = RadialArray::new(2, 2, 3, Storage::Full).unwrap();
    array.write_to_1d_idx(42, 11).unwrap();
    assert_eq!(array.read_flat(11), Ok(42));
    assert_eq!(array.read_at((1, 1, 2)), Ok(42));
}

#[test]
fn repeated_construct_and_drop() {
    for i in 0..10_000usize {
        let mut array: RadialArray<f64> = RadialArray::new(3, 4, 4, Storage::Packed).unwrap();
        array.write_to_idx(i as f64, (i % 3, 3, 1)).unwrap();
        assert_eq!(array.len(), 30);
    }
}
