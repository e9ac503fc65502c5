use quantum::error::QuantumError;
use quantum::multidim::MultiDimArray;
use quantum::shape::{flat_to_multi_index, multi_to_flat_index, Shape};

#[test]
fn test_shape_creation() {
    let shape = Shape::new(vec![2, 3, 4]);
    assert_eq!(shape.ndim(), 3);
    assert_eq!(shape.size(), 24);
    assert!(shape.is_valid());
}

#[test]
fn test_shape_compatibility() {
    let shape1 = Shape::new(vec![2, 3]);
    let shape2 = Shape::new(vec![2, 3]);
    let shape3 = Shape::new(vec![1, 3]);
    assert!(shape1.is_compatible_with(&shape2));
    assert!(shape1.is_compatible_with(&shape3));
}

#[test]
fn shape_validity_and_incompatibility() {
    assert!(!Shape::new(vec![]).is_valid());
    assert!(!Shape::new(vec![2, 0]).is_valid());
    assert_eq!(Shape::new(vec![]).size(), 1);
    assert!(!Shape::new(vec![2, 3]).is_compatible_with(&Shape::new(vec![3, 3])));
    assert!(!Shape::new(vec![2, 3]).is_compatible_with(&Shape::new(vec![2, 3, 1])));
}

#[test]
fn broadcast_takes_the_larger_dimension() {
    let b = Shape::new(vec![1, 3, 4]).broadcast_with(&Shape::new(vec![5, 3, 1])).unwrap();
    assert_eq!(b.dimensions(), &[5, 3, 4]);
    match Shape::new(vec![2]).broadcast_with(&Shape::new(vec![3])) {
        Err(QuantumError::DimensionMismatch { expected, actual }) => {
            assert_eq!(expected, vec![2]);
            assert_eq!(actual, vec![3]);
        }
        other => panic!("unexpected {:?}", other),
    }
}

#[test]
fn test_index_conversion() {
    let shape = Shape::new(vec![2, 3]);
    let multi_idx = flat_to_multi_index(4, &shape).unwrap();
    assert_eq!(multi_idx, vec![1, 1]);
    let flat_idx = multi_to_flat_index(&vec![1, 1], &shape).unwrap();
    assert_eq!(flat_idx, 4);
}

#[test]
fn index_conversion_round_trips_and_rejects() {
    let shape = Shape::new(vec![3, 4, 5]);
    for flat in 0..60 {
        let multi = flat_to_multi_index(flat, &shape).unwrap();
        assert_eq!(multi_to_flat_index(&multi, &shape).unwrap(), flat);
    }
    assert_eq!(flat_to_multi_index(59, &shape).unwrap(), vec![2, 3, 4]);
    assert!(matches!(flat_to_multi_index(60, &shape), Err(QuantumError::DimensionMismatch { .. })));
    assert!(matches!(multi_to_flat_index(&vec![1, 1], &shape), Err(QuantumError::DimensionMismatch { .. })));
    assert!(matches!(multi_to_flat_index(&vec![1, 4, 0], &shape), Err(QuantumError::DimensionMismatch { .. })));
}

#[test]
fn test_multidim_array_creation() {
    let shape = Shape::new(vec![2, 3]);
    let data = vec![1.0, 2.0, 3.0, 4.0, 5.0, 6.0];
    let array = MultiDimArray::new(shape, data).unwrap();
    assert_eq!(array.shape().ndim(), 2);
    assert_eq!(array.shape().size(), 6);
}

#[test]
fn test_array_access() {
    let shape = Shape::new(vec![2, 3]);
    let data = vec![1.0, 2.0, 3.0, 4.0, 5.0, 6.0];
    let array = MultiDimArray::new(shape, data).unwrap();
    let value = array.get(&vec![1, 1]).unwrap();
    assert_eq!(*value, 5.0);
}

#[test]
fn test_array_reshape() {
    let shape = Shape::new(vec![2, 3]);
    let data = vec![1.0, 2.0, 3.0, 4.0, 5.0, 6.0];
    let array = MultiDimArray::new(shape, data).unwrap();
    let reshaped = array.reshape(Shape::new(vec![3, 2])).unwrap();
    assert_eq!(reshaped.shape().dimensions(), &[3, 2]);
    assert_eq!(reshaped.to_vec(), array.to_vec());
}

#[test]
fn array_rejects_bad_shapes_and_lengths() {
    assert!(matches!(MultiDimArray::new(Shape::new(vec![2, 0]), Vec::<i64>::new()), Err(QuantumError::InvalidQuantumState { .. })));
    match MultiDimArray::new(Shape::new(vec![2, 2]), vec![1i64, 2, 3]) {
        Err(QuantumError::DimensionMismatch { expected, actual }) => {
            assert_eq!(expected, vec![4]);
            assert_eq!(actual, vec![3]);
        }
        other => panic!("unexpected {:?}", other),
    }
    let array = MultiDimArray::new(Shape::new(vec![2, 2]), vec![1i64, 2, 3, 4]).unwrap();
    assert!(matches!(array.reshape(Shape::new(vec![3])), Err(QuantumError::DimensionMismatch { .. })));
    assert!(matches!(array.get(&vec![2, 0]), Err(QuantumError::DimensionMismatch { .. })));
}

#[test]
fn array_set_then_get() {
    let mut array = MultiDimArray::new(Shape::new(vec![2, 3]), vec![0i32; 6]).unwrap();
    array.set(&vec![1, 2], 9).unwrap();
    assert_eq!(*array.get(&vec![1, 2]).unwrap(), 9);
    assert_eq!(array.data(), &[0, 0, 0, 0, 0, 9]);
}

#[test]
fn zeros_and_ones_fill_the_shape() {
    let zeros = MultiDimArray::<i64>::zeros(Shape::new(vec![2, 2])).unwrap();
    assert!(zeros.data().iter().all(|&x| x == 0));
    let ones = MultiDimArray::<i32>::ones(Shape::new(vec![2, 2])).unwrap();
    assert!(ones.data().iter().all(|&x| x == 1));
    assert_eq!(ones.data().len(), 4);
}

#[test]
fn test_array_transpose() {
    let shape = Shape::new(vec![2, 3]);
    let data = vec![1.0, 2.0, 3.0, 4.0, 5.0, 6.0];
    let array = MultiDimArray::new(shape, data).unwrap();
    let transposed = array.transpose(vec![1, 0]).unwrap();
    assert_eq!(transposed.shape().dimensions(), &[3, 2]);
    let expected_data = vec![1.0, 4.0, 2.0, 5.0, 3.0, 6.0];
    assert_eq!(transposed.to_vec(), expected_data);
}

#[test]
fn transpose_three_axes_and_rejections() {
    let data: Vec<i64> = (0..24).collect();
    let array = MultiDimArray::new(Shape::new(vec![2, 3, 4]), data).unwrap();
    let t = array.transpose(vec![2, 0, 1]).unwrap();
    assert_eq!(t.shape().dimensions(), &[4, 2, 3]);
    for a in 0..2 {
        for b in 0..3 {
            for c in 0..4 {
                assert_eq!(t.get(&vec![c, a, b]).unwrap(), array.get(&vec![a, b, c]).unwrap());
            }
        }
    }
    assert_eq!(array.transpose(vec![0, 1, 2]).unwrap().to_vec(), array.to_vec());
    assert!(matches!(array.transpose(vec![0, 1]), Err(QuantumError::DimensionMismatch { .. })));
    assert!(matches!(array.transpose(vec![0, 3, 1]), Err(QuantumError::DimensionMismatch { .. })));
    assert!(matches!(array.transpose(vec![0, 1, 1]), Err(QuantumError::InvalidQuantumState { .. })));
    assert!(matches!(array.transpose(vec![1, 1, 7]), Err(QuantumError::InvalidQuantumState { .. })));
}
