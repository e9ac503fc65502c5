use quantum::arrow::{ArrowBitmap, ArrowBuffer, ArrowCompression, ArrowHashMap, ArrowMatrix, ArrowMetadata, ArrowSchema, ArrowStats, ArrowVec, ZeroCopyOperation, ZeroCopyOperationType, ZeroCopyTracker};
use quantum::error::QuantumError;

#[test]
fn arrow_vec_push_get_and_slice() {
    let mut v: ArrowVec<u32> = ArrowVec::with_capacity(4);
    assert!(v.is_empty());
    for x in [10u32, 20, 30, 40] {
        v.push(x).unwrap();
    }
    assert_eq!(v.len(), 4);
    assert_eq!(v.get(2), Some(&30));
    assert_eq!(v.get(4), None);
    let s = v.slice(1, 2).unwrap();
    assert_eq!(s.len(), 2);
    assert!(!s.is_empty());
    assert_eq!(s.get(0), Some(&20));
    assert_eq!(s.get(1), Some(&30));
    assert_eq!(s.get(2), None);
    assert!(matches!(v.slice(3, 2), Err(QuantumError::IntegrationError { .. })));
    assert!(v.slice(4, 0).unwrap().is_empty());
}

#[test]
fn arrow_buffer_and_metadata() {
    let mut b: ArrowBuffer<i8> = ArrowBuffer::new();
    assert_eq!(b.get(0), None);
    b.push(-3).unwrap();
    assert_eq!(b.get(0), Some(&-3));
    let mut m = ArrowMetadata::new("int8");
    assert_eq!(m.data_type, "int8");
    assert_eq!(m.compression, ArrowCompression::NoCompression);
    m.update_stats(5);
    assert_eq!(m.length, 5);
    let schema = ArrowSchema::new();
    assert!(schema.fields.is_empty() && schema.metadata.is_empty());
    let stats = ArrowStats::new();
    assert!(stats.min_value.is_none() && stats.distinct_count.is_none());
}

#[test]
fn bitmap_sets_and_clears_single_bits() {
    let mut bitmap = ArrowBitmap::new(11);
    assert!((0..11).all(|i| !bitmap.get_bit(i)));
    bitmap.set_bit(9, true);
    bitmap.set_bit(3, true);
    bitmap.set_bit(11, true);
    assert!(bitmap.get_bit(9) && bitmap.get_bit(3));
    assert!(!bitmap.get_bit(8) && !bitmap.get_bit(10) && !bitmap.get_bit(11));
    bitmap.set_bit(9, false);
    assert!(!bitmap.get_bit(9) && bitmap.get_bit(3));
}

#[test]
fn matrix_dimensions_and_empty_storage() {
    let m: ArrowMatrix<u8> = ArrowMatrix::new(2, 3);
    assert_eq!(m.rows(), 2);
    assert_eq!(m.cols(), 3);
    assert_eq!(m.get(1, 2), None);
    assert_eq!(m.get(2, 0), None);
}

#[test]
fn hash_map_keeps_first_value() {
    let mut map: ArrowHashMap<u64, i32> = ArrowHashMap::new();
    assert!(map.is_empty());
    assert_eq!(map.insert(5, 50).unwrap(), None);
    assert_eq!(map.insert(6, 60).unwrap(), None);
    assert_eq!(map.insert(5, 55).unwrap(), Some(50));
    assert_eq!(map.len(), 2);
    assert_eq!(map.get(&5), Some(&50));
    assert_eq!(map.get(&6), Some(&60));
    assert_eq!(map.get(&7), None);
}

#[test]
fn zero_copy_tracker_records_in_order() {
    let mut tracker = ZeroCopyTracker::new();
    tracker.add_operation(ZeroCopyOperation { operation_type: ZeroCopyOperationType::SliceOperation, size: 8, savings: 8 });
    tracker.add_operation(ZeroCopyOperation { operation_type: ZeroCopyOperationType::MemoryView, size: 4, savings: 2 });
    let _ = tracker.clone();
}
