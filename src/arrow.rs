//! Column-oriented containers: a growable vector with format metadata,
//! a validity bitmap, zero-copy slices and a column-major matrix.
use vstd::prelude::*;

use vstd::std_specs::hash::obeys_key_model;

use crate::error::{QuantumError, QuantumResult};

verus! {

broadcast use vstd::std_specs::hash::group_hash_axioms;

/// How the elements of a buffer are laid out in memory.
#[derive(Debug, Clone, Copy, PartialEq, Eq, Structural)]
pub enum ArrowMemoryLayout {
    /// Column by column (the default).
    Columnar,
    /// Row by row.
    RowMajor,
    /// Compressed blocks.
    Compressed,
    /// Laid out for amplitude access.
    QuantumOptimized,
}

/// The compression applied to a buffer.
#[derive(Debug, Clone, Copy, PartialEq, Eq, Structural)]
pub enum ArrowCompression {
    NoCompression,
    LZ4,
    Snappy,
    Zstd,
    QuantumCompression,
}

/// The logical type of a column.
#[derive(Debug)]
pub enum ArrowDataType {
    Boolean,
    Int8,
    Int16,
    Int32,
    Int64,
    UInt8,
    UInt16,
    UInt32,
    UInt64,
    Float32,
    Float64,
    Utf8,
    Binary,
    List(Box<ArrowDataType>),
    Struct(Vec<ArrowField>),
    QuantumState,
}

/// A named column of a schema.
#[derive(Debug)]
pub struct ArrowField {
    pub name: String,
    pub data_type: ArrowDataType,
    pub nullable: bool,
    pub metadata: std::collections::HashMap<String, String>,
}

/// The columns of a record layout, with free-form metadata.
#[derive(Debug)]
pub struct ArrowSchema {
    pub fields: Vec<ArrowField>,
    pub metadata: std::collections::HashMap<String, String>,
}

impl ArrowSchema {
    /// A schema with no fields and no metadata.
    pub fn new() -> (r: ArrowSchema)
        ensures
            r.fields@.len() == 0,
            r.metadata@ == Map::<String, String>::empty(),
    {
        ArrowSchema { fields: Vec::new(), metadata: std::collections::HashMap::new() }
    }
}

/// Summary statistics of a column; unknown values are `None`.
#[derive(Debug, Clone)]
pub struct ArrowStats {
    pub min_value: Option<String>,
    pub max_value: Option<String>,
    pub null_count: usize,
    pub distinct_count: Option<usize>,
}

impl ArrowStats {
    /// Statistics with nothing known and no nulls.
    pub fn new() -> (r: ArrowStats)
        ensures
            r.min_value is None,
            r.max_value is None,
            r.null_count == 0,
            r.distinct_count is None,
    {
        ArrowStats { min_value: None, max_value: None, null_count: 0, distinct_count: None }
    }

    /// Records a new column length. The statistics kept here do not depend
    /// on the length, so nothing changes.
    pub fn update(&mut self, _length: usize)
        ensures
            final(self).min_value == old(self).min_value,
            final(self).max_value == old(self).max_value,
            final(self).null_count == old(self).null_count,
            final(self).distinct_count == old(self).distinct_count,
    {
    }
}

/// Format metadata of a column.
#[derive(Debug)]
pub struct ArrowMetadata {
    pub data_type: String,
    pub length: usize,
    pub null_count: usize,
    pub compression: ArrowCompression,
    pub schema: ArrowSchema,
    pub stats: ArrowStats,
}

impl ArrowMetadata {
    /// Metadata of an empty, uncompressed column of type `data_type`.
    pub fn new(data_type: &str) -> (r: ArrowMetadata)
        ensures
            r.data_type@ == data_type@,
            r.length == 0,
            r.null_count == 0,
            r.compression == ArrowCompression::NoCompression,
            r.schema.fields@.len() == 0,
            r.stats.null_count == 0,
    {
        ArrowMetadata {
            data_type: data_type.to_owned(),
            length: 0,
            null_count: 0,
            compression: ArrowCompression::NoCompression,
            schema: ArrowSchema::new(),
            stats: ArrowStats::new(),
        }
    }

    /// Records the column's new length.
    pub fn update_stats(&mut self, length: usize)
        ensures
            final(self).length == length,
            final(self).data_type == old(self).data_type,
            final(self).null_count == old(self).null_count,
            final(self).compression == old(self).compression,
    {
        self.length = length;
        self.stats.update(length);
    }
}

/// The type label of a column whose element type is not recorded.
pub const UNTYPED_COLUMN: &'static str = "untyped";

/// The storage of a column.
#[derive(Debug, Clone)]
pub struct ArrowBuffer<T> {
    data: Vec<T>,
    layout: ArrowMemoryLayout,
    compression: ArrowCompression,
}

impl<T> View for ArrowBuffer<T> {
    type V = Seq<T>;

    /// The stored elements.
    closed spec fn view(&self) -> Seq<T> {
        self.data@
    }
}

impl<T> ArrowBuffer<T> {
    /// An empty columnar, uncompressed buffer.
    pub fn new() -> (r: ArrowBuffer<T>)
        ensures
            r@.len() == 0,
    {
        ArrowBuffer { data: Vec::new(), layout: ArrowMemoryLayout::Columnar, compression: ArrowCompression::NoCompression }
    }

    /// An empty buffer with room for `capacity` elements.
    pub fn with_capacity(capacity: usize) -> (r: ArrowBuffer<T>)
        ensures
            r@.len() == 0,
    {
        ArrowBuffer {
            data: Vec::with_capacity(capacity),
            layout: ArrowMemoryLayout::Columnar,
            compression: ArrowCompression::NoCompression,
        }
    }

    /// Appends `value`.
    pub fn push(&mut self, value: T) -> (r: QuantumResult<()>)
        ensures
            r is Ok,
            final(self)@ == old(self)@.push(value),
    {
        self.data.push(value);
        Ok(())
    }

    /// The element at `index`, if there is one.
    pub fn get(&self, index: usize) -> (r: Option<&T>)
        ensures
            r is Some <==> index < self@.len(),
            r matches Some(v) ==> *v == self@[index as int],
    {
        if index < self.data.len() {
            Some(&self.data[index])
        } else {
            None
        }
    }
}

/// A growable column with format metadata.
#[derive(Debug)]
pub struct ArrowVec<T> {
    buffer: ArrowBuffer<T>,
    metadata: ArrowMetadata,
    length: usize,
    null_bitmap: Option<ArrowBitmap>,
}

impl<T> View for ArrowVec<T> {
    type V = Seq<T>;

    /// The elements, in order.
    closed spec fn view(&self) -> Seq<T> {
        self.buffer@
    }
}

impl<T> ArrowVec<T> {
    /// The element count agrees with the buffer and the metadata.
    pub closed spec fn wf(&self) -> bool {
        &&& self.length == self.buffer@.len()
        &&& self.metadata.length == self.length
    }

    /// An empty column.
    pub fn new() -> (r: ArrowVec<T>)
        ensures
            r.wf(),
            r@.len() == 0,
    {
        ArrowVec {
            buffer: ArrowBuffer::new(),
            metadata: ArrowMetadata::new(UNTYPED_COLUMN),
            length: 0,
            null_bitmap: None,
        }
    }

    /// An empty column with room for `capacity` elements.
    pub fn with_capacity(capacity: usize) -> (r: ArrowVec<T>)
        ensures
            r.wf(),
            r@.len() == 0,
    {
        ArrowVec {
            buffer: ArrowBuffer::with_capacity(capacity),
            metadata: ArrowMetadata::new(UNTYPED_COLUMN),
            length: 0,
            null_bitmap: None,
        }
    }

    /// Appends `value`.
    pub fn push(&mut self, value: T) -> (r: QuantumResult<()>)
        requires
            old(self).wf(),
            old(self)@.len() < usize::MAX,
        ensures
            r is Ok,
            final(self).wf(),
            final(self)@ == old(self)@.push(value),
    {
        let _ = self.buffer.push(value);
        self.length = self.length + 1;
        self.metadata.update_stats(self.length);
        Ok(())
    }

    /// The element at `index`, if there is one.
    pub fn get(&self, index: usize) -> (r: Option<&T>)
        requires
            self.wf(),
        ensures
            r is Some <==> index < self@.len(),
            r matches Some(v) ==> *v == self@[index as int],
    {
        if index < self.length {
            self.buffer.get(index)
        } else {
            None
        }
    }

    /// The number of elements.
    pub fn len(&self) -> (r: usize)
        requires
            self.wf(),
        ensures
            r == self@.len(),
    {
        self.length
    }

    /// Whether there are no elements.
    pub fn is_empty(&self) -> (r: bool)
        requires
            self.wf(),
        ensures
            r == (self@.len() == 0),
    {
        self.length == 0
    }

    /// A view of `length` elements from `start`, sharing this column's
    /// storage.
    pub fn slice(&self, start: usize, length: usize) -> (r: QuantumResult<ArrowVecSlice<'_, T>>)
        requires
            self.wf(),
        ensures
            r is Ok <==> start + length <= self@.len(),
            r matches Ok(s) ==> s.wf() && s@ == self@.subrange(start as int, start + length),
            r matches Err(e) ==> e is IntegrationError,
    {
        if length > self.length || start > self.length - length {
            return Err(QuantumError::IntegrationError { message: "Slice bounds out of range".to_string() });
        }
        Ok(ArrowVecSlice { buffer: &self.buffer, start, length, metadata: &self.metadata })
    }
}

/// A window onto part of a column's storage.
#[derive(Debug)]
pub struct ArrowVecSlice<'a, T> {
    buffer: &'a ArrowBuffer<T>,
    start: usize,
    length: usize,
    metadata: &'a ArrowMetadata,
}

impl<'a, T> View for ArrowVecSlice<'a, T> {
    type V = Seq<T>;

    /// The elements in the window.
    closed spec fn view(&self) -> Seq<T> {
        self.buffer@.subrange(self.start as int, self.start + self.length)
    }
}

impl<'a, T> ArrowVecSlice<'a, T> {
    /// The window lies inside the storage.
    pub closed spec fn wf(&self) -> bool {
        &&& self.start + self.length <= self.buffer@.len()
        &&& self.start + self.length <= usize::MAX
    }

    /// The element at `index` of the window, if there is one.
    pub fn get(&self, index: usize) -> (r: Option<&T>)
        requires
            self.wf(),
        ensures
            r is Some <==> index < self@.len(),
            r matches Some(v) ==> *v == self@[index as int],
    {
        if index < self.length {
            self.buffer.get(self.start + index)
        } else {
            None
        }
    }

    /// The number of elements in the window.
    pub fn len(&self) -> (r: usize)
        requires
            self.wf(),
        ensures
            r == self@.len(),
    {
        self.length
    }

    /// Whether the window is empty.
    pub fn is_empty(&self) -> (r: bool)
        requires
            self.wf(),
        ensures
            r == (self@.len() == 0),
    {
        self.length == 0
    }
}

/// Whether bit `p` of byte `b` is set.
pub open spec fn byte_bit(b: u8, p: u8) -> bool {
    (b >> p) & 1u8 != 0u8
}

proof fn lemma_set_clear_bit(b: u8, p: u8, q: u8)
    requires
        p < 8,
        q < 8,
    ensures
        byte_bit(b | (1u8 << p), q) == if p == q {
            true
        } else {
            byte_bit(b, q)
        },
        byte_bit(b & !(1u8 << p), q) == if p == q {
            false
        } else {
            byte_bit(b, q)
        },
        byte_bit(0u8, q) == false,
{
    assert(byte_bit(b | (1u8 << p), q) == if p == q {
        true
    } else {
        byte_bit(b, q)
    }) by (bit_vector)
        requires
            p < 8,
            q < 8,
    ;
    assert(byte_bit(b & !(1u8 << p), q) == if p == q {
        false
    } else {
        byte_bit(b, q)
    }) by (bit_vector)
        requires
            p < 8,
            q < 8,
    ;
    assert(byte_bit(0u8, q) == false) by (bit_vector);
}

/// A packed sequence of flags, eight to a byte, lowest bit first.
#[derive(Debug, Clone)]
pub struct ArrowBitmap {
    bits: Vec<u8>,
    length: usize,
}

impl View for ArrowBitmap {
    type V = Seq<bool>;

    /// The flags, in order.
    closed spec fn view(&self) -> Seq<bool> {
        Seq::new(self.length as nat, |i: int| byte_bit(self.bits@[i / 8], (i % 8) as u8))
    }
}

impl ArrowBitmap {
    /// There is a byte for every flag.
    pub closed spec fn wf(&self) -> bool {
        self.length <= 8 * self.bits@.len()
    }

    /// `length` flags, all clear.
    pub fn new(length: usize) -> (r: ArrowBitmap)
        ensures
            r.wf(),
            r@ == Seq::new(length as nat, |i: int| false),
    {
        let byte_count: usize = length / 8 + if length % 8 != 0 { 1 } else { 0 };
        let bits: Vec<u8> = vec![0u8; byte_count];
        let r = ArrowBitmap { bits, length };
        assert forall|i: int| 0 <= i < length implies r@[i] == false by {
            lemma_set_clear_bit(0u8, 0u8, (i % 8) as u8);
        }
        assert(r@ =~= Seq::new(length as nat, |i: int| false));
        r
    }

    /// Sets flag `index` to `value`; an index past the end is ignored.
    pub fn set_bit(&mut self, index: usize, value: bool)
        requires
            old(self).wf(),
        ensures
            final(self).wf(),
            final(self)@ == if index < old(self)@.len() {
                old(self)@.update(index as int, value)
            } else {
                old(self)@
            },
    {
        if index < self.length {
            let byte_index = index / 8;
            let bit_index = (index % 8) as u8;
            let ghost before = *self;
            let b = self.bits[byte_index];
            if value {
                self.bits[byte_index] = b | (1u8 << bit_index);
            } else {
                self.bits[byte_index] = b & !(1u8 << bit_index);
            }
            assert forall|i: int| 0 <= i < self.length implies self@[i] == before@.update(index as int, value)[i] by {
                lemma_set_clear_bit(b, bit_index, (i % 8) as u8);
                if i / 8 == byte_index && i != index {
                    assert(i % 8 != index % 8);
                }
            }
            assert(self@ =~= before@.update(index as int, value));
        }
    }

    /// Flag `index`; false past the end.
    pub fn get_bit(&self, index: usize) -> (r: bool)
        requires
            self.wf(),
        ensures
            r == (index < self@.len() && self@[index as int]),
    {
        if index < self.length {
            let byte_index = index / 8;
            let bit_index = (index % 8) as u8;
            (self.bits[byte_index] >> bit_index) & 1 != 0
        } else {
            false
        }
    }
}

/// A two-dimensional matrix over a flat buffer.
#[derive(Debug)]
pub struct ArrowMatrix<T> {
    buffer: ArrowBuffer<T>,
    rows: usize,
    cols: usize,
    layout: ArrowMemoryLayout,
    metadata: ArrowMetadata,
}

/// The buffer position of `(row, col)` in a `rows` by `cols` matrix laid out
/// as `layout`: column-major for the columnar layout, row-major otherwise.
pub open spec fn matrix_position(layout: ArrowMemoryLayout, rows: nat, cols: nat, row: nat, col: nat) -> nat {
    match layout {
        ArrowMemoryLayout::Columnar => col * rows + row,
        _ => row * cols + col,
    }
}

impl<T> ArrowMatrix<T> {
    /// The stored elements.
    pub closed spec fn elems(&self) -> Seq<T> {
        self.buffer@
    }

    /// The number of rows.
    pub closed spec fn spec_rows(&self) -> nat {
        self.rows as nat
    }

    /// The number of columns.
    pub closed spec fn spec_cols(&self) -> nat {
        self.cols as nat
    }

    /// The memory layout.
    pub closed spec fn spec_layout(&self) -> ArrowMemoryLayout {
        self.layout
    }

    /// Every position of the matrix has a buffer index.
    pub closed spec fn wf(&self) -> bool {
        self.rows * self.cols <= usize::MAX
    }

    /// An empty `rows` by `cols` matrix in the columnar layout; no element
    /// is stored until one is set.
    pub fn new(rows: usize, cols: usize) -> (r: ArrowMatrix<T>)
        requires
            rows * cols <= usize::MAX,
        ensures
            r.wf(),
            r.spec_rows() == rows,
            r.spec_cols() == cols,
            r.spec_layout() == ArrowMemoryLayout::Columnar,
            r.elems().len() == 0,
    {
        let capacity = rows * cols;
        ArrowMatrix {
            buffer: ArrowBuffer::with_capacity(capacity),
            rows,
            cols,
            layout: ArrowMemoryLayout::Columnar,
            metadata: ArrowMetadata::new(UNTYPED_COLUMN),
        }
    }

    /// The element at `(row, col)`, if the position is inside the matrix and
    /// has been stored.
    pub fn get(&self, row: usize, col: usize) -> (r: Option<&T>)
        requires
            self.wf(),
        ensures
            r is Some <==> row < self.spec_rows() && col < self.spec_cols() && matrix_position(
                self.spec_layout(),
                self.spec_rows(),
                self.spec_cols(),
                row as nat,
                col as nat,
            ) < self.elems().len(),
            r matches Some(v) ==> *v == self.elems()[matrix_position(
                self.spec_layout(),
                self.spec_rows(),
                self.spec_cols(),
                row as nat,
                col as nat,
            ) as int],
    {
        if row < self.rows && col < self.cols {
            proof {
                assert(col * self.rows + row < self.rows * self.cols) by (nonlinear_arith)
                    requires
                        row < self.rows,
                        col < self.cols,
                ;
                assert(row * self.cols + col < self.rows * self.cols) by (nonlinear_arith)
                    requires
                        row < self.rows,
                        col < self.cols,
                ;
            }
            let index = match self.layout {
                ArrowMemoryLayout::Columnar => col * self.rows + row,
                _ => row * self.cols + col,
            };
            self.buffer.get(index)
        } else {
            None
        }
    }

    /// The number of rows.
    pub fn rows(&self) -> (r: usize)
        ensures
            r == self.spec_rows(),
    {
        self.rows
    }

    /// The number of columns.
    pub fn cols(&self) -> (r: usize)
        ensures
            r == self.spec_cols(),
    {
        self.cols
    }
}

/// A hash map whose keys and values are kept in insertion order in two
/// columns, with a hash index from key to position. Its contracts describe
/// key types that hash and compare in the standard way (integers, for
/// instance).
#[derive(Debug)]
pub struct ArrowHashMap<K, V> {
    keys: ArrowVec<K>,
    values: ArrowVec<V>,
    hash_index: std::collections::HashMap<K, usize>,
    metadata: ArrowMetadata,
}

impl<K: Copy + std::hash::Hash + Eq, V: Copy> ArrowHashMap<K, V> {
    /// The number of stored keys.
    pub closed spec fn spec_len(&self) -> nat {
        self.keys@.len()
    }

    /// The key-value pairs.
    pub closed spec fn entries(&self) -> Map<K, V> {
        Map::new(|k: K| self.hash_index@.contains_key(k), |k: K| self.values@[self.hash_index@[k] as int])
    }

    /// Keys and values line up, and the index maps every stored key to its
    /// position.
    pub closed spec fn wf(&self) -> bool {
        &&& self.keys.wf()
        &&& self.values.wf()
        &&& self.keys@.len() == self.values@.len()
        &&& obeys_key_model::<K>() ==> {
            &&& forall|k: K|
                #![trigger self.hash_index@[k]]
                self.hash_index@.contains_key(k) ==> self.hash_index@[k] < self.keys@.len()
                    && self.keys@[self.hash_index@[k] as int] == k
            &&& forall|i: int|
                #![trigger self.keys@[i]]
                0 <= i < self.keys@.len() ==> self.hash_index@.contains_key(self.keys@[i])
                    && self.hash_index@[self.keys@[i]] == i
        }
    }

    /// An empty map.
    pub fn new() -> (r: ArrowHashMap<K, V>)
        ensures
            r.wf(),
            r.spec_len() == 0,
            obeys_key_model::<K>() ==> r.entries() == Map::<K, V>::empty(),
    {
        let r = ArrowHashMap {
            keys: ArrowVec::new(),
            values: ArrowVec::new(),
            hash_index: std::collections::HashMap::new(),
            metadata: ArrowMetadata::new("ArrowHashMap"),
        };
        assert(r.entries() =~= Map::<K, V>::empty());
        r
    }

    /// Adds `key` with `value` when the key is new. A key already present
    /// keeps its value, which is returned.
    pub fn insert(&mut self, key: K, value: V) -> (r: QuantumResult<Option<V>>)
        requires
            old(self).wf(),
            old(self).spec_len() < usize::MAX,
        ensures
            final(self).wf(),
            r is Ok,
            obeys_key_model::<K>() ==> if old(self).entries().contains_key(key) {
                &&& r == Ok::<Option<V>, QuantumError>(Some(old(self).entries()[key]))
                &&& final(self).entries() == old(self).entries()
                &&& final(self).spec_len() == old(self).spec_len()
            } else {
                &&& r == Ok::<Option<V>, QuantumError>(None)
                &&& final(self).entries() == old(self).entries().insert(key, value)
                &&& final(self).spec_len() == old(self).spec_len() + 1
            },
    {
        match self.hash_index.get(&key) {
            Some(index) => {
                let index = *index;
                if index < self.values.len() {
                    let old_value = match self.values.get(index) {
                        Some(v) => Some(*v),
                        None => None,
                    };
                    return Ok(old_value);
                }
                Ok(None)
            },
            None => {
                let ghost old_self = *self;
                let index = self.keys.len();
                let _ = self.keys.push(key);
                let _ = self.values.push(value);
                self.hash_index.insert(key, index);
                proof {
                    if obeys_key_model::<K>() {
                        assert forall|i: int| 0 <= i < self.keys@.len() implies self.hash_index@.contains_key(
                            self.keys@[i],
                        ) && self.hash_index@[self.keys@[i]] == i by {
                            if i < index {
                                assert(old_self.keys@[i] == self.keys@[i]);
                                assert(old_self.hash_index@.contains_key(old_self.keys@[i]));
                            }
                        }
                        assert(self.entries() =~= old_self.entries().insert(key, value));
                    }
                }
                Ok(None)
            },
        }
    }

    /// The value stored under `key`.
    pub fn get(&self, key: &K) -> (r: Option<&V>)
        requires
            self.wf(),
        ensures
            obeys_key_model::<K>() ==> {
                &&& r is Some <==> self.entries().contains_key(*key)
                &&& r matches Some(v) ==> *v == self.entries()[*key]
            },
    {
        match self.hash_index.get(key) {
            Some(index) => self.values.get(*index),
            None => None,
        }
    }

    /// The number of stored keys.
    pub fn len(&self) -> (r: usize)
        requires
            self.wf(),
        ensures
            r == self.spec_len(),
    {
        self.keys.len()
    }

    /// Whether no key is stored.
    pub fn is_empty(&self) -> (r: bool)
        requires
            self.wf(),
        ensures
            r == (self.spec_len() == 0),
    {
        self.keys.is_empty()
    }
}

/// How a copy was avoided.
#[derive(Debug, Clone, Copy, PartialEq, Eq, Structural)]
pub enum ZeroCopyOperationType {
    MemoryView,
    SliceOperation,
    ReferencePass,
}

/// One avoided copy: its kind, the bytes involved and the bytes saved.
#[derive(Debug, Clone, Copy, PartialEq, Eq, Structural)]
pub struct ZeroCopyOperation {
    pub operation_type: ZeroCopyOperationType,
    pub size: usize,
    pub savings: usize,
}

/// A log of avoided copies, in the order they were recorded.
#[derive(Debug, Clone)]
pub struct ZeroCopyTracker {
    operations: Vec<ZeroCopyOperation>,
}

impl View for ZeroCopyTracker {
    type V = Seq<ZeroCopyOperation>;

    /// The recorded operations, oldest first.
    closed spec fn view(&self) -> Seq<ZeroCopyOperation> {
        self.operations@
    }
}

impl ZeroCopyTracker {
    /// An empty log.
    pub fn new() -> (r: ZeroCopyTracker)
        ensures
            r@ == Seq::<ZeroCopyOperation>::empty(),
    {
        ZeroCopyTracker { operations: Vec::new() }
    }

    /// Records `operation` after the others.
    pub fn add_operation(&mut self, operation: ZeroCopyOperation)
        ensures
            final(self)@ == old(self)@.push(operation),
    {
        self.operations.push(operation);
    }
}

} // verus!
