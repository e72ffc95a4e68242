use vstd::prelude::*;

use crate::datatype::{DataType, DecimalTypeMeta, TimeUnit};
use crate::validity::mask_view;
use vstd::string::*;

verus! {

/// A calendar interval.
#[derive(Debug, Clone, Copy, PartialEq, Eq)]
pub struct IntervalValue {
    pub months: i32,
    pub days: i32,
    pub nanos: i64,
}

/// Offsets that delimit `offsets.len() - 1` consecutive slices of a buffer of
/// length `end`: they start at zero, never decrease, and end at `end`.
pub open spec fn offsets_wf(offsets: Seq<usize>, end: nat) -> bool {
    &&& offsets.len() >= 1
    &&& offsets[0] == 0
    &&& forall|i: int, j: int|
        0 <= i <= j < offsets.len() ==> #[trigger] offsets[i] <= #[trigger] offsets[j]
    &&& offsets.last() == end
}

/// Checks the structure of an offset buffer.
pub fn check_offsets(offsets: &Vec<usize>, end: usize) -> (r: bool)
    ensures
        r == offsets_wf(offsets@, end as nat),
{
    if offsets.len() == 0 || offsets[0] != 0 || offsets[offsets.len() - 1] != end {
        return false;
    }
    let mut i: usize = 1;
    while i < offsets.len()
        invariant
            1 <= i <= offsets@.len(),
            offsets@[0] == 0,
            forall|a: int, b: int| 0 <= a <= b < i ==> #[trigger] offsets@[a] <= #[trigger] offsets@[b],
        decreases offsets@.len() - i,
    {
        if offsets[i - 1] > offsets[i] {
            return false;
        }
        proof {
            assert forall|a: int, b: int| 0 <= a <= b < i + 1 implies #[trigger] offsets@[a]
                <= #[trigger] offsets@[b] by {
                if b == i as int && a < b {
                    assert(offsets@[a] <= offsets@[i - 1]);
                }
            }
        }
        i = i + 1;
    }
    true
}

/// Whether an optional mask covers exactly `len` rows.
pub open spec fn mask_len_ok(mask: Option<Vec<bool>>, len: nat) -> bool {
    mask matches Some(m) ==> m@.len() == len
}

/// Checks that an optional mask covers exactly `len` rows.
pub fn check_mask(mask: &Option<Vec<bool>>, len: usize) -> (r: bool)
    ensures
        r == mask_len_ok(*mask, len as nat),
{
    match mask {
        Some(m) => m.len() == len,
        None => true,
    }
}

/// A contiguous buffer of fixed-width values with an optional validity mask.
#[derive(Debug, Clone, PartialEq, Eq)]
pub struct PrimitiveArray<T> {
    pub values: Vec<T>,
    pub validity: Option<Vec<bool>>,
}

impl<T> PrimitiveArray<T> {
    pub open spec fn wf(&self) -> bool {
        mask_len_ok(self.validity, self.values@.len())
    }

    /// The row count and mask of this array, as concatenation sees them.
    pub open spec fn part(&self) -> (nat, Option<Seq<bool>>) {
        (self.values@.len(), mask_view(self.validity))
    }

    /// An array of the given values, all valid.
    pub fn from_values(values: Vec<T>) -> (r: Self)
        ensures
            r.values == values,
            r.validity is None,
            r.wf(),
    {
        PrimitiveArray { values, validity: None }
    }

    /// An array of the given values and mask; fails when the mask does not
    /// cover every value.
    pub fn try_new(values: Vec<T>, validity: Option<Vec<bool>>) -> (r: Option<Self>)
        ensures
            r is Some <==> mask_len_ok(validity, values@.len()),
            r matches Some(a) ==> a.values == values && a.validity == validity && a.wf(),
    {
        if check_mask(&validity, values.len()) {
            Some(PrimitiveArray { values, validity })
        } else {
            None
        }
    }

    pub fn len(&self) -> (r: usize)
        ensures
            r == self.values@.len(),
    {
        self.values.len()
    }
}

/// Boolean values with an optional validity mask.
#[derive(Debug, Clone, PartialEq, Eq)]
pub struct BooleanArray {
    pub values: Vec<bool>,
    pub validity: Option<Vec<bool>>,
}

impl BooleanArray {
    pub open spec fn wf(&self) -> bool {
        mask_len_ok(self.validity, self.values@.len())
    }

    pub open spec fn part(&self) -> (nat, Option<Seq<bool>>) {
        (self.values@.len(), mask_view(self.validity))
    }

    /// An array of the given values and mask; fails when the mask does not
    /// cover every value.
    pub fn try_new(values: Vec<bool>, validity: Option<Vec<bool>>) -> (r: Option<Self>)
        ensures
            r is Some <==> mask_len_ok(validity, values@.len()),
            r matches Some(a) ==> a.values == values && a.validity == validity && a.wf(),
    {
        if check_mask(&validity, values.len()) {
            Some(BooleanArray { values, validity })
        } else {
            None
        }
    }
}

/// An array of `len` rows that are all null.
#[derive(Debug, Clone, Copy, PartialEq, Eq)]
pub struct NullArray {
    pub len: usize,
}

impl NullArray {
    pub fn new(len: usize) -> (r: Self)
        ensures
            r.len == len,
    {
        NullArray { len }
    }
}

/// Fixed-point decimals: an integer array with a precision and a scale.
#[derive(Debug, Clone, PartialEq, Eq)]
pub struct DecimalArray<T> {
    pub precision: u8,
    pub scale: i8,
    pub array: PrimitiveArray<T>,
}

impl<T> DecimalArray<T> {
    pub fn new(precision: u8, scale: i8, array: PrimitiveArray<T>) -> (r: Self)
        ensures
            r.precision == precision,
            r.scale == scale,
            r.array == array,
    {
        DecimalArray { precision, scale, array }
    }
}

/// Timestamps: 64-bit counts of the given unit since the epoch.
#[derive(Debug, Clone, PartialEq, Eq)]
pub struct TimestampArray {
    pub unit: TimeUnit,
    pub array: PrimitiveArray<i64>,
}

impl TimestampArray {
    pub fn new(unit: TimeUnit, array: PrimitiveArray<i64>) -> (r: Self)
        ensures
            r.unit == unit,
            r.array == array,
    {
        TimestampArray { unit, array }
    }
}

/// Variable-length values (strings or byte strings) stored back to back in
/// one buffer: row `i` is `data[offsets[i]..offsets[i + 1]]`.
#[derive(Debug, Clone, PartialEq, Eq)]
pub struct VarlenArray {
    pub offsets: Vec<usize>,
    pub data: Vec<u8>,
    pub validity: Option<Vec<bool>>,
}

impl VarlenArray {
    pub open spec fn wf(&self) -> bool {
        &&& offsets_wf(self.offsets@, self.data@.len())
        &&& mask_len_ok(self.validity, (self.offsets@.len() - 1) as nat)
    }

    pub open spec fn spec_len(&self) -> nat {
        (self.offsets@.len() - 1) as nat
    }

    pub open spec fn part(&self) -> (nat, Option<Seq<bool>>) {
        (self.spec_len(), mask_view(self.validity))
    }

    /// The bytes of row `i`.
    pub open spec fn value_at(&self, i: int) -> Seq<u8> {
        self.data@.subrange(self.offsets@[i] as int, self.offsets@[i + 1] as int)
    }

    /// An array from offsets, bytes and a mask; fails unless the offsets
    /// delimit the bytes and the mask covers every row.
    pub fn try_new(offsets: Vec<usize>, data: Vec<u8>, validity: Option<Vec<bool>>) -> (r: Option<
        Self,
    >)
        ensures
            r is Some <==> (offsets_wf(offsets@, data@.len()) && mask_len_ok(
                validity,
                (offsets@.len() - 1) as nat,
            )),
            r matches Some(a) ==> a.offsets == offsets && a.data == data && a.validity == validity
                && a.wf(),
    {
        if !check_offsets(&offsets, data.len()) {
            return None;
        }
        if !check_mask(&validity, offsets.len() - 1) {
            return None;
        }
        Some(VarlenArray { offsets, data, validity })
    }

    /// An array holding the given strings, all valid.
    pub fn from_strs(values: &[&str]) -> (r: Self)
        requires
            values@.len() < usize::MAX,
        ensures
            r.wf(),
            r.validity is None,
            r.spec_len() == values@.len(),
            forall|i: int| 0 <= i < values@.len() ==> r.value_at(i) == values@[i].spec_bytes(),
    {
        let mut offsets: Vec<usize> = Vec::new();
        let mut data: Vec<u8> = Vec::new();
        offsets.push(0);
        let mut i: usize = 0;
        while i < values.len()
            invariant
                i <= values@.len(),
                offsets@.len() == i + 1,
                offsets_wf(offsets@, data@.len()),
                forall|k: int|
                    0 <= k < i ==> data@.subrange(offsets@[k] as int, offsets@[k + 1] as int)
                        == values@[k].spec_bytes(),
            decreases values@.len() - i,
        {
            let bytes = values[i].as_bytes();
            let ghost before = data@;
            let ghost old_offsets = offsets@;
            let mut j: usize = 0;
            while j < bytes.len()
                invariant
                    j <= bytes@.len(),
                    data@ == before + bytes@.subrange(0, j as int),
                decreases bytes@.len() - j,
            {
                data.push(bytes[j]);
                j = j + 1;
                proof {
                    assert(data@ =~= before + bytes@.subrange(0, j as int));
                }
            }
            proof {
                assert(bytes@.subrange(0, bytes@.len() as int) =~= bytes@);
            }
            let end = data.len();
            offsets.push(end);
            proof {
                assert forall|a: int, b: int|
                    0 <= a <= b < offsets@.len() implies #[trigger] offsets@[a]
                    <= #[trigger] offsets@[b] by {
                    if b == offsets@.len() - 1 && a < b {
                        assert(old_offsets[a] <= old_offsets.last());
                    }
                }
                assert forall|k: int| 0 <= k < i + 1 implies data@.subrange(
                    offsets@[k] as int,
                    offsets@[k + 1] as int,
                ) == values@[k].spec_bytes() by {
                    if k < i {
                        assert(offsets@[k] == old_offsets[k]);
                        assert(offsets@[k + 1] == old_offsets[k + 1]);
                        assert(old_offsets[k + 1] <= before.len());
                        assert(data@.subrange(offsets@[k] as int, offsets@[k + 1] as int)
                            =~= before.subrange(offsets@[k] as int, offsets@[k + 1] as int));
                    } else {
                        assert(data@.subrange(offsets@[k] as int, offsets@[k + 1] as int)
                            =~= bytes@);
                    }
                }
            }
            i = i + 1;
        }
        VarlenArray { offsets, data, validity: None }
    }

    pub fn len(&self) -> (r: usize)
        requires
            self.wf(),
        ensures
            r == self.spec_len(),
    {
        self.offsets.len() - 1
    }
}

/// Lists: row `i` is the slice `child[offsets[i]..offsets[i + 1]]`.
#[derive(Debug, PartialEq, Eq)]
pub struct ListArray {
    pub child: Box<Array>,
    pub offsets: Vec<usize>,
    pub validity: Option<Vec<bool>>,
}

impl ListArray {
    pub open spec fn spec_len(&self) -> nat {
        (self.offsets@.len() - 1) as nat
    }

    pub open spec fn part(&self) -> (nat, Option<Seq<bool>>) {
        (self.spec_len(), mask_view(self.validity))
    }

    /// A list array over `child`; fails unless the offsets delimit the child
    /// and the mask covers every row.
    pub fn try_new(child: Array, offsets: Vec<usize>, validity: Option<Vec<bool>>) -> (r: Option<
        Self,
    >)
        requires
            child.wf(),
        ensures
            r is Some <==> (offsets_wf(offsets@, child.spec_len()) && mask_len_ok(
                validity,
                (offsets@.len() - 1) as nat,
            )),
            r matches Some(a) ==> *a.child == child && a.offsets == offsets && a.validity
                == validity && Array::List(a).wf(),
    {
        let n = child.len();
        if !check_offsets(&offsets, n) {
            return None;
        }
        if !check_mask(&validity, offsets.len() - 1) {
            return None;
        }
        Some(ListArray { child: Box::new(child), offsets, validity })
    }
}

/// Named child arrays of equal length.
#[derive(Debug, PartialEq, Eq)]
pub struct StructArray {
    pub names: Vec<String>,
    pub children: Vec<Array>,
    pub len: usize,
}

pub type Int8Array = PrimitiveArray<i8>;
pub type Int16Array = PrimitiveArray<i16>;
pub type Int32Array = PrimitiveArray<i32>;
pub type Int64Array = PrimitiveArray<i64>;
pub type Int128Array = PrimitiveArray<i128>;
pub type UInt8Array = PrimitiveArray<u8>;
pub type UInt16Array = PrimitiveArray<u16>;
pub type UInt32Array = PrimitiveArray<u32>;
pub type UInt64Array = PrimitiveArray<u64>;
pub type UInt128Array = PrimitiveArray<u128>;
pub type Utf8Array = VarlenArray;
pub type BinaryArray = VarlenArray;

/// A column of values of one type.
///
/// Floating-point columns hold the IEEE-754 bit patterns of their values.
#[derive(Debug, PartialEq, Eq)]
pub enum Array {
    Null(NullArray),
    Boolean(BooleanArray),
    Int8(PrimitiveArray<i8>),
    Int16(PrimitiveArray<i16>),
    Int32(PrimitiveArray<i32>),
    Int64(PrimitiveArray<i64>),
    Int128(PrimitiveArray<i128>),
    UInt8(PrimitiveArray<u8>),
    UInt16(PrimitiveArray<u16>),
    UInt32(PrimitiveArray<u32>),
    UInt64(PrimitiveArray<u64>),
    UInt128(PrimitiveArray<u128>),
    Float32(PrimitiveArray<u32>),
    Float64(PrimitiveArray<u64>),
    Date32(PrimitiveArray<i32>),
    Date64(PrimitiveArray<i64>),
    Interval(PrimitiveArray<IntervalValue>),
    Decimal64(DecimalArray<i64>),
    Decimal128(DecimalArray<i128>),
    Timestamp(TimestampArray),
    Utf8(VarlenArray),
    LargeUtf8(VarlenArray),
    Binary(VarlenArray),
    LargeBinary(VarlenArray),
    Struct(StructArray),
    List(ListArray),
}

impl Array {
    /// Number of rows.
    pub open spec fn spec_len(&self) -> nat {
        match self {
            Array::Null(a) => a.len as nat,
            Array::Boolean(a) => a.values@.len(),
            Array::Int8(a) => a.values@.len(),
            Array::Int16(a) => a.values@.len(),
            Array::Int32(a) => a.values@.len(),
            Array::Int64(a) => a.values@.len(),
            Array::Int128(a) => a.values@.len(),
            Array::UInt8(a) => a.values@.len(),
            Array::UInt16(a) => a.values@.len(),
            Array::UInt32(a) => a.values@.len(),
            Array::UInt64(a) => a.values@.len(),
            Array::UInt128(a) => a.values@.len(),
            Array::Float32(a) => a.values@.len(),
            Array::Float64(a) => a.values@.len(),
            Array::Date32(a) => a.values@.len(),
            Array::Date64(a) => a.values@.len(),
            Array::Interval(a) => a.values@.len(),
            Array::Decimal64(a) => a.array.values@.len(),
            Array::Decimal128(a) => a.array.values@.len(),
            Array::Timestamp(a) => a.array.values@.len(),
            Array::Utf8(a) => a.spec_len(),
            Array::LargeUtf8(a) => a.spec_len(),
            Array::Binary(a) => a.spec_len(),
            Array::LargeBinary(a) => a.spec_len(),
            Array::Struct(a) => a.len as nat,
            Array::List(a) => a.spec_len(),
        }
    }

    /// The validity mask; `None` when every row is valid, and for the null
    /// array, whose rows are all null.
    pub open spec fn spec_validity(&self) -> Option<Seq<bool>> {
        match self {
            Array::Null(_) => None,
            Array::Boolean(a) => mask_view(a.validity),
            Array::Int8(a) => mask_view(a.validity),
            Array::Int16(a) => mask_view(a.validity),
            Array::Int32(a) => mask_view(a.validity),
            Array::Int64(a) => mask_view(a.validity),
            Array::Int128(a) => mask_view(a.validity),
            Array::UInt8(a) => mask_view(a.validity),
            Array::UInt16(a) => mask_view(a.validity),
            Array::UInt32(a) => mask_view(a.validity),
            Array::UInt64(a) => mask_view(a.validity),
            Array::UInt128(a) => mask_view(a.validity),
            Array::Float32(a) => mask_view(a.validity),
            Array::Float64(a) => mask_view(a.validity),
            Array::Date32(a) => mask_view(a.validity),
            Array::Date64(a) => mask_view(a.validity),
            Array::Interval(a) => mask_view(a.validity),
            Array::Decimal64(a) => mask_view(a.array.validity),
            Array::Decimal128(a) => mask_view(a.array.validity),
            Array::Timestamp(a) => mask_view(a.array.validity),
            Array::Utf8(a) => mask_view(a.validity),
            Array::LargeUtf8(a) => mask_view(a.validity),
            Array::Binary(a) => mask_view(a.validity),
            Array::LargeBinary(a) => mask_view(a.validity),
            Array::Struct(_) => None,
            Array::List(a) => mask_view(a.validity),
        }
    }

    /// The type of the values.
    pub open spec fn spec_datatype(&self) -> DataType
        decreases *self,
    {
        match self {
            Array::Null(_) => DataType::Null,
            Array::Boolean(_) => DataType::Boolean,
            Array::Int8(_) => DataType::Int8,
            Array::Int16(_) => DataType::Int16,
            Array::Int32(_) => DataType::Int32,
            Array::Int64(_) => DataType::Int64,
            Array::Int128(_) => DataType::Int128,
            Array::UInt8(_) => DataType::UInt8,
            Array::UInt16(_) => DataType::UInt16,
            Array::UInt32(_) => DataType::UInt32,
            Array::UInt64(_) => DataType::UInt64,
            Array::UInt128(_) => DataType::UInt128,
            Array::Float32(_) => DataType::Float32,
            Array::Float64(_) => DataType::Float64,
            Array::Date32(_) => DataType::Date32,
            Array::Date64(_) => DataType::Date64,
            Array::Interval(_) => DataType::Interval,
            Array::Decimal64(a) => DataType::Decimal64(
                DecimalTypeMeta { precision: a.precision, scale: a.scale },
            ),
            Array::Decimal128(a) => DataType::Decimal128(
                DecimalTypeMeta { precision: a.precision, scale: a.scale },
            ),
            Array::Timestamp(a) => DataType::Timestamp(a.unit),
            Array::Utf8(_) => DataType::Utf8,
            Array::LargeUtf8(_) => DataType::LargeUtf8,
            Array::Binary(_) => DataType::Binary,
            Array::LargeBinary(_) => DataType::LargeBinary,
            Array::Struct(a) => DataType::Struct(a.children@.len() as usize),
            Array::List(a) => DataType::List(Box::new(a.child.spec_datatype())),
        }
    }

    /// Structural well-formedness: masks cover every row, offsets delimit
    /// their buffers, children are well formed.
    pub open spec fn wf(&self) -> bool
        decreases *self,
    {
        match self {
            Array::Null(_) => true,
            Array::Boolean(a) => a.wf(),
            Array::Int8(a) => a.wf(),
            Array::Int16(a) => a.wf(),
            Array::Int32(a) => a.wf(),
            Array::Int64(a) => a.wf(),
            Array::Int128(a) => a.wf(),
            Array::UInt8(a) => a.wf(),
            Array::UInt16(a) => a.wf(),
            Array::UInt32(a) => a.wf(),
            Array::UInt64(a) => a.wf(),
            Array::UInt128(a) => a.wf(),
            Array::Float32(a) => a.wf(),
            Array::Float64(a) => a.wf(),
            Array::Date32(a) => a.wf(),
            Array::Date64(a) => a.wf(),
            Array::Interval(a) => a.wf(),
            Array::Decimal64(a) => a.array.wf(),
            Array::Decimal128(a) => a.array.wf(),
            Array::Timestamp(a) => a.array.wf(),
            Array::Utf8(a) => a.wf(),
            Array::LargeUtf8(a) => a.wf(),
            Array::Binary(a) => a.wf(),
            Array::LargeBinary(a) => a.wf(),
            Array::Struct(a) => {
                &&& a.names@.len() == a.children@.len()
                &&& forall|i: int|
                    0 <= i < a.children@.len() ==> (#[trigger] a.children@[i]).wf()
                        && a.children@[i].spec_len() == a.len
            },
            Array::List(a) => {
                &&& a.child.wf()
                &&& offsets_wf(a.offsets@, a.child.spec_len())
                &&& mask_len_ok(a.validity, a.spec_len())
            },
        }
    }

    /// Number of rows.
    pub fn len(&self) -> (r: usize)
        requires
            self.wf(),
        ensures
            r == self.spec_len(),
    {
        match self {
            Array::Null(a) => a.len,
            Array::Boolean(a) => a.values.len(),
            Array::Int8(a) => a.values.len(),
            Array::Int16(a) => a.values.len(),
            Array::Int32(a) => a.values.len(),
            Array::Int64(a) => a.values.len(),
            Array::Int128(a) => a.values.len(),
            Array::UInt8(a) => a.values.len(),
            Array::UInt16(a) => a.values.len(),
            Array::UInt32(a) => a.values.len(),
            Array::UInt64(a) => a.values.len(),
            Array::UInt128(a) => a.values.len(),
            Array::Float32(a) => a.values.len(),
            Array::Float64(a) => a.values.len(),
            Array::Date32(a) => a.values.len(),
            Array::Date64(a) => a.values.len(),
            Array::Interval(a) => a.values.len(),
            Array::Decimal64(a) => a.array.values.len(),
            Array::Decimal128(a) => a.array.values.len(),
            Array::Timestamp(a) => a.array.values.len(),
            Array::Utf8(a) => a.offsets.len() - 1,
            Array::LargeUtf8(a) => a.offsets.len() - 1,
            Array::Binary(a) => a.offsets.len() - 1,
            Array::LargeBinary(a) => a.offsets.len() - 1,
            Array::Struct(a) => a.len,
            Array::List(a) => a.offsets.len() - 1,
        }
    }

    /// The type of the values.
    pub fn datatype(&self) -> (r: DataType)
        ensures
            r == self.spec_datatype(),
        decreases *self,
    {
        match self {
            Array::Null(_) => DataType::Null,
            Array::Boolean(_) => DataType::Boolean,
            Array::Int8(_) => DataType::Int8,
            Array::Int16(_) => DataType::Int16,
            Array::Int32(_) => DataType::Int32,
            Array::Int64(_) => DataType::Int64,
            Array::Int128(_) => DataType::Int128,
            Array::UInt8(_) => DataType::UInt8,
            Array::UInt16(_) => DataType::UInt16,
            Array::UInt32(_) => DataType::UInt32,
            Array::UInt64(_) => DataType::UInt64,
            Array::UInt128(_) => DataType::UInt128,
            Array::Float32(_) => DataType::Float32,
            Array::Float64(_) => DataType::Float64,
            Array::Date32(_) => DataType::Date32,
            Array::Date64(_) => DataType::Date64,
            Array::Interval(_) => DataType::Interval,
            Array::Decimal64(a) => DataType::Decimal64(
                DecimalTypeMeta { precision: a.precision, scale: a.scale },
            ),
            Array::Decimal128(a) => DataType::Decimal128(
                DecimalTypeMeta { precision: a.precision, scale: a.scale },
            ),
            Array::Timestamp(a) => DataType::Timestamp(a.unit),
            Array::Utf8(_) => DataType::Utf8,
            Array::LargeUtf8(_) => DataType::LargeUtf8,
            Array::Binary(_) => DataType::Binary,
            Array::LargeBinary(_) => DataType::LargeBinary,
            Array::Struct(a) => DataType::Struct(a.children.len()),
            Array::List(a) => DataType::List(Box::new(a.child.datatype())),
        }
    }

    /// The validity mask, if the array has one.
    pub fn validity(&self) -> (r: Option<&Vec<bool>>)
        ensures
            r matches Some(m) ==> self.spec_validity() == Some(m@),
            r is None ==> self.spec_validity() is None,
    {
        match self {
            Array::Null(_) => None,
            Array::Boolean(a) => a.validity.as_ref(),
            Array::Int8(a) => a.validity.as_ref(),
            Array::Int16(a) => a.validity.as_ref(),
            Array::Int32(a) => a.validity.as_ref(),
            Array::Int64(a) => a.validity.as_ref(),
            Array::Int128(a) => a.validity.as_ref(),
            Array::UInt8(a) => a.validity.as_ref(),
            Array::UInt16(a) => a.validity.as_ref(),
            Array::UInt32(a) => a.validity.as_ref(),
            Array::UInt64(a) => a.validity.as_ref(),
            Array::UInt128(a) => a.validity.as_ref(),
            Array::Float32(a) => a.validity.as_ref(),
            Array::Float64(a) => a.validity.as_ref(),
            Array::Date32(a) => a.validity.as_ref(),
            Array::Date64(a) => a.validity.as_ref(),
            Array::Interval(a) => a.validity.as_ref(),
            Array::Decimal64(a) => a.array.validity.as_ref(),
            Array::Decimal128(a) => a.array.validity.as_ref(),
            Array::Timestamp(a) => a.array.validity.as_ref(),
            Array::Utf8(a) => a.validity.as_ref(),
            Array::LargeUtf8(a) => a.validity.as_ref(),
            Array::Binary(a) => a.validity.as_ref(),
            Array::LargeBinary(a) => a.validity.as_ref(),
            Array::Struct(_) => None,
            Array::List(a) => a.validity.as_ref(),
        }
    }

    /// Whether row `i` holds a value.
    pub open spec fn spec_is_valid(&self, i: int) -> bool {
        if self is Null {
            false
        } else {
            match self.spec_validity() {
                Some(m) => m[i],
                None => true,
            }
        }
    }

    /// Whether row `i` holds a value.
    pub fn is_valid(&self, i: usize) -> (r: bool)
        requires
            self.wf(),
            i < self.spec_len(),
        ensures
            r == self.spec_is_valid(i as int),
    {
        if let Array::Null(_) = self {
            return false;
        }
        match self.validity() {
            Some(m) => m[i],
            None => true,
        }
    }
}

} // verus!
