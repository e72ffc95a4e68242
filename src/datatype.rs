use vstd::prelude::*;

verus! {

/// Unit of a timestamp.
#[derive(Debug, Clone, Copy, PartialEq, Eq, Structural)]
pub enum TimeUnit {
    Second,
    Millisecond,
    Microsecond,
    Nanosecond,
}

/// Precision and scale of a decimal type.
#[derive(Debug, Clone, Copy, PartialEq, Eq, Structural)]
pub struct DecimalTypeMeta {
    pub precision: u8,
    pub scale: i8,
}

/// Describes the logical type of an array.
#[derive(Debug, PartialEq, Eq)]
pub enum DataType {
    Null,
    Boolean,
    Int8,
    Int16,
    Int32,
    Int64,
    Int128,
    UInt8,
    UInt16,
    UInt32,
    UInt64,
    UInt128,
    Float32,
    Float64,
    Date32,
    Date64,
    Interval,
    Utf8,
    LargeUtf8,
    Binary,
    LargeBinary,
    Decimal64(DecimalTypeMeta),
    Decimal128(DecimalTypeMeta),
    Timestamp(TimeUnit),
    /// A struct with the given number of fields.
    Struct(usize),
    /// A list whose elements have the given type.
    List(Box<DataType>),
}

/// The name of a type's variant.
pub open spec fn variant_name(dt: DataType) -> Seq<char> {
    match dt {
        DataType::Null => "Null"@,
        DataType::Boolean => "Boolean"@,
        DataType::Int8 => "Int8"@,
        DataType::Int16 => "Int16"@,
        DataType::Int32 => "Int32"@,
        DataType::Int64 => "Int64"@,
        DataType::Int128 => "Int128"@,
        DataType::UInt8 => "UInt8"@,
        DataType::UInt16 => "UInt16"@,
        DataType::UInt32 => "UInt32"@,
        DataType::UInt64 => "UInt64"@,
        DataType::UInt128 => "UInt128"@,
        DataType::Float32 => "Float32"@,
        DataType::Float64 => "Float64"@,
        DataType::Date32 => "Date32"@,
        DataType::Date64 => "Date64"@,
        DataType::Interval => "Interval"@,
        DataType::Utf8 => "Utf8"@,
        DataType::LargeUtf8 => "LargeUtf8"@,
        DataType::Binary => "Binary"@,
        DataType::LargeBinary => "LargeBinary"@,
        DataType::Decimal64(_) => "Decimal64"@,
        DataType::Decimal128(_) => "Decimal128"@,
        DataType::Timestamp(_) => "Timestamp"@,
        DataType::Struct(_) => "Struct"@,
        DataType::List(_) => "List"@,
    }
}

/// Whether a struct type occurs in `dt`.
pub open spec fn contains_struct(dt: DataType) -> bool
    decreases dt,
{
    match dt {
        DataType::Struct(_) => true,
        DataType::List(inner) => contains_struct(*inner),
        _ => false,
    }
}

impl Clone for DataType {
    fn clone(&self) -> (r: Self)
        ensures
            r == *self,
        decreases *self,
    {
        match self {
            DataType::List(inner) => DataType::List(Box::new((**inner).clone())),
            DataType::Null => DataType::Null,
            DataType::Boolean => DataType::Boolean,
            DataType::Int8 => DataType::Int8,
            DataType::Int16 => DataType::Int16,
            DataType::Int32 => DataType::Int32,
            DataType::Int64 => DataType::Int64,
            DataType::Int128 => DataType::Int128,
            DataType::UInt8 => DataType::UInt8,
            DataType::UInt16 => DataType::UInt16,
            DataType::UInt32 => DataType::UInt32,
            DataType::UInt64 => DataType::UInt64,
            DataType::UInt128 => DataType::UInt128,
            DataType::Float32 => DataType::Float32,
            DataType::Float64 => DataType::Float64,
            DataType::Date32 => DataType::Date32,
            DataType::Date64 => DataType::Date64,
            DataType::Interval => DataType::Interval,
            DataType::Utf8 => DataType::Utf8,
            DataType::LargeUtf8 => DataType::LargeUtf8,
            DataType::Binary => DataType::Binary,
            DataType::LargeBinary => DataType::LargeBinary,
            DataType::Decimal64(m) => DataType::Decimal64(*m),
            DataType::Decimal128(m) => DataType::Decimal128(*m),
            DataType::Timestamp(u) => DataType::Timestamp(*u),
            DataType::Struct(n) => DataType::Struct(*n),
        }
    }
}

impl DataType {
    /// Whether a struct type occurs in this type.
    pub fn has_struct(&self) -> (r: bool)
        ensures
            r == contains_struct(*self),
        decreases *self,
    {
        match self {
            DataType::Struct(_) => true,
            DataType::List(inner) => inner.has_struct(),
            _ => false,
        }
    }

    /// The name of the type's variant.
    pub fn name(&self) -> (r: &'static str)
        ensures
            r@ == variant_name(*self),
    {
        match self {
            DataType::Null => "Null",
            DataType::Boolean => "Boolean",
            DataType::Int8 => "Int8",
            DataType::Int16 => "Int16",
            DataType::Int32 => "Int32",
            DataType::Int64 => "Int64",
            DataType::Int128 => "Int128",
            DataType::UInt8 => "UInt8",
            DataType::UInt16 => "UInt16",
            DataType::UInt32 => "UInt32",
            DataType::UInt64 => "UInt64",
            DataType::UInt128 => "UInt128",
            DataType::Float32 => "Float32",
            DataType::Float64 => "Float64",
            DataType::Date32 => "Date32",
            DataType::Date64 => "Date64",
            DataType::Interval => "Interval",
            DataType::Utf8 => "Utf8",
            DataType::LargeUtf8 => "LargeUtf8",
            DataType::Binary => "Binary",
            DataType::LargeBinary => "LargeBinary",
            DataType::Decimal64(_) => "Decimal64",
            DataType::Decimal128(_) => "Decimal128",
            DataType::Timestamp(_) => "Timestamp",
            DataType::Struct(_) => "Struct",
            DataType::List(_) => "List",
        }
    }

    /// Whether `self` and `other` are the same type.
    pub fn equals(&self, other: &DataType) -> (r: bool)
        ensures
            r == (*self == *other),
        decreases *self,
    {
        match (self, other) {
            (DataType::Null, DataType::Null) => true,
            (DataType::Boolean, DataType::Boolean) => true,
            (DataType::Int8, DataType::Int8) => true,
            (DataType::Int16, DataType::Int16) => true,
            (DataType::Int32, DataType::Int32) => true,
            (DataType::Int64, DataType::Int64) => true,
            (DataType::Int128, DataType::Int128) => true,
            (DataType::UInt8, DataType::UInt8) => true,
            (DataType::UInt16, DataType::UInt16) => true,
            (DataType::UInt32, DataType::UInt32) => true,
            (DataType::UInt64, DataType::UInt64) => true,
            (DataType::UInt128, DataType::UInt128) => true,
            (DataType::Float32, DataType::Float32) => true,
            (DataType::Float64, DataType::Float64) => true,
            (DataType::Date32, DataType::Date32) => true,
            (DataType::Date64, DataType::Date64) => true,
            (DataType::Interval, DataType::Interval) => true,
            (DataType::Utf8, DataType::Utf8) => true,
            (DataType::LargeUtf8, DataType::LargeUtf8) => true,
            (DataType::Binary, DataType::Binary) => true,
            (DataType::LargeBinary, DataType::LargeBinary) => true,
            (DataType::Decimal64(a), DataType::Decimal64(b)) => a.precision == b.precision
                && a.scale == b.scale,
            (DataType::Decimal128(a), DataType::Decimal128(b)) => a.precision == b.precision
                && a.scale == b.scale,
            (DataType::Timestamp(a), DataType::Timestamp(b)) => *a == *b,
            (DataType::Struct(a), DataType::Struct(b)) => *a == *b,
            (DataType::List(a), DataType::List(b)) => a.equals(b),
            _ => false,
        }
    }
}

} // verus!
