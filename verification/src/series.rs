//! Key columns as the join takes them: a data type and the chunks of a column.
use vstd::prelude::*;
use crate::array::{count_nulls, Scalar};
use crate::chunked::{BinaryChunked, PrimitiveChunked};
use crate::datatypes::{ArrowDataType, BitWidth};
use crate::normalize::normalized;

verus! {

/// The data type of a key column.
#[derive(Clone, Copy, Debug, PartialEq, Eq, Structural)]
pub enum DataType {
    Int32,
    Int64,
    Int128,
    UInt32,
    UInt64,
    Float32,
    Float64,
    /// Days since the epoch, held as 32-bit integers.
    Date,
    /// Instants, held as 64-bit integers.
    Datetime,
    /// Durations, held as 64-bit integers.
    Duration,
    /// Times of day, held as 64-bit integers.
    Time,
    /// Categories, held as their 32-bit codes.
    Categorical,
    /// Values of an enumeration, held as their 32-bit codes.
    Enum,
    String,
    Binary,
    BinaryOffset,
    /// A column of lists. Its rows are given in their row encoding.
    List,
    /// A column of arrays of one size. Its rows are given in their row encoding.
    Array,
    /// A column of structs. Its rows are given in their row encoding.
    Struct,
    Null,
}

/// The form in which the keys of a column are joined on.
#[derive(Clone, Copy, Debug, PartialEq, Eq, Structural)]
pub enum KeyRepr {
    /// Bit patterns of a width.
    Bits(BitWidth),
    /// Canonical bit patterns of floating-point values of a width.
    Float(BitWidth),
    /// Byte strings.
    Bytes,
    /// Encoded rows.
    Rows,
}

impl DataType {
    pub open spec fn spec_key_repr(self) -> Option<KeyRepr> {
        match self {
            DataType::Int32 | DataType::UInt32 | DataType::Date | DataType::Categorical
            | DataType::Enum => Some(KeyRepr::Bits(BitWidth::W32)),
            DataType::Int64 | DataType::UInt64 | DataType::Datetime | DataType::Duration
            | DataType::Time => Some(KeyRepr::Bits(BitWidth::W64)),
            DataType::Int128 => Some(KeyRepr::Bits(BitWidth::W128)),
            DataType::Float32 => Some(KeyRepr::Float(BitWidth::W32)),
            DataType::Float64 => Some(KeyRepr::Float(BitWidth::W64)),
            DataType::String | DataType::Binary | DataType::BinaryOffset => Some(KeyRepr::Bytes),
            DataType::List | DataType::Array | DataType::Struct => Some(KeyRepr::Rows),
            DataType::Null => None,
        }
    }

    /// The form in which keys of this type are joined on, if there is one.
    #[verifier::when_used_as_spec(spec_key_repr)]
    pub fn key_repr(self) -> (r: Option<KeyRepr>)
        ensures
            r == self.spec_key_repr(),
    {
        match self {
            DataType::Int32 | DataType::UInt32 | DataType::Date | DataType::Categorical
            | DataType::Enum => Some(KeyRepr::Bits(BitWidth::W32)),
            DataType::Int64 | DataType::UInt64 | DataType::Datetime | DataType::Duration
            | DataType::Time => Some(KeyRepr::Bits(BitWidth::W64)),
            DataType::Int128 => Some(KeyRepr::Bits(BitWidth::W128)),
            DataType::Float32 => Some(KeyRepr::Float(BitWidth::W32)),
            DataType::Float64 => Some(KeyRepr::Float(BitWidth::W64)),
            DataType::String | DataType::Binary | DataType::BinaryOffset => Some(KeyRepr::Bytes),
            DataType::List | DataType::Array | DataType::Struct => Some(KeyRepr::Rows),
            DataType::Null => None,
        }
    }

    pub open spec fn spec_to_arrow(self) -> ArrowDataType {
        match self {
            DataType::Int32 => ArrowDataType::Int32,
            DataType::Int64 => ArrowDataType::Int64,
            DataType::Int128 => ArrowDataType::Int128,
            DataType::UInt32 => ArrowDataType::UInt32,
            DataType::UInt64 => ArrowDataType::UInt64,
            DataType::Float32 => ArrowDataType::Float32,
            DataType::Float64 => ArrowDataType::Float64,
            DataType::Date => ArrowDataType::Int32,
            DataType::Datetime | DataType::Duration | DataType::Time => ArrowDataType::Int64,
            DataType::Categorical | DataType::Enum => ArrowDataType::UInt32,
            DataType::String => ArrowDataType::LargeUtf8,
            DataType::Binary | DataType::BinaryOffset => ArrowDataType::LargeBinary,
            DataType::List | DataType::Array | DataType::Struct => ArrowDataType::LargeBinary,
            DataType::Null => ArrowDataType::Null,
        }
    }

    /// The type of the arrays that hold a column of this type.
    #[verifier::when_used_as_spec(spec_to_arrow)]
    pub fn to_arrow(self) -> (a: ArrowDataType)
        ensures
            a == self.spec_to_arrow(),
    {
        match self {
            DataType::Int32 => ArrowDataType::Int32,
            DataType::Int64 => ArrowDataType::Int64,
            DataType::Int128 => ArrowDataType::Int128,
            DataType::UInt32 => ArrowDataType::UInt32,
            DataType::UInt64 => ArrowDataType::UInt64,
            DataType::Float32 => ArrowDataType::Float32,
            DataType::Float64 => ArrowDataType::Float64,
            DataType::Date => ArrowDataType::Int32,
            DataType::Datetime | DataType::Duration | DataType::Time => ArrowDataType::Int64,
            DataType::Categorical | DataType::Enum => ArrowDataType::UInt32,
            DataType::String => ArrowDataType::LargeUtf8,
            DataType::Binary | DataType::BinaryOffset => ArrowDataType::LargeBinary,
            DataType::List | DataType::Array | DataType::Struct => ArrowDataType::LargeBinary,
            DataType::Null => ArrowDataType::Null,
        }
    }

    /// The width of the floating-point values of this type, if it is one
    /// of floating-point values.
    pub open spec fn float_width(self) -> Option<BitWidth> {
        match self.spec_key_repr() {
            Some(KeyRepr::Float(w)) => Some(w),
            _ => None,
        }
    }
}

/// The chunks of a key column.
#[derive(Debug)]
pub enum Column {
    /// Fixed-width values.
    Primitive(PrimitiveChunked),
    /// Byte strings, or encoded rows.
    Binary(BinaryChunked),
    /// So many nulls.
    Null(usize),
}

impl Column {
    /// What the column holds, row by row; `None` for a null.
    pub open spec fn slots(&self) -> Seq<Option<Scalar>> {
        match self {
            Column::Primitive(ca) => ca.slots(),
            Column::Binary(ca) => ca.slots(),
            Column::Null(n) => Seq::new(*n as nat, |i: int| None::<Scalar>),
        }
    }

    /// Whether the column can hold values of type `dtype`.
    pub open spec fn fits(&self, dtype: DataType) -> bool {
        match self {
            Column::Primitive(ca) => ca.data_type() == dtype.spec_to_arrow()
                && ca.data_type().spec_width() is Some,
            Column::Binary(ca) => ca.data_type() == dtype.spec_to_arrow()
                && ca.data_type().is_bytes(),
            Column::Null(_) => dtype == DataType::Null,
        }
    }
}

/// Slots that are all null have as many nulls as there are slots.
pub proof fn lemma_all_nulls<T>(slots: Seq<Option<T>>, n: int)
    requires
        0 <= n <= slots.len(),
        forall|i: int| 0 <= i < n ==> (#[trigger] slots[i]) is None,
    ensures
        count_nulls(slots, n) == n,
    decreases n,
{
    if n > 0 {
        lemma_all_nulls(slots, n - 1);
    }
}

/// A key column.
#[derive(Debug)]
pub struct Series {
    dtype: DataType,
    column: Column,
}

impl Series {
    #[verifier::type_invariant]
    closed spec fn inv(&self) -> bool {
        self.column.fits(self.dtype)
    }

    /// The data type.
    pub closed spec fn data_type(&self) -> DataType {
        self.dtype
    }

    /// The chunks.
    pub closed spec fn spec_column(&self) -> Column {
        self.column
    }

    /// What the column holds, row by row; `None` for a null.
    pub open spec fn slots(&self) -> Seq<Option<Scalar>> {
        self.spec_column().slots()
    }

    /// The keys that the column is joined on, row by row: what it holds,
    /// or for floating-point values the canonical patterns of what it holds.
    pub open spec fn join_keys(&self) -> Seq<Option<Scalar>> {
        normalized(self.slots(), self.data_type().float_width())
    }

    /// A column of the given type and chunks, if the chunks can hold values
    /// of the type.
    pub fn try_new(dtype: DataType, column: Column) -> (r: Option<Series>)
        ensures
            r is Some <==> column.fits(dtype),
            r matches Some(s) ==> s.data_type() == dtype && s.spec_column() == column,
    {
        let arrow = dtype.to_arrow();
        let fits = match &column {
            Column::Primitive(ca) => *ca.dtype() == arrow && match arrow {
                ArrowDataType::Null => false,
                ArrowDataType::LargeBinary | ArrowDataType::LargeUtf8 => false,
                _ => true,
            },
            Column::Binary(ca) => *ca.dtype() == arrow && match arrow {
                ArrowDataType::LargeBinary | ArrowDataType::LargeUtf8 => true,
                _ => false,
            },
            Column::Null(_) => match dtype {
                DataType::Null => true,
                _ => false,
            },
        };
        if fits {
            Some(Series { dtype, column })
        } else {
            None
        }
    }

    /// The data type of the column.
    pub fn dtype(&self) -> (d: DataType)
        ensures
            d == self.data_type(),
    {
        self.dtype
    }

    /// The chunks of the column. They can hold values of its type.
    pub fn column(&self) -> (c: &Column)
        ensures
            *c == self.spec_column(),
            c.fits(self.data_type()),
    {
        proof {
            use_type_invariant(self);
        }
        &self.column
    }

    /// The number of rows.
    pub fn len(&self) -> (n: usize)
        ensures
            n == self.slots().len(),
    {
        match &self.column {
            Column::Primitive(ca) => ca.len(),
            Column::Binary(ca) => ca.len(),
            Column::Null(n) => *n,
        }
    }

    /// Whether the column has no rows.
    pub fn is_empty(&self) -> (b: bool)
        ensures
            b == (self.slots().len() == 0),
    {
        self.len() == 0
    }

    /// The number of rows that hold no value.
    pub fn null_count(&self) -> (n: usize)
        ensures
            n == count_nulls(self.slots(), self.slots().len() as int),
    {
        proof {
            use_type_invariant(self);
        }
        match &self.column {
            Column::Primitive(ca) => ca.null_count(),
            Column::Binary(ca) => ca.null_count(),
            Column::Null(n) => {
                proof {
                    lemma_all_nulls(self.slots(), *n as int);
                }
                *n
            },
        }
    }

    /// Whether any row holds no value.
    pub fn has_nulls(&self) -> (b: bool)
        ensures
            b == (count_nulls(self.slots(), self.slots().len() as int) > 0),
    {
        self.null_count() > 0
    }

    /// The number of chunks that the column is stored in.
    pub fn n_chunks(&self) -> (n: usize)
        ensures
            n == match self.spec_column() {
                Column::Primitive(ca) => ca.spec_chunks().len(),
                Column::Binary(ca) => ca.spec_chunks().len(),
                Column::Null(_) => 1,
            },
    {
        match &self.column {
            Column::Primitive(ca) => ca.chunks().len(),
            Column::Binary(ca) => ca.chunks().len(),
            Column::Null(_) => 1,
        }
    }
}

} // verus!
