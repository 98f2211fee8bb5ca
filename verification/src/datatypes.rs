//! The physical identity of a column, by which the engine dispatches.
use vstd::prelude::*;

verus! {

/// The fixed-width primitive types. Values are held as bit patterns, so two
/// types of one width share a representation.
#[derive(Clone, Copy, Debug, PartialEq, Eq, Structural)]
pub enum PrimitiveType {
    Int32,
    Int64,
    Int128,
    UInt32,
    UInt64,
    Float32,
    Float64,
}

/// The width class of a fixed-width value.
#[derive(Clone, Copy, Debug, PartialEq, Eq, Structural)]
pub enum BitWidth {
    W32,
    W64,
    W128,
}

impl PrimitiveType {
    pub open spec fn spec_width(self) -> BitWidth {
        match self {
            PrimitiveType::Int32 | PrimitiveType::UInt32 | PrimitiveType::Float32 => BitWidth::W32,
            PrimitiveType::Int64 | PrimitiveType::UInt64 | PrimitiveType::Float64 => BitWidth::W64,
            PrimitiveType::Int128 => BitWidth::W128,
        }
    }

    /// The width of the bit pattern that holds a value of this type.
    #[verifier::when_used_as_spec(spec_width)]
    pub fn width(self) -> (w: BitWidth)
        ensures
            w == self.spec_width(),
    {
        match self {
            PrimitiveType::Int32 | PrimitiveType::UInt32 | PrimitiveType::Float32 => BitWidth::W32,
            PrimitiveType::Int64 | PrimitiveType::UInt64 | PrimitiveType::Float64 => BitWidth::W64,
            PrimitiveType::Int128 => BitWidth::W128,
        }
    }

    pub open spec fn spec_is_float(self) -> bool {
        self == PrimitiveType::Float32 || self == PrimitiveType::Float64
    }

    /// Whether values of this type are IEEE floating-point bit patterns.
    #[verifier::when_used_as_spec(spec_is_float)]
    pub fn is_float(self) -> (b: bool)
        ensures
            b == self.spec_is_float(),
    {
        match self {
            PrimitiveType::Float32 | PrimitiveType::Float64 => true,
            _ => false,
        }
    }
}

/// How the values of an array are laid out.
#[derive(Clone, Copy, Debug, PartialEq, Eq, Structural)]
pub enum PhysicalType {
    Null,
    Primitive(PrimitiveType),
    LargeBinary,
    LargeUtf8,
}

/// The data type of an array.
#[derive(Clone, Copy, Debug, PartialEq, Eq, Structural)]
pub enum ArrowDataType {
    Null,
    Int32,
    Int64,
    Int128,
    UInt32,
    UInt64,
    Float32,
    Float64,
    LargeBinary,
    LargeUtf8,
}

impl ArrowDataType {
    pub open spec fn spec_to_physical_type(self) -> PhysicalType {
        match self {
            ArrowDataType::Null => PhysicalType::Null,
            ArrowDataType::Int32 => PhysicalType::Primitive(PrimitiveType::Int32),
            ArrowDataType::Int64 => PhysicalType::Primitive(PrimitiveType::Int64),
            ArrowDataType::Int128 => PhysicalType::Primitive(PrimitiveType::Int128),
            ArrowDataType::UInt32 => PhysicalType::Primitive(PrimitiveType::UInt32),
            ArrowDataType::UInt64 => PhysicalType::Primitive(PrimitiveType::UInt64),
            ArrowDataType::Float32 => PhysicalType::Primitive(PrimitiveType::Float32),
            ArrowDataType::Float64 => PhysicalType::Primitive(PrimitiveType::Float64),
            ArrowDataType::LargeBinary => PhysicalType::LargeBinary,
            ArrowDataType::LargeUtf8 => PhysicalType::LargeUtf8,
        }
    }

    /// The physical layout of arrays of this type.
    #[verifier::when_used_as_spec(spec_to_physical_type)]
    pub fn to_physical_type(self) -> (p: PhysicalType)
        ensures
            p == self.spec_to_physical_type(),
    {
        match self {
            ArrowDataType::Null => PhysicalType::Null,
            ArrowDataType::Int32 => PhysicalType::Primitive(PrimitiveType::Int32),
            ArrowDataType::Int64 => PhysicalType::Primitive(PrimitiveType::Int64),
            ArrowDataType::Int128 => PhysicalType::Primitive(PrimitiveType::Int128),
            ArrowDataType::UInt32 => PhysicalType::Primitive(PrimitiveType::UInt32),
            ArrowDataType::UInt64 => PhysicalType::Primitive(PrimitiveType::UInt64),
            ArrowDataType::Float32 => PhysicalType::Primitive(PrimitiveType::Float32),
            ArrowDataType::Float64 => PhysicalType::Primitive(PrimitiveType::Float64),
            ArrowDataType::LargeBinary => PhysicalType::LargeBinary,
            ArrowDataType::LargeUtf8 => PhysicalType::LargeUtf8,
        }
    }

    /// The layout of the values as a width, for the fixed-width types.
    pub open spec fn spec_width(self) -> Option<BitWidth> {
        match self.spec_to_physical_type() {
            PhysicalType::Primitive(p) => Some(p.spec_width()),
            _ => None,
        }
    }

    /// Whether arrays of this type hold byte strings.
    pub open spec fn is_bytes(self) -> bool {
        self == ArrowDataType::LargeBinary || self == ArrowDataType::LargeUtf8
    }
}

} // verus!
