use vstd::prelude::*;

verus! {

/// The scalar type of a column, as far as the engine tells types apart.
#[derive(Clone, Copy, PartialEq, Eq, Structural, Debug)]
pub enum ColumnType {
    Int8,
    Int16,
    Int32,
    Int64,
    UInt8,
    UInt16,
    UInt32,
    UInt64,
    Float16,
    Float32,
    Float64,
    Decimal128,
    Other,
}

impl ColumnType {
    /// Signed and unsigned integers of every width.
    pub open spec fn integer(self) -> bool {
        self is Int8 || self is Int16 || self is Int32 || self is Int64 || self is UInt8
            || self is UInt16 || self is UInt32 || self is UInt64
    }

    /// The type under which a column of this type is installed in a plan:
    /// 128-bit decimals are read as 32-bit floats, every other type is kept.
    pub open spec fn installed(self) -> ColumnType {
        if self is Decimal128 {
            ColumnType::Float32
        } else {
            self
        }
    }

    /// Whether a kernel can read a column that is installed under this
    /// type.
    pub open spec fn dispatchable(self) -> bool {
        self is Int32 || self is Float32
    }

    pub fn is_integer(&self) -> (r: bool)
        ensures
            r == self.integer(),
    {
        match self {
            ColumnType::Int8
            | ColumnType::Int16
            | ColumnType::Int32
            | ColumnType::Int64
            | ColumnType::UInt8
            | ColumnType::UInt16
            | ColumnType::UInt32
            | ColumnType::UInt64 => true,
            _ => false,
        }
    }

    pub fn coerce(&self) -> (r: ColumnType)
        ensures
            r == self.installed(),
    {
        match self {
            ColumnType::Decimal128 => ColumnType::Float32,
            other => *other,
        }
    }

    pub fn is_dispatchable(&self) -> (r: bool)
        ensures
            r == self.dispatchable(),
    {
        match self {
            ColumnType::Int32 | ColumnType::Float32 => true,
            _ => false,
        }
    }
}

} // verus!
