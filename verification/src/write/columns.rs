//! Types and values of columns.
use vstd::prelude::*;

verus! {

/// The unit of a timestamp.
#[derive(Clone, Copy, PartialEq, Eq, Structural, Debug)]
pub enum TimeUnit {
    Second,
    Millisecond,
    Microsecond,
    Nanosecond,
}

/// The type of a column. A timestamp has a time zone or none; a decimal number has its scale; of
/// any other type nothing is known but that it is none of these.
#[derive(Clone, Copy, PartialEq, Eq, Structural, Debug)]
pub enum ColumnType {
    Boolean,
    Int8,
    Int16,
    Int32,
    Int64,
    UInt8,
    UInt16,
    UInt32,
    UInt64,
    Float16,
    Float32,
    Float64,
    Utf8,
    Binary,
    Date32,
    Date64,
    Timestamp(TimeUnit, bool),
    Decimal128(i8),
    Other,
}

/// The bits of a half-precision number.
#[derive(Clone, Copy, PartialEq, Eq, Structural, Debug)]
pub struct Float16Bits(pub u16);

/// The bits of a single-precision number.
#[derive(Clone, Copy, PartialEq, Eq, Structural, Debug)]
pub struct Float32Bits(pub u32);

/// The bits of a double-precision number.
#[derive(Clone, Copy, PartialEq, Eq, Structural, Debug)]
pub struct Float64Bits(pub u64);

/// A field of a dataset: its name, its type, and the text by which the type is shown.
#[derive(Debug)]
pub struct ColumnField {
    pub name: String,
    pub data_type: ColumnType,
    pub type_text: String,
}

/// A field of a dataset with its texts as sequences of characters.
pub ghost struct FieldModel {
    pub name: Seq<char>,
    pub data_type: ColumnType,
    pub type_text: Seq<char>,
}

impl DeepView for ColumnField {
    type V = FieldModel;

    open spec fn deep_view(&self) -> FieldModel {
        FieldModel {
            name: self.name@,
            data_type: self.data_type,
            type_text: self.type_text@,
        }
    }
}

} // verus!
