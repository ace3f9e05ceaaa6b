//! Rows of a query as columns.
use crate::fdw::scan;
use crate::text;
use crate::write::columns::{ColumnType, Float32Bits, Float64Bits, TimeUnit};
use vstd::prelude::*;

verus! {

/// The seconds from 1970-01-01, from which columns count, to 2000-01-01, from which PostgreSQL
/// counts.
pub const UNIX_TO_POSTGRES_EPOCH_SECS: i64 = 946_684_800;

/// The microseconds from 1970-01-01 to 2000-01-01.
pub const EPOCH_SHIFT_MICROS: i64 = UNIX_TO_POSTGRES_EPOCH_SECS * 1_000_000;

/// The time zone of a timestamp column that has one.
pub const TIMESTAMP_ZONE: &'static str = "UTC";

/// The bytes that a column of texts reserves at most.
pub const MAX_VARLEN_CAPACITY: usize = 8_388_608;

pub const BOOLOID: u32 = 16;

pub const BYTEAOID: u32 = 17;

pub const INT8OID: u32 = 20;

pub const INT2OID: u32 = 21;

pub const INT4OID: u32 = 23;

pub const TEXTOID: u32 = 25;

pub const JSONOID: u32 = 114;

pub const FLOAT4OID: u32 = 700;

pub const FLOAT8OID: u32 = 701;

pub const VARCHAROID: u32 = 1043;

pub const DATEOID: u32 = 1082;

pub const TIMESTAMPOID: u32 = 1114;

pub const TIMESTAMPTZOID: u32 = 1184;

pub const NUMERICOID: u32 = 1700;

pub const UUIDOID: u32 = 2950;

pub const JSONBOID: u32 = 3802;

// ---------------------------------------------------------------------------
// Types
// ---------------------------------------------------------------------------

/// The column type for a PostgreSQL type.
pub open spec fn arrow_type_of(oid: u32) -> Option<ColumnType> {
    if oid == BOOLOID {
        Some(ColumnType::Boolean)
    } else if oid == INT2OID {
        Some(ColumnType::Int16)
    } else if oid == INT4OID {
        Some(ColumnType::Int32)
    } else if oid == INT8OID {
        Some(ColumnType::Int64)
    } else if oid == FLOAT4OID {
        Some(ColumnType::Float32)
    } else if oid == FLOAT8OID {
        Some(ColumnType::Float64)
    } else if oid == NUMERICOID || oid == TEXTOID || oid == VARCHAROID || oid == UUIDOID || oid
        == JSONBOID || oid == JSONOID {
        Some(ColumnType::Utf8)
    } else if oid == BYTEAOID {
        Some(ColumnType::Binary)
    } else if oid == DATEOID {
        Some(ColumnType::Date32)
    } else if oid == TIMESTAMPOID {
        Some(ColumnType::Timestamp(TimeUnit::Microsecond, false))
    } else if oid == TIMESTAMPTZOID {
        Some(ColumnType::Timestamp(TimeUnit::Microsecond, true))
    } else {
        None
    }
}

/// The name of a type, given the name that the catalog has for it.
pub open spec fn shown_type(formatted: Option<Seq<char>>, oid: u32) -> Seq<char> {
    match formatted {
        Some(found) => found,
        None => "oid "@ + text::decimal(oid as nat),
    }
}

/// What the column type for a PostgreSQL type comes to.
pub open spec fn arrow_type_outcome(oid: u32, formatted: Option<Seq<char>>) -> Result<
    ColumnType,
    Seq<char>,
> {
    match arrow_type_of(oid) {
        Some(data_type) => Ok(data_type),
        None => Err("unsupported PostgreSQL type for write: "@ + shown_type(formatted, oid)),
    }
}

/// A type or a message as a sequence of characters.
pub open spec fn type_outcome(r: Result<ColumnType, String>) -> Result<ColumnType, Seq<char>> {
    match r {
        Ok(data_type) => Ok(data_type),
        Err(message) => Err(message@),
    }
}

/// The column type for a PostgreSQL type; `formatted` is the name that the catalog has for it.
pub fn pg_oid_to_arrow_type(oid: u32, formatted: Option<String>) -> (r: Result<ColumnType, String>)
    ensures
        type_outcome(r) == arrow_type_outcome(oid, formatted.deep_view()),
{
    if oid == BOOLOID {
        Ok(ColumnType::Boolean)
    } else if oid == INT2OID {
        Ok(ColumnType::Int16)
    } else if oid == INT4OID {
        Ok(ColumnType::Int32)
    } else if oid == INT8OID {
        Ok(ColumnType::Int64)
    } else if oid == FLOAT4OID {
        Ok(ColumnType::Float32)
    } else if oid == FLOAT8OID {
        Ok(ColumnType::Float64)
    } else if oid == NUMERICOID || oid == TEXTOID || oid == VARCHAROID || oid == UUIDOID || oid
        == JSONBOID || oid == JSONOID {
        Ok(ColumnType::Utf8)
    } else if oid == BYTEAOID {
        Ok(ColumnType::Binary)
    } else if oid == DATEOID {
        Ok(ColumnType::Date32)
    } else if oid == TIMESTAMPOID {
        Ok(ColumnType::Timestamp(TimeUnit::Microsecond, false))
    } else if oid == TIMESTAMPTZOID {
        Ok(ColumnType::Timestamp(TimeUnit::Microsecond, true))
    } else {
        let mut message = "unsupported PostgreSQL type for write: ".to_owned();
        message.append(scan::pg_type_name(formatted, oid).as_str());
        Err(message)
    }
}

/// A column of a query's result: its name, its PostgreSQL type and its column type.
#[derive(Debug)]
pub struct SpiColumnInfo {
    pub name: String,
    pub pg_oid: u32,
    pub arrow_type: ColumnType,
}

/// A column of a query's result with its name as a sequence of characters.
pub ghost struct ColumnInfo {
    pub name: Seq<char>,
    pub pg_oid: u32,
    pub arrow_type: ColumnType,
}

impl DeepView for SpiColumnInfo {
    type V = ColumnInfo;

    open spec fn deep_view(&self) -> ColumnInfo {
        ColumnInfo { name: self.name@, pg_oid: self.pg_oid, arrow_type: self.arrow_type }
    }
}

/// A field of the columns that a query's result becomes: its name, its type, and whether it may be
/// null.
pub type SchemaField = (String, ColumnType, bool);

/// The fields of the columns that a query's result becomes; each may be null.
pub open spec fn schema_of(columns: Seq<ColumnInfo>) -> Seq<(Seq<char>, ColumnType, bool)> {
    columns.map_values(|column: ColumnInfo| (column.name, column.arrow_type, true))
}

/// Fields with their names as sequences of characters.
pub open spec fn fields_view(fields: Seq<SchemaField>) -> Seq<(Seq<char>, ColumnType, bool)> {
    fields.map_values(|field: SchemaField| (field.0@, field.1, field.2))
}

/// The fields of the columns that a query's result becomes; each may be null.
pub fn build_arrow_schema(columns: &[SpiColumnInfo]) -> (fields: Vec<SchemaField>)
    ensures
        fields_view(fields@) == schema_of(columns.deep_view()),
{
    let ghost all = columns.deep_view();
    let mut fields: Vec<SchemaField> = Vec::new();
    for i in 0..columns.len()
        invariant
            all == columns.deep_view(),
            fields_view(fields@) == schema_of(all.take(i as int)),
    {
        let ghost before = fields@;
        let column = &columns[i];
        assert(all[i as int] == column.deep_view());
        let field: SchemaField = (column.name.clone(), column.arrow_type, true);
        fields.push(field);
        assert(fields_view(fields@) =~= fields_view(before).push((field.0@, field.1, field.2)));
        assert(schema_of(all.take(i + 1)) =~= schema_of(all.take(i as int)).push(
            (all[i as int].name, all[i as int].arrow_type, true),
        ));
    }
    assert(all.take(all.len() as int) =~= all);
    fields
}

/// What is known of a column of a query's result: its name and its type, each of which may fail to
/// be read, and the name that the catalog has for the type.
#[derive(Debug)]
pub struct DescribedColumn {
    pub name: Result<String, String>,
    pub type_oid: Result<u32, String>,
    pub formatted: Option<String>,
}

/// What is known of a column, with its texts as sequences of characters.
pub ghost struct Described {
    pub name: Result<Seq<char>, Seq<char>>,
    pub type_oid: Result<u32, Seq<char>>,
    pub formatted: Option<Seq<char>>,
}

impl DeepView for DescribedColumn {
    type V = Described;

    open spec fn deep_view(&self) -> Described {
        Described {
            name: text::outcome(self.name),
            type_oid: text::outcome(self.type_oid),
            formatted: self.formatted.deep_view(),
        }
    }
}

/// The column with number `i`, counted from 1, or the message of what failed.
pub open spec fn column_info(column: Described, i: nat) -> Result<ColumnInfo, Seq<char>> {
    match column.name {
        Err(e) => Err("failed to get column name "@ + text::decimal(i) + ": "@ + e),
        Ok(name) => match column.type_oid {
            Err(e) => Err("failed to get column type "@ + text::decimal(i) + ": "@ + e),
            Ok(oid) => match arrow_type_outcome(oid, column.formatted) {
                Err(message) => Err(message),
                Ok(arrow_type) => Ok(ColumnInfo { name, pg_oid: oid, arrow_type }),
            },
        },
    }
}

/// The columns, or the message of the first that failed.
pub open spec fn column_infos(columns: Seq<Described>) -> Result<Seq<ColumnInfo>, Seq<char>>
    decreases columns.len(),
{
    if columns.len() == 0 {
        Ok(seq![])
    } else {
        match column_infos(columns.drop_last()) {
            Err(message) => Err(message),
            Ok(front) => match column_info(columns.last(), columns.len()) {
                Err(message) => Err(message),
                Ok(info) => Ok(front.push(info)),
            },
        }
    }
}

/// The columns of a query's result, given what is known of them, or of why nothing is.
pub open spec fn spi_columns(described: Result<Seq<Described>, Seq<char>>) -> Result<
    Seq<ColumnInfo>,
    Seq<char>,
> {
    match described {
        Err(e) => Err("failed to get column count: "@ + e),
        Ok(columns) => if columns.len() == 0 {
            Err("source_query returned zero columns"@)
        } else {
            column_infos(columns)
        },
    }
}

fn column_failure(prefix: &str, number: usize, e: &str) -> (message: String)
    ensures
        message@ == prefix@ + text::decimal(number as nat) + ": "@ + e@,
{
    let mut message = prefix.to_owned();
    message.append(text::decimal_text(number as u128).as_str());
    message.append(": ");
    message.append(e);
    message
}

fn read_column(column: &DescribedColumn, number: usize) -> (r: Result<SpiColumnInfo, String>)
    ensures
        text::outcome(r) == column_info(column.deep_view(), number as nat),
{
    let name = match &column.name {
        Err(e) => {
            return Err(column_failure("failed to get column name ", number, e.as_str()));
        },
        Ok(name) => name.clone(),
    };
    let oid: u32 = match &column.type_oid {
        Err(e) => {
            return Err(column_failure("failed to get column type ", number, e.as_str()));
        },
        Ok(oid) => *oid,
    };
    let formatted: Option<String> = match &column.formatted {
        Some(found) => Some(found.clone()),
        None => None,
    };
    match pg_oid_to_arrow_type(oid, formatted) {
        Err(message) => Err(message),
        Ok(arrow_type) => Ok(SpiColumnInfo { name, pg_oid: oid, arrow_type }),
    }
}

proof fn first_failure_stays(columns: Seq<Described>, n: int)
    requires
        0 <= n <= columns.len(),
        column_infos(columns.take(n)) is Err,
    ensures
        column_infos(columns) == column_infos(columns.take(n)),
    decreases columns.len() - n,
{
    if n < columns.len() {
        assert(columns.take(n + 1).drop_last() =~= columns.take(n));
        first_failure_stays(columns, n + 1);
    } else {
        assert(columns.take(n) =~= columns);
    }
}

/// The columns of a query's result, given what is known of them, or of why nothing is. Fails where
/// there is no column, and at the first one that cannot be read or has a type that cannot be
/// written.
pub fn extract_spi_columns(described: &Result<Vec<DescribedColumn>, String>) -> (r: Result<
    Vec<SpiColumnInfo>,
    String,
>)
    ensures
        text::outcome(r) == spi_columns(text::outcome(*described)),
{
    let columns = match described {
        Err(e) => {
            let mut message = "failed to get column count: ".to_owned();
            message.append(e.as_str());
            return Err(message);
        },
        Ok(columns) => columns,
    };
    let ghost all = columns.deep_view();
    assert(all.len() == columns@.len());
    if columns.len() == 0 {
        return Err("source_query returned zero columns".to_owned());
    }
    let mut infos: Vec<SpiColumnInfo> = Vec::new();
    assert(infos.deep_view() =~= seq![]);
    for i in 0..columns.len()
        invariant
            all == columns.deep_view(),
            all.len() > 0,
            text::outcome(*described) == Ok::<Seq<Described>, Seq<char>>(all),
            column_infos(all.take(i as int)) == Ok::<Seq<ColumnInfo>, Seq<char>>(
                infos.deep_view(),
            ),
    {
        let ghost before = infos.deep_view();
        assert(all[i as int] == columns@[i as int].deep_view());
        assert(all.take(i + 1).drop_last() =~= all.take(i as int));
        match read_column(&columns[i], i + 1) {
            Err(message) => {
                proof {
                    first_failure_stays(all, i + 1);
                }
                return Err(message);
            },
            Ok(info) => {
                infos.push(info);
                assert(infos.deep_view() =~= before.push(info.deep_view()));
            },
        }
    }
    assert(all.take(all.len() as int) =~= all);
    Ok(infos)
}

// ---------------------------------------------------------------------------
// Values
// ---------------------------------------------------------------------------

/// How a value of a query's result is read.
#[derive(Clone, Copy, PartialEq, Eq, Structural, Debug)]
pub enum DatumKind {
    Bool,
    Int2,
    Int4,
    Int8,
    Float4,
    Float8,
    Numeric,
    JsonB,
    Json,
    Uuid,
    Text,
    Bytes,
    Date,
    Timestamp,
    TimestampTz,
}

/// A value of a query's result as it was read; one that is null or could not be read is null. A
/// date counts days from 1970-01-01, a timestamp microseconds from 2000-01-01.
#[derive(Debug)]
pub enum DatumValue {
    Null,
    Bool(bool),
    Int2(i16),
    Int4(i32),
    Int8(i64),
    Float4(Float32Bits),
    Float8(Float64Bits),
    Text(String),
    Bytes(Vec<u8>),
    Date(i32),
    Timestamp(i64),
    TimestampTz(i64),
}

/// A value of a column that is not null. A timestamp counts microseconds from 1970-01-01.
pub ghost enum Cell {
    Bool(bool),
    Int16(i16),
    Int32(i32),
    Int64(i64),
    Float32(Float32Bits),
    Float64(Float64Bits),
    Utf8(Seq<char>),
    Binary(Seq<u8>),
    Date32(i32),
    Timestamp(int),
}

/// How the values for a column are read: texts by their PostgreSQL type, any other by the type of
/// the column.
pub open spec fn kind_of(data_type: ColumnType, oid: u32) -> Option<DatumKind> {
    match data_type {
        ColumnType::Boolean => Some(DatumKind::Bool),
        ColumnType::Int16 => Some(DatumKind::Int2),
        ColumnType::Int32 => Some(DatumKind::Int4),
        ColumnType::Int64 => Some(DatumKind::Int8),
        ColumnType::Float32 => Some(DatumKind::Float4),
        ColumnType::Float64 => Some(DatumKind::Float8),
        ColumnType::Utf8 => if oid == NUMERICOID {
            Some(DatumKind::Numeric)
        } else if oid == JSONBOID {
            Some(DatumKind::JsonB)
        } else if oid == JSONOID {
            Some(DatumKind::Json)
        } else if oid == UUIDOID {
            Some(DatumKind::Uuid)
        } else {
            Some(DatumKind::Text)
        },
        ColumnType::Binary => Some(DatumKind::Bytes),
        ColumnType::Date32 => Some(DatumKind::Date),
        ColumnType::Timestamp(TimeUnit::Microsecond, false) => Some(DatumKind::Timestamp),
        ColumnType::Timestamp(TimeUnit::Microsecond, true) => Some(DatumKind::TimestampTz),
        _ => None,
    }
}

/// How the values for a column are read.
pub fn datum_kind(data_type: ColumnType, oid: u32) -> (kind: Option<DatumKind>)
    ensures
        kind == kind_of(data_type, oid),
{
    match data_type {
        ColumnType::Boolean => Some(DatumKind::Bool),
        ColumnType::Int16 => Some(DatumKind::Int2),
        ColumnType::Int32 => Some(DatumKind::Int4),
        ColumnType::Int64 => Some(DatumKind::Int8),
        ColumnType::Float32 => Some(DatumKind::Float4),
        ColumnType::Float64 => Some(DatumKind::Float8),
        ColumnType::Utf8 => if oid == NUMERICOID {
            Some(DatumKind::Numeric)
        } else if oid == JSONBOID {
            Some(DatumKind::JsonB)
        } else if oid == JSONOID {
            Some(DatumKind::Json)
        } else if oid == UUIDOID {
            Some(DatumKind::Uuid)
        } else {
            Some(DatumKind::Text)
        },
        ColumnType::Binary => Some(DatumKind::Bytes),
        ColumnType::Date32 => Some(DatumKind::Date),
        ColumnType::Timestamp(TimeUnit::Microsecond, false) => Some(DatumKind::Timestamp),
        ColumnType::Timestamp(TimeUnit::Microsecond, true) => Some(DatumKind::TimestampTz),
        _ => None,
    }
}

/// The value of a column for a value of a query's result; one of another kind is null.
pub open spec fn cell_for(data_type: ColumnType, value: DatumValue) -> Option<Cell> {
    match (data_type, value) {
        (ColumnType::Boolean, DatumValue::Bool(b)) => Some(
            Cell::Bool(b),
        ),
        (ColumnType::Int16, DatumValue::Int2(n)) => Some(
            Cell::Int16(n),
        ),
        (ColumnType::Int32, DatumValue::Int4(n)) => Some(
            Cell::Int32(n),
        ),
        (ColumnType::Int64, DatumValue::Int8(n)) => Some(
            Cell::Int64(n),
        ),
        (ColumnType::Float32, DatumValue::Float4(bits)) => Some(
            Cell::Float32(bits),
        ),
        (ColumnType::Float64, DatumValue::Float8(bits)) => Some(
            Cell::Float64(bits),
        ),
        (ColumnType::Utf8, DatumValue::Text(s)) => Some(
            Cell::Utf8(s@),
        ),
        (ColumnType::Binary, DatumValue::Bytes(bytes)) => Some(
            Cell::Binary(bytes@),
        ),
        (ColumnType::Date32, DatumValue::Date(days)) => Some(
            Cell::Date32(days),
        ),
        (ColumnType::Timestamp(TimeUnit::Microsecond, false), DatumValue::Timestamp(micros)) => Some(
            Cell::Timestamp(micros + EPOCH_SHIFT_MICROS),
        ),
        (ColumnType::Timestamp(TimeUnit::Microsecond, true), DatumValue::TimestampTz(micros)) => Some(
            Cell::Timestamp(micros + EPOCH_SHIFT_MICROS),
        ),
        _ => None,
    }
}

/// Whether a value of a query's result has a place in a column: a timestamp, counted from
/// 1970-01-01, must not overflow.
pub open spec fn fits(value: DatumValue) -> bool {
    match value {
        DatumValue::Timestamp(micros) => micros + EPOCH_SHIFT_MICROS <= i64::MAX,
        DatumValue::TimestampTz(micros) => micros + EPOCH_SHIFT_MICROS <= i64::MAX,
        _ => true,
    }
}

/// The values of a column so far; nulls are `None`.
#[derive(Debug)]
pub enum ColumnBuffer {
    Boolean(Vec<Option<bool>>),
    Int16(Vec<Option<i16>>),
    Int32(Vec<Option<i32>>),
    Int64(Vec<Option<i64>>),
    Float32(Vec<Option<Float32Bits>>),
    Float64(Vec<Option<Float64Bits>>),
    Utf8(Vec<Option<String>>),
    Binary(Vec<Option<Vec<u8>>>),
    Date32(Vec<Option<i32>>),
    TimestampMicro(Vec<Option<i64>>),
    TimestampMicroUtc(Vec<Option<i64>>),
}

/// The type of a column by its values.
pub open spec fn buffer_type(buffer: ColumnBuffer) -> ColumnType {
    match buffer {
        ColumnBuffer::Boolean(_) => ColumnType::Boolean,
        ColumnBuffer::Int16(_) => ColumnType::Int16,
        ColumnBuffer::Int32(_) => ColumnType::Int32,
        ColumnBuffer::Int64(_) => ColumnType::Int64,
        ColumnBuffer::Float32(_) => ColumnType::Float32,
        ColumnBuffer::Float64(_) => ColumnType::Float64,
        ColumnBuffer::Utf8(_) => ColumnType::Utf8,
        ColumnBuffer::Binary(_) => ColumnType::Binary,
        ColumnBuffer::Date32(_) => ColumnType::Date32,
        ColumnBuffer::TimestampMicro(_) => ColumnType::Timestamp(TimeUnit::Microsecond, false),
        ColumnBuffer::TimestampMicroUtc(_) => ColumnType::Timestamp(TimeUnit::Microsecond, true),
    }
}

/// The values of a column so far.
pub open spec fn buffer_cells(buffer: ColumnBuffer) -> Seq<Option<Cell>> {
    match buffer {
        ColumnBuffer::Boolean(values) => values@.map_values(
            |value: Option<bool>|
                match value {
                    Some(b) => Some(Cell::Bool(b)),
                    None => None,
                },
        ),
        ColumnBuffer::Int16(values) => values@.map_values(
            |value: Option<i16>|
                match value {
                    Some(n) => Some(Cell::Int16(n)),
                    None => None,
                },
        ),
        ColumnBuffer::Int32(values) => values@.map_values(
            |value: Option<i32>|
                match value {
                    Some(n) => Some(Cell::Int32(n)),
                    None => None,
                },
        ),
        ColumnBuffer::Int64(values) => values@.map_values(
            |value: Option<i64>|
                match value {
                    Some(n) => Some(Cell::Int64(n)),
                    None => None,
                },
        ),
        ColumnBuffer::Float32(values) => values@.map_values(
            |value: Option<Float32Bits>|
                match value {
                    Some(bits) => Some(Cell::Float32(bits)),
                    None => None,
                },
        ),
        ColumnBuffer::Float64(values) => values@.map_values(
            |value: Option<Float64Bits>|
                match value {
                    Some(bits) => Some(Cell::Float64(bits)),
                    None => None,
                },
        ),
        ColumnBuffer::Utf8(values) => values@.map_values(
            |value: Option<String>|
                match value {
                    Some(s) => Some(Cell::Utf8(s@)),
                    None => None,
                },
        ),
        ColumnBuffer::Binary(values) => values@.map_values(
            |value: Option<Vec<u8>>|
                match value {
                    Some(bytes) => Some(Cell::Binary(bytes@)),
                    None => None,
                },
        ),
        ColumnBuffer::Date32(values) => values@.map_values(
            |value: Option<i32>|
                match value {
                    Some(days) => Some(Cell::Date32(days)),
                    None => None,
                },
        ),
        ColumnBuffer::TimestampMicro(values) => values@.map_values(
            |value: Option<i64>|
                match value {
                    Some(micros) => Some(Cell::Timestamp(micros as int)),
                    None => None,
                },
        ),
        ColumnBuffer::TimestampMicroUtc(values) => values@.map_values(
            |value: Option<i64>|
                match value {
                    Some(micros) => Some(Cell::Timestamp(micros as int)),
                    None => None,
                },
        ),
    }
}

/// A column that grows by one value at a time, and the number of values it reserves room for.
#[derive(Debug)]
pub struct TypedBuilder {
    pub capacity: usize,
    pub values: ColumnBuffer,
}

/// A column that grows: its type, the number of values it reserves room for, and its values.
pub ghost struct Builder {
    pub data_type: ColumnType,
    pub capacity: nat,
    pub cells: Seq<Option<Cell>>,
}

impl DeepView for TypedBuilder {
    type V = Builder;

    open spec fn deep_view(&self) -> Builder {
        Builder {
            data_type: buffer_type(self.values),
            capacity: self.capacity as nat,
            cells: buffer_cells(self.values),
        }
    }
}

/// Whether values of a type can be written.
pub open spec fn buildable(data_type: ColumnType) -> bool {
    match data_type {
        ColumnType::Boolean => true,
        ColumnType::Int16 => true,
        ColumnType::Int32 => true,
        ColumnType::Int64 => true,
        ColumnType::Float32 => true,
        ColumnType::Float64 => true,
        ColumnType::Utf8 => true,
        ColumnType::Binary => true,
        ColumnType::Date32 => true,
        ColumnType::Timestamp(TimeUnit::Microsecond, false) => true,
        ColumnType::Timestamp(TimeUnit::Microsecond, true) => true,
        _ => false,
    }
}

/// An empty column, or the message that values of its type cannot be written; `shown` is the text
/// by which the type is shown.
pub open spec fn fresh_builder(data_type: ColumnType, shown: Seq<char>, capacity: nat) -> Result<
    Builder,
    Seq<char>,
> {
    if buildable(data_type) {
        Ok(Builder { data_type, capacity, cells: seq![] })
    } else {
        Err("unsupported Arrow type for builder: "@ + shown)
    }
}

impl Builder {
    /// The column with one value more.
    pub open spec fn with(self, value: DatumValue) -> Builder {
        Builder { cells: self.cells.push(cell_for(self.data_type, value)), ..self }
    }
}

/// The bytes that a column of texts or bytes reserves for `capacity` values.
pub open spec fn reserved_bytes(capacity: nat) -> nat {
    if capacity * 64 <= MAX_VARLEN_CAPACITY {
        capacity * 64
    } else {
        MAX_VARLEN_CAPACITY as nat
    }
}

/// The bytes that a column of texts or bytes reserves for `capacity` values.
pub fn varlen_capacity(capacity: usize) -> (bytes: usize)
    ensures
        bytes == reserved_bytes(capacity as nat),
        bytes == (if capacity * 64 <= MAX_VARLEN_CAPACITY {
            (capacity * 64) as usize
        } else {
            MAX_VARLEN_CAPACITY
        }),
{
    if capacity <= MAX_VARLEN_CAPACITY / 64 {
        capacity * 64
    } else {
        MAX_VARLEN_CAPACITY
    }
}

impl TypedBuilder {
    /// An empty column; fails where values of its type cannot be written.
    pub fn new(data_type: ColumnType, shown: &str, capacity: usize) -> (r: Result<
        TypedBuilder,
        String,
    >)
        ensures
            text::outcome(r) == fresh_builder(data_type, shown@, capacity as nat),
    {
        let values = match data_type {
            ColumnType::Boolean => ColumnBuffer::Boolean(Vec::new()),
            ColumnType::Int16 => ColumnBuffer::Int16(Vec::new()),
            ColumnType::Int32 => ColumnBuffer::Int32(Vec::new()),
            ColumnType::Int64 => ColumnBuffer::Int64(Vec::new()),
            ColumnType::Float32 => ColumnBuffer::Float32(Vec::new()),
            ColumnType::Float64 => ColumnBuffer::Float64(Vec::new()),
            ColumnType::Utf8 => ColumnBuffer::Utf8(Vec::new()),
            ColumnType::Binary => ColumnBuffer::Binary(Vec::new()),
            ColumnType::Date32 => ColumnBuffer::Date32(Vec::new()),
            ColumnType::Timestamp(TimeUnit::Microsecond, false) => ColumnBuffer::TimestampMicro(Vec::new()),
            ColumnType::Timestamp(TimeUnit::Microsecond, true) => ColumnBuffer::TimestampMicroUtc(Vec::new()),
            _ => {
                let mut message = "unsupported Arrow type for builder: ".to_owned();
                message.append(shown);
                return Err(message);
            },
        };
        assert(buffer_cells(values) =~= seq![]);
        Ok(TypedBuilder { capacity, values })
    }
}

/// Appends a value of a query's result to a column; one of another kind is appended as null.
pub fn append_datum(builder: &mut TypedBuilder, value: DatumValue)
    requires
        fits(value),
    ensures
        final(builder).deep_view() == old(builder).deep_view().with(value),
{
    let ghost before = buffer_cells(builder.values);
    let ghost cell = cell_for(buffer_type(builder.values), value);
    match &mut builder.values {
        ColumnBuffer::Boolean(values) => match value {
            DatumValue::Bool(b) => values.push(Some(b)),
            _ => values.push(None),
        },
        ColumnBuffer::Int16(values) => match value {
            DatumValue::Int2(n) => values.push(Some(n)),
            _ => values.push(None),
        },
        ColumnBuffer::Int32(values) => match value {
            DatumValue::Int4(n) => values.push(Some(n)),
            _ => values.push(None),
        },
        ColumnBuffer::Int64(values) => match value {
            DatumValue::Int8(n) => values.push(Some(n)),
            _ => values.push(None),
        },
        ColumnBuffer::Float32(values) => match value {
            DatumValue::Float4(bits) => values.push(Some(bits)),
            _ => values.push(None),
        },
        ColumnBuffer::Float64(values) => match value {
            DatumValue::Float8(bits) => values.push(Some(bits)),
            _ => values.push(None),
        },
        ColumnBuffer::Utf8(values) => match value {
            DatumValue::Text(s) => values.push(Some(s)),
            _ => values.push(None),
        },
        ColumnBuffer::Binary(values) => match value {
            DatumValue::Bytes(bytes) => values.push(Some(bytes)),
            _ => values.push(None),
        },
        ColumnBuffer::Date32(values) => match value {
            DatumValue::Date(days) => values.push(Some(days)),
            _ => values.push(None),
        },
        ColumnBuffer::TimestampMicro(values) => match value {
            DatumValue::Timestamp(micros) => values.push(Some(micros + EPOCH_SHIFT_MICROS)),
            _ => values.push(None),
        },
        ColumnBuffer::TimestampMicroUtc(values) => match value {
            DatumValue::TimestampTz(micros) => values.push(Some(micros + EPOCH_SHIFT_MICROS)),
            _ => values.push(None),
        },
    }
    assert(buffer_cells(builder.values) =~= before.push(cell));
}

// ---------------------------------------------------------------------------
// What holds of types and values
// ---------------------------------------------------------------------------

/// A value of the kind that a column takes is never lost: it stands in the column as it was read, a
/// timestamp thirty years of microseconds later.
pub proof fn values_stand_as_they_were_read(value: DatumValue)
    ensures
        value matches DatumValue::Bool(b) ==> cell_for(ColumnType::Boolean, value) == Some(
            Cell::Bool(b),
        ),
        value matches DatumValue::Int2(n) ==> cell_for(ColumnType::Int16, value) == Some(
            Cell::Int16(n),
        ),
        value matches DatumValue::Int4(n) ==> cell_for(ColumnType::Int32, value) == Some(
            Cell::Int32(n),
        ),
        value matches DatumValue::Int8(n) ==> cell_for(ColumnType::Int64, value) == Some(
            Cell::Int64(n),
        ),
        value matches DatumValue::Float4(bits) ==> cell_for(ColumnType::Float32, value) == Some(
            Cell::Float32(bits),
        ),
        value matches DatumValue::Float8(bits) ==> cell_for(ColumnType::Float64, value) == Some(
            Cell::Float64(bits),
        ),
        value matches DatumValue::Text(s) ==> cell_for(ColumnType::Utf8, value) == Some(
            Cell::Utf8(s@),
        ),
        value matches DatumValue::Bytes(bytes) ==> cell_for(ColumnType::Binary, value) == Some(
            Cell::Binary(bytes@),
        ),
        value matches DatumValue::Date(days) ==> cell_for(ColumnType::Date32, value) == Some(
            Cell::Date32(days),
        ),
        value matches DatumValue::Timestamp(micros) ==> cell_for(
            ColumnType::Timestamp(TimeUnit::Microsecond, false),
            value,
        ) == Some(Cell::Timestamp(micros + 946_684_800 * 1_000_000)),
        value matches DatumValue::TimestampTz(micros) ==> cell_for(
            ColumnType::Timestamp(TimeUnit::Microsecond, true),
            value,
        ) == Some(Cell::Timestamp(micros + 946_684_800 * 1_000_000)),
        value is Null ==> forall|data_type: ColumnType| #[trigger]
            cell_for(data_type, value) is None,
{
}

/// Two values of a column that stand in it alike are alike: of two that differ none takes the
/// other's place.
pub proof fn different_values_stand_differently(
    data_type: ColumnType,
    a: DatumValue,
    b: DatumValue,
)
    requires
        cell_for(data_type, a) is Some,
        cell_for(data_type, a) == cell_for(data_type, b),
    ensures
        match (a, b) {
            (DatumValue::Bool(x), DatumValue::Bool(y)) => x == y,
            (DatumValue::Int2(x), DatumValue::Int2(y)) => x == y,
            (DatumValue::Int4(x), DatumValue::Int4(y)) => x == y,
            (DatumValue::Int8(x), DatumValue::Int8(y)) => x == y,
            (DatumValue::Float4(x), DatumValue::Float4(y)) => x == y,
            (DatumValue::Float8(x), DatumValue::Float8(y)) => x == y,
            (DatumValue::Text(x), DatumValue::Text(y)) => x@ == y@,
            (DatumValue::Bytes(x), DatumValue::Bytes(y)) => x@ == y@,
            (DatumValue::Date(x), DatumValue::Date(y)) => x == y,
            (DatumValue::Timestamp(x), DatumValue::Timestamp(y)) => x == y,
            (DatumValue::TimestampTz(x), DatumValue::TimestampTz(y)) => x == y,
            _ => false,
        },
{
}

/// Whether a value is of the kind in which the values of a column are read.
pub open spec fn read_as(kind: DatumKind, value: DatumValue) -> bool {
    match kind {
        DatumKind::Bool => value is Bool,
        DatumKind::Int2 => value is Int2,
        DatumKind::Int4 => value is Int4,
        DatumKind::Int8 => value is Int8,
        DatumKind::Float4 => value is Float4,
        DatumKind::Float8 => value is Float8,
        DatumKind::Numeric => value is Text,
        DatumKind::JsonB => value is Text,
        DatumKind::Json => value is Text,
        DatumKind::Uuid => value is Text,
        DatumKind::Text => value is Text,
        DatumKind::Bytes => value is Bytes,
        DatumKind::Date => value is Date,
        DatumKind::Timestamp => value is Timestamp,
        DatumKind::TimestampTz => value is TimestampTz,
    }
}

/// A PostgreSQL type that can be written has a column that can be built and a kind in which its
/// values are read, and every value of that kind stands in the column.
pub proof fn written_types_keep_their_values(oid: u32, value: DatumValue)
    requires
        arrow_type_of(oid) is Some,
    ensures
        buildable(arrow_type_of(oid)->Some_0),
        kind_of(arrow_type_of(oid)->Some_0, oid) matches Some(kind) && (read_as(kind, value)
            <==> cell_for(arrow_type_of(oid)->Some_0, value) is Some),
{
}

/// The types that can be written are these, and each has one kind in which its values are read;
/// only types whose values are read as texts share a column type.
pub proof fn written_types_are_these(oid: u32)
    ensures
        arrow_type_of(oid) is Some <==> (oid == 16 || oid == 17 || oid == 20 || oid == 21 || oid
            == 23 || oid == 25 || oid == 114 || oid == 700 || oid == 701 || oid == 1043 || oid
            == 1082 || oid == 1114 || oid == 1184 || oid == 1700 || oid == 2950 || oid == 3802),
        forall|other: u32|
            other != oid && #[trigger] arrow_type_of(other) is Some && arrow_type_of(other)
                == arrow_type_of(oid) ==> arrow_type_of(oid) == Some(ColumnType::Utf8),
        arrow_type_of(oid) == Some(ColumnType::Utf8) ==> kind_of(ColumnType::Utf8, oid) == Some(
            if oid == 1700 {
                DatumKind::Numeric
            } else if oid == 3802 {
                DatumKind::JsonB
            } else if oid == 114 {
                DatumKind::Json
            } else if oid == 2950 {
                DatumKind::Uuid
            } else {
                DatumKind::Text
            },
        ),
{
}

/// The columns of a result are those that were described, in order, each with its own name and
/// type; there are columns exactly where there is at least one and every one can be read and
/// written.
pub proof fn columns_are_those_described(columns: Seq<Described>)
    ensures
        spi_columns(Ok(columns)) is Ok <==> columns.len() > 0 && forall|i: int|
            0 <= i < columns.len() ==> (#[trigger] columns[i]).name is Ok && columns[i].type_oid
                is Ok && arrow_type_of(columns[i].type_oid->Ok_0) is Some,
        spi_columns(Ok(columns)) matches Ok(infos) ==> infos.len() == columns.len() && forall|
            i: int,
        |
            0 <= i < infos.len() ==> {
                &&& (#[trigger] infos[i]).name == columns[i].name->Ok_0
                &&& infos[i].pg_oid == columns[i].type_oid->Ok_0
                &&& Some(infos[i].arrow_type) == arrow_type_of(columns[i].type_oid->Ok_0)
            },
{
    infos_are_those_described(columns);
}

proof fn infos_are_those_described(columns: Seq<Described>)
    ensures
        column_infos(columns) is Ok <==> forall|i: int|
            0 <= i < columns.len() ==> (#[trigger] columns[i]).name is Ok && columns[i].type_oid
                is Ok && arrow_type_of(columns[i].type_oid->Ok_0) is Some,
        column_infos(columns) matches Ok(infos) ==> infos.len() == columns.len() && forall|i: int|
            0 <= i < infos.len() ==> {
                &&& (#[trigger] infos[i]).name == columns[i].name->Ok_0
                &&& infos[i].pg_oid == columns[i].type_oid->Ok_0
                &&& Some(infos[i].arrow_type) == arrow_type_of(columns[i].type_oid->Ok_0)
            },
    decreases columns.len(),
{
    if columns.len() > 0 {
        let front = columns.drop_last();
        let n = columns.len() - 1;
        infos_are_those_described(front);
        assert(forall|i: int| 0 <= i < front.len() ==> #[trigger] front[i] == columns[i]);
        if forall|i: int|
            0 <= i < columns.len() ==> (#[trigger] columns[i]).name is Ok && columns[i].type_oid
                is Ok && arrow_type_of(columns[i].type_oid->Ok_0) is Some {
            assert(columns[n].name is Ok);
            assert forall|i: int| 0 <= i < front.len() implies (#[trigger] front[i]).name is Ok
                && front[i].type_oid is Ok && arrow_type_of(front[i].type_oid->Ok_0) is Some by {
                assert(columns[i].name is Ok);
            }
        }
        if column_infos(columns) is Ok {
            assert forall|i: int| 0 <= i < columns.len() implies (#[trigger] columns[i]).name is Ok
                && columns[i].type_oid is Ok && arrow_type_of(columns[i].type_oid->Ok_0)
                is Some by {
                if i < n {
                    assert(front[i].name is Ok);
                }
            }
        }
    }
}

/// The first column that cannot be read or written is the one that is told of, by its number,
/// counted from 1: first for its name, then for its type, then for a type that cannot be written.
pub proof fn first_bad_column_is_told(columns: Seq<Described>, i: int)
    requires
        0 <= i < columns.len(),
        forall|j: int|
            0 <= j < i ==> (#[trigger] columns[j]).name is Ok && columns[j].type_oid is Ok
                && arrow_type_of(columns[j].type_oid->Ok_0) is Some,
    ensures
        columns[i].name matches Err(e) ==> spi_columns(Ok(columns)) == Err::<
            Seq<ColumnInfo>,
            Seq<char>,
        >("failed to get column name "@ + text::decimal((i + 1) as nat) + ": "@ + e),
        columns[i].name is Ok ==> (columns[i].type_oid matches Err(e) ==> spi_columns(Ok(columns))
            == Err::<Seq<ColumnInfo>, Seq<char>>(
            "failed to get column type "@ + text::decimal((i + 1) as nat) + ": "@ + e,
        )),
        columns[i].name is Ok && columns[i].type_oid is Ok && arrow_type_of(
            columns[i].type_oid->Ok_0,
        ) is None ==> spi_columns(Ok(columns)) == Err::<Seq<ColumnInfo>, Seq<char>>(
            "unsupported PostgreSQL type for write: "@ + (match columns[i].formatted {
                Some(name) => name,
                None => "oid "@ + text::decimal(columns[i].type_oid->Ok_0 as nat),
            }),
        ),
{
    let front = columns.take(i);
    infos_are_those_described(front);
    assert forall|j: int| 0 <= j < front.len() implies (#[trigger] front[j]).name is Ok
        && front[j].type_oid is Ok && arrow_type_of(front[j].type_oid->Ok_0) is Some by {
        assert(front[j] == columns[j]);
    }
    let upto = columns.take(i + 1);
    assert(upto.drop_last() =~= front);
    assert(upto.last() == columns[i]);
    if column_infos(upto) is Err {
        first_failure_stays(columns, i + 1);
    }
}

/// The fields of the columns are those of the result, in order, and each may be null.
pub proof fn fields_are_those_of_the_result(columns: Seq<ColumnInfo>, i: int)
    requires
        0 <= i < columns.len(),
    ensures
        schema_of(columns).len() == columns.len(),
        schema_of(columns)[i] == (columns[i].name, columns[i].arrow_type, true),
{
}

/// A column grows by the value that is appended and keeps all others, its type and its room.
pub proof fn appending_keeps_the_column(builder: Builder, value: DatumValue)
    ensures
        builder.with(value).cells.len() == builder.cells.len() + 1,
        builder.with(value).cells.drop_last() == builder.cells,
        builder.with(value).cells.last() == cell_for(builder.data_type, value),
        builder.with(value).data_type == builder.data_type,
        builder.with(value).capacity == builder.capacity,
{
    assert(builder.with(value).cells.drop_last() =~= builder.cells);
}

/// A column that can be built starts empty with the type and the room that were asked for; any
/// other is refused.
pub proof fn columns_start_empty(data_type: ColumnType, shown: Seq<char>, capacity: nat)
    ensures
        fresh_builder(data_type, shown, capacity) is Ok <==> kind_of(data_type, 0) is Some,
        fresh_builder(data_type, shown, capacity) matches Ok(builder) ==> builder.data_type
            == data_type && builder.capacity == capacity && builder.cells.len() == 0,
        fresh_builder(data_type, shown, capacity) matches Err(message) ==> message
            == "unsupported Arrow type for builder: "@ + shown,
{
}

/// The cells of a column are its values, one for one: a value as it is, and a null where there is
/// none.
pub proof fn cells_are_the_values(buffer: ColumnBuffer, i: int)
    requires
        0 <= i,
    ensures
        buffer matches ColumnBuffer::Boolean(values) ==> {
            &&& buffer_cells(buffer).len() == values@.len()
            &&& i < values@.len() ==> buffer_cells(buffer)[i] == (match values@[i] {
                Some(v) => Some(Cell::Bool(v)),
                None => None,
            })
        },
        buffer matches ColumnBuffer::Int16(values) ==> {
            &&& buffer_cells(buffer).len() == values@.len()
            &&& i < values@.len() ==> buffer_cells(buffer)[i] == (match values@[i] {
                Some(v) => Some(Cell::Int16(v)),
                None => None,
            })
        },
        buffer matches ColumnBuffer::Int32(values) ==> {
            &&& buffer_cells(buffer).len() == values@.len()
            &&& i < values@.len() ==> buffer_cells(buffer)[i] == (match values@[i] {
                Some(v) => Some(Cell::Int32(v)),
                None => None,
            })
        },
        buffer matches ColumnBuffer::Int64(values) ==> {
            &&& buffer_cells(buffer).len() == values@.len()
            &&& i < values@.len() ==> buffer_cells(buffer)[i] == (match values@[i] {
                Some(v) => Some(Cell::Int64(v)),
                None => None,
            })
        },
        buffer matches ColumnBuffer::Float32(values) ==> {
            &&& buffer_cells(buffer).len() == values@.len()
            &&& i < values@.len() ==> buffer_cells(buffer)[i] == (match values@[i] {
                Some(v) => Some(Cell::Float32(v)),
                None => None,
            })
        },
        buffer matches ColumnBuffer::Float64(values) ==> {
            &&& buffer_cells(buffer).len() == values@.len()
            &&& i < values@.len() ==> buffer_cells(buffer)[i] == (match values@[i] {
                Some(v) => Some(Cell::Float64(v)),
                None => None,
            })
        },
        buffer matches ColumnBuffer::Date32(values) ==> {
            &&& buffer_cells(buffer).len() == values@.len()
            &&& i < values@.len() ==> buffer_cells(buffer)[i] == (match values@[i] {
                Some(v) => Some(Cell::Date32(v)),
                None => None,
            })
        },
        buffer matches ColumnBuffer::Utf8(values) ==> {
            &&& buffer_cells(buffer).len() == values@.len()
            &&& i < values@.len() ==> buffer_cells(buffer)[i] == (match values@[i] {
                Some(v) => Some(Cell::Utf8(v@)),
                None => None,
            })
        },
        buffer matches ColumnBuffer::Binary(values) ==> {
            &&& buffer_cells(buffer).len() == values@.len()
            &&& i < values@.len() ==> buffer_cells(buffer)[i] == (match values@[i] {
                Some(v) => Some(Cell::Binary(v@)),
                None => None,
            })
        },
        buffer matches ColumnBuffer::TimestampMicro(values) ==> {
            &&& buffer_cells(buffer).len() == values@.len()
            &&& i < values@.len() ==> buffer_cells(buffer)[i] == (match values@[i] {
                Some(v) => Some(Cell::Timestamp(v as int)),
                None => None,
            })
        },
        buffer matches ColumnBuffer::TimestampMicroUtc(values) ==> {
            &&& buffer_cells(buffer).len() == values@.len()
            &&& i < values@.len() ==> buffer_cells(buffer)[i] == (match values@[i] {
                Some(v) => Some(Cell::Timestamp(v as int)),
                None => None,
            })
        },
{
}

/// A column of texts reserves 64 bytes for each value, up to eight megabytes.
pub proof fn texts_reserve_up_to_a_limit(capacity: nat)
    ensures
        reserved_bytes(capacity) <= 8 * 1024 * 1024,
        capacity * 64 <= 8 * 1024 * 1024 ==> reserved_bytes(capacity) == capacity * 64,
        capacity * 64 > 8 * 1024 * 1024 ==> reserved_bytes(capacity) == 8 * 1024 * 1024,
{
}

/// The type of a column is that of the values it holds.
pub proof fn columns_are_of_their_values(builder: TypedBuilder)
    ensures
        builder.deep_view().capacity == builder.capacity,
        builder.deep_view().cells == buffer_cells(builder.values),
        builder.deep_view().data_type == (match builder.values {
            ColumnBuffer::Boolean(_) => ColumnType::Boolean,
            ColumnBuffer::Int16(_) => ColumnType::Int16,
            ColumnBuffer::Int32(_) => ColumnType::Int32,
            ColumnBuffer::Int64(_) => ColumnType::Int64,
            ColumnBuffer::Float32(_) => ColumnType::Float32,
            ColumnBuffer::Float64(_) => ColumnType::Float64,
            ColumnBuffer::Utf8(_) => ColumnType::Utf8,
            ColumnBuffer::Binary(_) => ColumnType::Binary,
            ColumnBuffer::Date32(_) => ColumnType::Date32,
            ColumnBuffer::TimestampMicro(_) => ColumnType::Timestamp(TimeUnit::Microsecond, false),
            ColumnBuffer::TimestampMicroUtc(_) => ColumnType::Timestamp(
                TimeUnit::Microsecond,
                true,
            ),
        }),
{
}

} // verus!
