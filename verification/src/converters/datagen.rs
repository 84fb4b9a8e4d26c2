//! The logical types, the schema that names them, and the generator of
//! random batches for a schema.

use vstd::prelude::*;
use crate::converters::batch::{
    cell_fits,
    Cell,
    CellView,
    Column,
    Field,
    PhysicalType,
    RecordBatch,
    TimeUnit,
};
use crate::converters::common::hex_text;
use crate::converters::rng::{
    fill_bytes,
    is_alphanumeric,
    random_bool,
    random_u16,
    random_u8,
    range_i16_inclusive,
    range_i32,
    range_i32_inclusive,
    range_i64,
    range_i64_inclusive,
    range_i8_inclusive,
    range_u32,
    range_u32_inclusive,
    range_u64_inclusive,
    range_usize_inclusive,
    sample_alphanumeric,
    seeded,
};
use crate::error::TransmutaError;
use crate::text::{
    decimal_digits,
    decimal_text,
    from_chars,
    lowercase,
    push_decimal_text,
    push_hex_byte,
    push_zero_padded,
    str_equal,
    to_lowercase,
    trim,
    trimmed,
    zero_padded,
};

verus! {

/// The logical type of a column.
#[derive(Debug, Clone, Copy, PartialEq, Eq, Structural)]
pub enum DataType {
    /// Alphanumeric text.
    String,
    /// A small whole number; stored as `Int32`.
    Integer,
    /// A small number with a fraction; stored as `Float64`.
    Float,
    Boolean,
    Int8,
    Int16,
    Int32,
    Int64,
    UInt8,
    UInt16,
    UInt32,
    UInt64,
    Float32,
    Float64,
    /// A number with six fractional digits, held as text.
    Decimal,
    /// As `Decimal`.
    Decimal128,
    /// As `Decimal`.
    Decimal256,
    /// Days since the epoch; stored as `Date32`.
    Date,
    /// Days since the epoch.
    Date32,
    /// Milliseconds since the epoch.
    Timestamp,
    /// Milliseconds of the day.
    Time32,
    /// Nanoseconds of the day.
    Time64,
    /// Months, days and nanoseconds.
    Interval,
    /// Nanoseconds.
    Duration,
    /// Bytes of any length.
    Binary,
    /// Sixteen bytes.
    FixedSizeBinary,
    /// A version 4 identifier, held as hyphenated lower-case text.
    Uuid,
    /// No value in any row.
    Null,
}

/// A column of a schema: its name and its logical type.
#[derive(Debug, Clone, PartialEq, Eq)]
pub struct ColumnDefinition {
    pub name: String,
    pub data_type: DataType,
}

/// A column definition as a mathematical value.
pub struct DefinitionView {
    pub name: Seq<char>,
    pub data_type: DataType,
}

impl View for ColumnDefinition {
    type V = DefinitionView;

    open spec fn view(&self) -> DefinitionView {
        DefinitionView { name: self.name@, data_type: self.data_type }
    }
}

/// The logical type that a name in lower case stands for: each type's own
/// name and its synonyms. No other name stands for a type.
pub open spec fn type_named(name: Seq<char>) -> Option<DataType> {
    if name == "string"@ {
        Some(DataType::String)
    } else if name == "integer"@ || name == "int"@ {
        Some(DataType::Integer)
    } else if name == "float"@ {
        Some(DataType::Float)
    } else if name == "boolean"@ || name == "bool"@ {
        Some(DataType::Boolean)
    } else if name == "int8"@ || name == "tinyint"@ {
        Some(DataType::Int8)
    } else if name == "int16"@ || name == "smallint"@ {
        Some(DataType::Int16)
    } else if name == "int32"@ {
        Some(DataType::Int32)
    } else if name == "int64"@ || name == "bigint"@ {
        Some(DataType::Int64)
    } else if name == "uint8"@ || name == "utinyint"@ {
        Some(DataType::UInt8)
    } else if name == "uint16"@ || name == "usmallint"@ {
        Some(DataType::UInt16)
    } else if name == "uint32"@ || name == "uint"@ {
        Some(DataType::UInt32)
    } else if name == "uint64"@ || name == "ubigint"@ {
        Some(DataType::UInt64)
    } else if name == "float32"@ || name == "real"@ {
        Some(DataType::Float32)
    } else if name == "float64"@ || name == "double"@ || name == "double precision"@ {
        Some(DataType::Float64)
    } else if name == "decimal"@ || name == "numeric"@ {
        Some(DataType::Decimal)
    } else if name == "decimal128"@ {
        Some(DataType::Decimal128)
    } else if name == "decimal256"@ {
        Some(DataType::Decimal256)
    } else if name == "date"@ {
        Some(DataType::Date)
    } else if name == "date32"@ {
        Some(DataType::Date32)
    } else if name == "timestamp"@ {
        Some(DataType::Timestamp)
    } else if name == "time32"@ {
        Some(DataType::Time32)
    } else if name == "time64"@ {
        Some(DataType::Time64)
    } else if name == "interval"@ {
        Some(DataType::Interval)
    } else if name == "duration"@ {
        Some(DataType::Duration)
    } else if name == "binary"@ || name == "varbinary"@ {
        Some(DataType::Binary)
    } else if name == "fixedsizebinary"@ {
        Some(DataType::FixedSizeBinary)
    } else if name == "uuid"@ {
        Some(DataType::Uuid)
    } else if name == "null"@ {
        Some(DataType::Null)
    } else {
        None
    }
}

/// The logical type that a name in lower case stands for, if any.
pub fn resolve_type_name(name: &str) -> (r: Option<DataType>)
    ensures
        r == type_named(name@),
{
    if str_equal(name, "string") {
        Some(DataType::String)
    } else if str_equal(name, "integer") || str_equal(name, "int") {
        Some(DataType::Integer)
    } else if str_equal(name, "float") {
        Some(DataType::Float)
    } else if str_equal(name, "boolean") || str_equal(name, "bool") {
        Some(DataType::Boolean)
    } else if str_equal(name, "int8") || str_equal(name, "tinyint") {
        Some(DataType::Int8)
    } else if str_equal(name, "int16") || str_equal(name, "smallint") {
        Some(DataType::Int16)
    } else if str_equal(name, "int32") {
        Some(DataType::Int32)
    } else if str_equal(name, "int64") || str_equal(name, "bigint") {
        Some(DataType::Int64)
    } else if str_equal(name, "uint8") || str_equal(name, "utinyint") {
        Some(DataType::UInt8)
    } else if str_equal(name, "uint16") || str_equal(name, "usmallint") {
        Some(DataType::UInt16)
    } else if str_equal(name, "uint32") || str_equal(name, "uint") {
        Some(DataType::UInt32)
    } else if str_equal(name, "uint64") || str_equal(name, "ubigint") {
        Some(DataType::UInt64)
    } else if str_equal(name, "float32") || str_equal(name, "real") {
        Some(DataType::Float32)
    } else if str_equal(name, "float64") || str_equal(name, "double") || str_equal(
        name,
        "double precision",
    ) {
        Some(DataType::Float64)
    } else if str_equal(name, "decimal") || str_equal(name, "numeric") {
        Some(DataType::Decimal)
    } else if str_equal(name, "decimal128") {
        Some(DataType::Decimal128)
    } else if str_equal(name, "decimal256") {
        Some(DataType::Decimal256)
    } else if str_equal(name, "date") {
        Some(DataType::Date)
    } else if str_equal(name, "date32") {
        Some(DataType::Date32)
    } else if str_equal(name, "timestamp") {
        Some(DataType::Timestamp)
    } else if str_equal(name, "time32") {
        Some(DataType::Time32)
    } else if str_equal(name, "time64") {
        Some(DataType::Time64)
    } else if str_equal(name, "interval") {
        Some(DataType::Interval)
    } else if str_equal(name, "duration") {
        Some(DataType::Duration)
    } else if str_equal(name, "binary") || str_equal(name, "varbinary") {
        Some(DataType::Binary)
    } else if str_equal(name, "fixedsizebinary") {
        Some(DataType::FixedSizeBinary)
    } else if str_equal(name, "uuid") {
        Some(DataType::Uuid)
    } else if str_equal(name, "null") {
        Some(DataType::Null)
    } else {
        None
    }
}

/// The logical type that a name stands for, whatever its case. A name that
/// stands for none fails, and the failure holds the name in lower case.
pub fn parse_type_name(name: &str) -> (r: Result<DataType, TransmutaError>)
    ensures
        match r {
            Ok(data_type) => type_named(lowercase(name@)) == Some(data_type),
            Err(TransmutaError::UnsupportedType { row, name: lowered }) => {
                &&& type_named(lowercase(name@)).is_none()
                &&& row.is_none()
                &&& lowered@ == lowercase(name@)
            },
            Err(_) => false,
        },
{
    let lowered = to_lowercase(name);
    match resolve_type_name(lowered.as_str()) {
        Some(data_type) => Ok(data_type),
        None => Err(TransmutaError::UnsupportedType { row: None, name: lowered }),
    }
}

/// The type name of a schema row as the taxonomy is asked for it: the second
/// field, trimmed and in lower case.
pub open spec fn row_type_name(row: Seq<Seq<char>>) -> Seq<char> {
    lowercase(trimmed(row[1]))
}

/// A schema row defines a column: it has two fields at least, and its type
/// name stands for a type.
pub open spec fn row_defines(row: Seq<Seq<char>>) -> bool {
    row.len() >= 2 && type_named(row_type_name(row)).is_some()
}

/// The column that a schema row defines: the first field, trimmed, is its
/// name.
pub open spec fn row_definition(row: Seq<Seq<char>>) -> DefinitionView {
    DefinitionView { name: trimmed(row[0]), data_type: type_named(row_type_name(row))->0 }
}

/// The column definitions of a delimited-text schema, of which each row
/// holds a column name and a type name. The first row that defines no column
/// fails the whole schema, and so does a schema without rows.
pub fn read_schema_from_csv(records: &Vec<Vec<String>>) -> (r: Result<
    Vec<ColumnDefinition>,
    TransmutaError,
>)
    ensures
        match r {
            Ok(column_defs) => {
                &&& records@.len() > 0
                &&& column_defs@.len() == records@.len()
                &&& forall|i: int|
                    0 <= i < records@.len() ==> {
                        &&& row_defines(#[trigger] records.deep_view()[i])
                        &&& column_defs@[i]@ == row_definition(records.deep_view()[i])
                    }
            },
            Err(TransmutaError::MalformedSchemaRow(row)) => {
                &&& row < records@.len()
                &&& forall|i: int| 0 <= i < row ==> row_defines(#[trigger] records.deep_view()[i])
                &&& records.deep_view()[row as int].len() < 2
            },
            Err(TransmutaError::UnsupportedType { row: Some(row), name }) => {
                &&& row < records@.len()
                &&& forall|i: int| 0 <= i < row ==> row_defines(#[trigger] records.deep_view()[i])
                &&& records.deep_view()[row as int].len() >= 2
                &&& name@ == row_type_name(records.deep_view()[row as int])
                &&& type_named(name@).is_none()
            },
            Err(TransmutaError::EmptySchema) => records@.len() == 0,
            Err(_) => false,
        },
{
    let mut column_defs: Vec<ColumnDefinition> = Vec::new();
    let mut row_idx: usize = 0;
    while row_idx < records.len()
        invariant
            row_idx <= records@.len(),
            column_defs@.len() == row_idx,
            forall|i: int|
                0 <= i < row_idx ==> {
                    &&& row_defines(#[trigger] records.deep_view()[i])
                    &&& column_defs@[i]@ == row_definition(records.deep_view()[i])
                },
        decreases records.len() - row_idx,
    {
        let record = &records[row_idx];
        let ghost row = records.deep_view()[row_idx as int];
        assert(row == record.deep_view());
        assert(row.len() == record@.len());
        if record.len() < 2 {
            return Err(TransmutaError::MalformedSchemaRow(row_idx));
        }
        assert(row[0] == record@[0]@ && row[1] == record@[1]@);
        let name = trim(record[0].as_str());
        let trimmed_type = trim(record[1].as_str());
        let data_type = match parse_type_name(trimmed_type.as_str()) {
            Ok(data_type) => data_type,
            Err(TransmutaError::UnsupportedType { row: _, name }) => {
                return Err(TransmutaError::UnsupportedType { row: Some(row_idx), name });
            },
            Err(e) => {
                return Err(e);
            },
        };
        column_defs.push(ColumnDefinition { name, data_type });
        row_idx += 1;
    }
    if column_defs.len() == 0 {
        return Err(TransmutaError::EmptySchema);
    }
    Ok(column_defs)
}

/// The column definitions of a structured-record schema, once decoded: the
/// definitions as they are, unless there is none.
pub fn read_schema_from_json(column_defs: Vec<ColumnDefinition>) -> (r: Result<
    Vec<ColumnDefinition>,
    TransmutaError,
>)
    ensures
        match r {
            Ok(schema) => column_defs@.len() > 0 && schema == column_defs,
            Err(e) => column_defs@.len() == 0 && e is EmptySchema,
        },
{
    if column_defs.len() == 0 {
        return Err(TransmutaError::EmptySchema);
    }
    Ok(column_defs)
}

/// How the columns of a logical type are stored.
pub open spec fn physical_type(data_type: DataType) -> PhysicalType {
    match data_type {
        DataType::String => PhysicalType::Utf8,
        DataType::Integer => PhysicalType::Int32,
        DataType::Float => PhysicalType::Float64,
        DataType::Boolean => PhysicalType::Boolean,
        DataType::Int8 => PhysicalType::Int8,
        DataType::Int16 => PhysicalType::Int16,
        DataType::Int32 => PhysicalType::Int32,
        DataType::Int64 => PhysicalType::Int64,
        DataType::UInt8 => PhysicalType::UInt8,
        DataType::UInt16 => PhysicalType::UInt16,
        DataType::UInt32 => PhysicalType::UInt32,
        DataType::UInt64 => PhysicalType::UInt64,
        DataType::Float32 => PhysicalType::Float32,
        DataType::Float64 => PhysicalType::Float64,
        DataType::Decimal | DataType::Decimal128 | DataType::Decimal256 => PhysicalType::Utf8,
        DataType::Date => PhysicalType::Date32,
        DataType::Date32 => PhysicalType::Date32,
        DataType::Timestamp => PhysicalType::Timestamp(TimeUnit::Millisecond),
        DataType::Time32 => PhysicalType::Time32(TimeUnit::Millisecond),
        DataType::Time64 => PhysicalType::Time64(TimeUnit::Nanosecond),
        DataType::Interval => PhysicalType::Interval,
        DataType::Duration => PhysicalType::Duration(TimeUnit::Nanosecond),
        DataType::Binary => PhysicalType::Binary,
        DataType::FixedSizeBinary => PhysicalType::FixedSizeBinary(16),
        DataType::Uuid => PhysicalType::Utf8,
        DataType::Null => PhysicalType::Null,
    }
}

/// How the columns of a logical type are stored.
pub fn storage_type(data_type: DataType) -> (r: PhysicalType)
    ensures
        r == physical_type(data_type),
{
    match data_type {
        DataType::String => PhysicalType::Utf8,
        DataType::Integer => PhysicalType::Int32,
        DataType::Float => PhysicalType::Float64,
        DataType::Boolean => PhysicalType::Boolean,
        DataType::Int8 => PhysicalType::Int8,
        DataType::Int16 => PhysicalType::Int16,
        DataType::Int32 => PhysicalType::Int32,
        DataType::Int64 => PhysicalType::Int64,
        DataType::UInt8 => PhysicalType::UInt8,
        DataType::UInt16 => PhysicalType::UInt16,
        DataType::UInt32 => PhysicalType::UInt32,
        DataType::UInt64 => PhysicalType::UInt64,
        DataType::Float32 => PhysicalType::Float32,
        DataType::Float64 => PhysicalType::Float64,
        DataType::Decimal | DataType::Decimal128 | DataType::Decimal256 => PhysicalType::Utf8,
        DataType::Date => PhysicalType::Date32,
        DataType::Date32 => PhysicalType::Date32,
        DataType::Timestamp => PhysicalType::Timestamp(TimeUnit::Millisecond),
        DataType::Time32 => PhysicalType::Time32(TimeUnit::Millisecond),
        DataType::Time64 => PhysicalType::Time64(TimeUnit::Nanosecond),
        DataType::Interval => PhysicalType::Interval,
        DataType::Duration => PhysicalType::Duration(TimeUnit::Nanosecond),
        DataType::Binary => PhysicalType::Binary,
        DataType::FixedSizeBinary => PhysicalType::FixedSizeBinary(16),
        DataType::Uuid => PhysicalType::Utf8,
        DataType::Null => PhysicalType::Null,
    }
}

/// The fields of a schema: for each column definition its name and the
/// physical type of its logical type.
pub fn schema_fields(column_defs: &Vec<ColumnDefinition>) -> (r: Vec<Field>)
    ensures
        r@.len() == column_defs@.len(),
        forall|i: int|
            0 <= i < r@.len() ==> {
                &&& (#[trigger] r@[i]).name@ == column_defs@[i].name@
                &&& r@[i].data_type == physical_type(column_defs@[i].data_type)
            },
{
    let mut fields: Vec<Field> = Vec::new();
    let mut i: usize = 0;
    while i < column_defs.len()
        invariant
            i <= column_defs@.len(),
            fields@.len() == i,
            forall|k: int|
                0 <= k < i ==> {
                    &&& (#[trigger] fields@[k]).name@ == column_defs@[k].name@
                    &&& fields@[k].data_type == physical_type(column_defs@[k].data_type)
                },
        decreases column_defs.len() - i,
    {
        let col = &column_defs[i];
        fields.push(Field { name: col.name.clone(), data_type: storage_type(col.data_type) });
        i += 1;
    }
    fields
}

/// The first millisecond of the year 2000, counted from the epoch.
pub const MIN_TIMESTAMP_MILLIS: i64 = 946684800000;

/// The day count of the first day of the year 2000.
pub const MIN_DATE_DAYS: i32 = 10957;

/// The last day count that is generated.
pub const MAX_DATE_DAYS: i32 = 19000;

/// The milliseconds of a day.
pub const MILLIS_PER_DAY: i32 = 86400000;

/// The nanoseconds of a day.
pub const NANOS_PER_DAY: i64 = 86400000000000;

/// The nanoseconds of a year of 365 days.
pub const NANOS_PER_YEAR: i64 = 31536000000000000;

/// Whether every character of a text is a letter or a digit of ASCII.
pub open spec fn is_alphanumeric_text(s: Seq<char>) -> bool {
    forall|i: int| 0 <= i < s.len() ==> (#[trigger] s[i]) as u32 <= 0x7f && is_alphanumeric(s[i] as u8)
}

/// The text of a decimal number with a whole part and six fractional digits.
pub open spec fn decimal_form(whole: int, fraction: int) -> Seq<char> {
    decimal_text(whole) + seq!['.'] + zero_padded(decimal_digits(fraction as nat), 6)
}

/// Sixteen bytes as an identifier of version 4: the upper half of byte six is
/// set to four, the two upper bits of byte eight to one and zero.
pub open spec fn uuid_bytes(raw: Seq<u8>) -> Seq<u8> {
    raw.update(6, (raw[6] & 0x0f) | 0x40).update(8, (raw[8] & 0x3f) | 0x80)
}

/// The canonical text of the sixteen bytes of an identifier: lower-case
/// hexadecimal digits in groups of 8, 4, 4, 4 and 12, with hyphens between.
pub open spec fn uuid_text(bytes: Seq<u8>) -> Seq<char> {
    hex_text(bytes.subrange(0, 4)) + seq!['-'] + hex_text(bytes.subrange(4, 6)) + seq!['-']
        + hex_text(bytes.subrange(6, 8)) + seq!['-'] + hex_text(bytes.subrange(8, 10)) + seq!['-']
        + hex_text(bytes.subrange(10, 16))
}

/// Whether a cell can have been generated for a column of the given logical
/// type at the moment `now_millis`, in milliseconds since the epoch. Of a
/// floating-point cell only the width is said: the range of such numbers is
/// that of [`float_bounds`].
pub open spec fn cell_generated(data_type: DataType, cell: CellView, now_millis: int) -> bool {
    match data_type {
        DataType::String => cell matches CellView::Text(s) && 5 <= s.len() <= 20
            && is_alphanumeric_text(s),
        DataType::Integer => cell matches CellView::Int(v) && -1000 <= v <= 1000,
        DataType::Float => cell is Float64,
        DataType::Boolean => cell is Boolean,
        DataType::Int8 => cell matches CellView::Int(v) && -128 <= v <= 127,
        DataType::Int16 => cell matches CellView::Int(v) && -32768 <= v <= 32767,
        DataType::Int32 => cell matches CellView::Int(v) && -1073741824 <= v <= 1073741823,
        DataType::Int64 => cell matches CellView::Int(v) && -9223372036854775 <= v
            <= 9223372036854775,
        DataType::UInt8 => cell matches CellView::UInt(v) && v <= 255,
        DataType::UInt16 => cell matches CellView::UInt(v) && v <= 65535,
        DataType::UInt32 => cell matches CellView::UInt(v) && v <= 2147483647,
        DataType::UInt64 => cell matches CellView::UInt(v) && v <= 18446744073709551,
        DataType::Float32 => cell is Float32,
        DataType::Float64 => cell is Float64,
        DataType::Decimal | DataType::Decimal128 | DataType::Decimal256 => cell matches CellView::Text(s)
            && exists|whole: int, fraction: int|
            0 <= whole < 10000 && 0 <= fraction < 1000000 && s == #[trigger] decimal_form(
                whole,
                fraction,
            ),
        DataType::Date | DataType::Date32 => cell matches CellView::Int(v) && MIN_DATE_DAYS <= v
            <= MAX_DATE_DAYS,
        DataType::Timestamp => cell matches CellView::Int(v) && MIN_TIMESTAMP_MILLIS <= v
            <= now_millis,
        DataType::Time32 => cell matches CellView::Int(v) && 0 <= v < MILLIS_PER_DAY,
        DataType::Time64 => cell matches CellView::Int(v) && 0 <= v < NANOS_PER_DAY,
        DataType::Interval => cell matches CellView::Interval { months, days, nanoseconds }
            && -1200 <= months <= 1200 && -3650 <= days <= 3650 && exists|millis: int|
            -MILLIS_PER_DAY <= millis < MILLIS_PER_DAY && nanoseconds == #[trigger] (millis
                * 1_000_000),
        DataType::Duration => cell matches CellView::Int(v) && 0 <= v < NANOS_PER_YEAR,
        DataType::Binary => cell matches CellView::Bytes(b) && 4 <= b.len() <= 20,
        DataType::FixedSizeBinary => cell matches CellView::Bytes(b) && b.len() == 16,
        DataType::Uuid => cell matches CellView::Text(s) && exists|raw: Seq<u8>|
            raw.len() == 16 && s == uuid_text(#[trigger] uuid_bytes(raw)),
        DataType::Null => cell is Null,
    }
}

/// Whether the numbers of a logical type have a floating point. Such numbers
/// are not drawn here.
pub open spec fn is_float(data_type: DataType) -> bool {
    data_type is Float || data_type is Float32 || data_type is Float64
}

/// The bounds, both included, between which the floating-point numbers of a
/// logical type are drawn; none for the other types.
pub open spec fn float_range(data_type: DataType) -> Option<(int, int)> {
    match data_type {
        DataType::Float => Some((-1000, 1000)),
        DataType::Float32 => Some((-1000, 1000)),
        DataType::Float64 => Some((-1000000, 1000000)),
        _ => None,
    }
}

/// The bounds, both included, between which the floating-point numbers of a
/// logical type are drawn; none for the other types.
pub fn float_bounds(data_type: DataType) -> (r: Option<(i32, i32)>)
    ensures
        r.is_some() == is_float(data_type),
        match r {
            Some((low, high)) => float_range(data_type) == Some((low as int, high as int)),
            None => float_range(data_type).is_none(),
        },
{
    match data_type {
        DataType::Float => Some((-1000, 1000)),
        DataType::Float32 => Some((-1000, 1000)),
        DataType::Float64 => Some((-1000000, 1000000)),
        _ => None,
    }
}

/// A text of letters and digits, of a length between the two bounds.
fn generate_random_string(rng: &mut rand::rngs::StdRng, min_len: usize, max_len: usize) -> (r:
    String)
    requires
        min_len <= max_len,
    ensures
        min_len <= r@.len() <= max_len,
        is_alphanumeric_text(r@),
{
    let len = range_usize_inclusive(rng, min_len, max_len);
    let mut chars: Vec<char> = Vec::new();
    let mut i: usize = 0;
    while i < len
        invariant
            i <= len,
            chars@.len() == i,
            is_alphanumeric_text(chars@),
        decreases len - i,
    {
        let byte = sample_alphanumeric(rng);
        chars.push(byte as char);
        i += 1;
    }
    from_chars(&chars)
}

/// The text of a decimal number from its whole part and its fraction in
/// millionths.
pub fn decimal_from_parts(whole_part: i32, decimal_part: u32) -> (r: String)
    ensures
        r@ == decimal_form(whole_part as int, decimal_part as int),
{
    let mut out: Vec<char> = Vec::new();
    push_decimal_text(&mut out, whole_part as i64);
    out.push('.');
    push_zero_padded(&mut out, decimal_part as u128, 6);
    from_chars(&out)
}

/// A decimal number below ten thousand with six fractional digits, as text.
fn generate_random_decimal(rng: &mut rand::rngs::StdRng) -> (r: String)
    ensures
        exists|whole: int, fraction: int|
            0 <= whole < 10000 && 0 <= fraction < 1000000 && r@ == #[trigger] decimal_form(
                whole,
                fraction,
            ),
{
    let whole_part = range_i32(rng, 0, 10000);
    let decimal_part = range_u32(rng, 0, 1000000);
    decimal_from_parts(whole_part, decimal_part)
}

/// A day count between the first day of 2000 and the last generated day.
fn generate_random_date(rng: &mut rand::rngs::StdRng) -> (r: i32)
    ensures
        MIN_DATE_DAYS <= r <= MAX_DATE_DAYS,
{
    range_i32_inclusive(rng, MIN_DATE_DAYS, MAX_DATE_DAYS)
}

/// A millisecond between the start of 2000 and now.
fn generate_random_timestamp(rng: &mut rand::rngs::StdRng, now_millis: i64) -> (r: i64)
    requires
        MIN_TIMESTAMP_MILLIS <= now_millis,
    ensures
        MIN_TIMESTAMP_MILLIS <= r <= now_millis,
{
    range_i64_inclusive(rng, MIN_TIMESTAMP_MILLIS, now_millis)
}

/// An interval from its months, its days and a count of milliseconds.
pub fn interval_from_parts(months: i32, days: i32, millis: i32) -> (r: Cell)
    ensures
        r@ == (CellView::Interval {
            months: months as int,
            days: days as int,
            nanoseconds: millis * 1_000_000,
        }),
{
    let nanos: i64 = millis as i64 * 1_000_000;
    Cell::Interval { months, days, nanoseconds: nanos }
}

/// An interval of up to a hundred years in months, ten years in days and a
/// day in nanoseconds, each in either direction.
fn generate_random_interval(rng: &mut rand::rngs::StdRng) -> (r: Cell)
    ensures
        cell_generated(DataType::Interval, r@, 0),
{
    let months = range_i32_inclusive(rng, -1200, 1200);
    let days = range_i32_inclusive(rng, -3650, 3650);
    let millis = range_i32(rng, -MILLIS_PER_DAY, MILLIS_PER_DAY);
    let cell = interval_from_parts(months, days, millis);
    assert(cell@->Interval_nanoseconds == millis * 1_000_000);
    cell
}

/// Random bytes, as many as a length drawn between the two bounds.
fn generate_random_binary(rng: &mut rand::rngs::StdRng, min_len: usize, max_len: usize) -> (r:
    Vec<u8>)
    requires
        min_len <= max_len,
    ensures
        min_len <= r@.len() <= max_len,
{
    let len = range_usize_inclusive(rng, min_len, max_len);
    generate_random_fixed_size_binary(rng, len)
}

/// `size` random bytes.
fn generate_random_fixed_size_binary(rng: &mut rand::rngs::StdRng, size: usize) -> (r: Vec<u8>)
    ensures
        r@.len() == size,
{
    let mut bytes: Vec<u8> = Vec::new();
    let mut i: usize = 0;
    while i < size
        invariant
            i <= size,
            bytes@.len() == i,
        decreases size - i,
    {
        bytes.push(0u8);
        i += 1;
    }
    fill_bytes(rng, &mut bytes);
    bytes
}

/// Appends the hexadecimal digits of the bytes from `from` up to `to`.
fn push_hex_range(out: &mut Vec<char>, bytes: &Vec<u8>, from: usize, to: usize)
    requires
        from <= to <= bytes@.len(),
    ensures
        final(out)@ == old(out)@ + hex_text(bytes@.subrange(from as int, to as int)),
{
    let ghost before = out@;
    let mut i: usize = from;
    proof {
        assert(hex_text(bytes@.subrange(from as int, from as int)) =~= Seq::<char>::empty());
    }
    while i < to
        invariant
            from <= i <= to <= bytes@.len(),
            out@ == before + hex_text(bytes@.subrange(from as int, i as int)),
        decreases to - i,
    {
        push_hex_byte(out, bytes[i]);
        i += 1;
        proof {
            let part = bytes@.subrange(from as int, i as int);
            assert(part.drop_last() =~= bytes@.subrange(from as int, i - 1));
            assert(part.last() == bytes@[i - 1]);
        }
    }
}

/// The canonical text of the version 4 identifier that sixteen bytes make.
pub fn uuid_from_bytes(raw: &Vec<u8>) -> (r: String)
    requires
        raw@.len() == 16,
    ensures
        r@ == uuid_text(uuid_bytes(raw@)),
{
    let mut bytes = raw.clone();
    bytes.set(6, (raw[6] & 0x0f) | 0x40);
    bytes.set(8, (raw[8] & 0x3f) | 0x80);
    assert(bytes@ =~= uuid_bytes(raw@));
    let mut uuid: Vec<char> = Vec::new();
    push_hex_range(&mut uuid, &bytes, 0, 4);
    uuid.push('-');
    push_hex_range(&mut uuid, &bytes, 4, 6);
    uuid.push('-');
    push_hex_range(&mut uuid, &bytes, 6, 8);
    uuid.push('-');
    push_hex_range(&mut uuid, &bytes, 8, 10);
    uuid.push('-');
    push_hex_range(&mut uuid, &bytes, 10, 16);
    proof {
        assert(uuid@ =~= uuid_text(bytes@));
    }
    from_chars(&uuid)
}

/// A random identifier of version 4, as text.
fn generate_random_uuid(rng: &mut rand::rngs::StdRng) -> (r: String)
    ensures
        exists|raw: Seq<u8>| raw.len() == 16 && r@ == uuid_text(#[trigger] uuid_bytes(raw)),
{
    let raw = generate_random_fixed_size_binary(rng, 16);
    uuid_from_bytes(&raw)
}

/// One cell of a column of a logical type without floating point, drawn from
/// the generator.
fn generate_cell(data_type: DataType, rng: &mut rand::rngs::StdRng, now_millis: i64) -> (r: Cell)
    requires
        !is_float(data_type),
        data_type is Timestamp ==> MIN_TIMESTAMP_MILLIS <= now_millis,
    ensures
        cell_generated(data_type, r@, now_millis as int),
{
    match data_type {
        DataType::String => Cell::Text(generate_random_string(rng, 5, 20)),
        DataType::Integer => Cell::Int(range_i32_inclusive(rng, -1000, 1000) as i64),
        DataType::Boolean => Cell::Boolean(random_bool(rng)),
        DataType::Int8 => Cell::Int(range_i8_inclusive(rng, -128, 127) as i64),
        DataType::Int16 => Cell::Int(range_i16_inclusive(rng, -32768, 32767) as i64),
        DataType::Int32 => Cell::Int(range_i32_inclusive(rng, -1073741824, 1073741823) as i64),
        DataType::Int64 => Cell::Int(
            range_i64_inclusive(rng, -9223372036854775, 9223372036854775),
        ),
        DataType::UInt8 => Cell::UInt(random_u8(rng) as u64),
        DataType::UInt16 => Cell::UInt(random_u16(rng) as u64),
        DataType::UInt32 => Cell::UInt(range_u32_inclusive(rng, 0, 2147483647) as u64),
        DataType::UInt64 => Cell::UInt(range_u64_inclusive(rng, 0, 18446744073709551)),
        DataType::Decimal | DataType::Decimal128 | DataType::Decimal256 => Cell::Text(
            generate_random_decimal(rng),
        ),
        DataType::Date | DataType::Date32 => Cell::Int(generate_random_date(rng) as i64),
        DataType::Timestamp => Cell::Int(generate_random_timestamp(rng, now_millis)),
        DataType::Time32 => Cell::Int(range_i32(rng, 0, MILLIS_PER_DAY) as i64),
        DataType::Time64 => Cell::Int(range_i64(rng, 0, NANOS_PER_DAY)),
        DataType::Interval => generate_random_interval(rng),
        DataType::Duration => Cell::Int(range_i64(rng, 0, NANOS_PER_YEAR)),
        DataType::Binary => Cell::Bytes(generate_random_binary(rng, 4, 20)),
        DataType::FixedSizeBinary => Cell::Bytes(generate_random_fixed_size_binary(rng, 16)),
        DataType::Uuid => Cell::Text(generate_random_uuid(rng)),
        DataType::Null => Cell::Null,
        DataType::Float | DataType::Float32 | DataType::Float64 => Cell::Null,
    }
}

/// A generated cell fits the column in which its logical type is stored.
pub proof fn lemma_generated_cell_fits(data_type: DataType, cell: CellView, now_millis: int)
    requires
        cell_generated(data_type, cell, now_millis),
        i64::MIN <= now_millis <= i64::MAX,
    ensures
        cell_fits(physical_type(data_type), cell),
{
    if data_type is Interval {
    }
}

/// Whether a column can have been generated for a logical type: it is stored
/// as the type is, has the asked number of rows, and each of its cells can
/// have been generated for the type.
pub open spec fn column_generated(
    data_type: DataType,
    column: crate::converters::batch::ColumnView,
    rows: nat,
    now_millis: int,
) -> bool {
    &&& column.data_type == physical_type(data_type)
    &&& column.cells.len() == rows
    &&& forall|i: int|
        0 <= i < column.cells.len() ==> cell_generated(
            data_type,
            #[trigger] column.cells[i],
            now_millis,
        )
}

/// One column of `rows` cells of a logical type without floating point, each
/// drawn in turn from the generator.
fn generate_column(
    data_type: DataType,
    rows: usize,
    rng: &mut rand::rngs::StdRng,
    now_millis: i64,
) -> (r: Column)
    requires
        !is_float(data_type),
        data_type is Timestamp ==> MIN_TIMESTAMP_MILLIS <= now_millis,
    ensures
        column_generated(data_type, r@, rows as nat, now_millis as int),
        r.wf(),
{
    let mut cells: Vec<Cell> = Vec::new();
    let mut i: usize = 0;
    while i < rows
        invariant
            !is_float(data_type),
            data_type is Timestamp ==> MIN_TIMESTAMP_MILLIS <= now_millis,
            i <= rows,
            cells@.len() == i,
            forall|k: int|
                0 <= k < i ==> cell_generated(data_type, #[trigger] cells@[k]@, now_millis as int),
        decreases rows - i,
    {
        let cell = generate_cell(data_type, rng, now_millis);
        cells.push(cell);
        i += 1;
    }
    let column = Column { data_type: storage_type(data_type), cells };
    proof {
        assert forall|k: int| 0 <= k < column@.cells.len() implies cell_fits(
            column@.data_type,
            #[trigger] column@.cells[k],
        ) by {
            lemma_generated_cell_fits(data_type, column@.cells[k], now_millis as int);
        }
    }
    column
}

/// Reads the clock with `SystemTime::now`, in whole seconds since the epoch;
/// zero for a clock that stands before the epoch. Trusted with nothing
/// claimed: the value is the moment's.
#[verifier::external_body]
fn get_default_seed() -> (r: u64) {
    std::time::SystemTime::now().duration_since(std::time::UNIX_EPOCH).unwrap_or_default().as_secs()
}

/// Reads the clock with `SystemTime::now`, in milliseconds since the epoch;
/// zero for a clock that stands before the epoch. Trusted with nothing
/// claimed: the value is the moment's.
#[verifier::external_body]
fn current_millis() -> (r: i64) {
    std::time::SystemTime::now().duration_since(
        std::time::UNIX_EPOCH,
    ).unwrap_or_default().as_millis() as i64
}

/// The seed of a run: the one given, else the clock's seconds, with which
/// the run cannot be repeated.
pub fn seed_or_clock(seed: Option<u64>) -> (r: u64)
    ensures
        seed matches Some(s) ==> r == s,
{
    match seed {
        Some(s) => s,
        None => get_default_seed(),
    }
}

/// Whether the numbers of a logical type have a floating point.
fn draws_floats(data_type: DataType) -> (r: bool)
    ensures
        r == is_float(data_type),
{
    matches!(data_type, DataType::Float | DataType::Float32 | DataType::Float64)
}

/// What the caller is asked to draw: a column of floating-point numbers,
/// which this library holds as bits and does not compute.
#[derive(Debug, Clone, Copy, PartialEq, Eq)]
pub struct FloatRequest {
    /// `Float32` or `Float64`: how the column is stored.
    pub data_type: PhysicalType,
    /// The least number to draw.
    pub low: i32,
    /// The greatest number to draw.
    pub high: i32,
    /// How many numbers to draw.
    pub rows: usize,
}

/// The logical types of column definitions, in order.
pub open spec fn logical_types(definitions: Seq<ColumnDefinition>) -> Seq<DataType> {
    Seq::new(definitions.len(), |i: int| definitions[i].data_type)
}

/// Whether one of the types is `Timestamp`, whose values are drawn up to
/// the moment of the run.
pub open spec fn holds_timestamp(types: Seq<DataType>) -> bool {
    exists|i: int| 0 <= i < types.len() && #[trigger] types[i] is Timestamp
}

/// Whether a schema can be generated at a moment: a schema with a
/// `Timestamp` column cannot before the year 2000, where the range of
/// timestamps begins and would be empty; any other schema can at any moment.
pub open spec fn clock_serves(types: Seq<DataType>, now_millis: int) -> bool {
    holds_timestamp(types) ==> MIN_TIMESTAMP_MILLIS <= now_millis
}

/// Whether one of the column definitions is of the type `Timestamp`.
pub fn has_timestamp(definitions: &Vec<ColumnDefinition>) -> (r: bool)
    ensures
        r == holds_timestamp(logical_types(definitions@)),
{
    let mut i: usize = 0;
    while i < definitions.len()
        invariant
            i <= definitions@.len(),
            forall|k: int| 0 <= k < i ==> !(#[trigger] logical_types(definitions@)[k] is Timestamp),
        decreases definitions.len() - i,
    {
        if matches!(definitions[i].data_type, DataType::Timestamp) {
            assert(logical_types(definitions@)[i as int] is Timestamp);
            return true;
        }
        i += 1;
    }
    false
}

/// The index of the first floating-point type at or after `from`, or the
/// number of types if there is none: where a run of the generator that
/// starts at `from` stops.
pub open spec fn run_end(types: Seq<DataType>, from: int) -> int
    decreases types.len() - from,
{
    if from < 0 || from >= types.len() || is_float(types[from]) {
        from
    } else {
        run_end(types, from + 1)
    }
}

/// The generation of one batch, column by column in schema order, from one
/// generator that every draw advances. The columns without floating point
/// are drawn here; for a floating-point column the caller draws from `rng`
/// in its turn and hands the column in. Of a draw only the range is stated:
/// that one seed draws the same values again is the generator's own
/// property.
pub struct BatchGenerator {
    /// The source of all draws.
    pub rng: rand::rngs::StdRng,
    /// The schema.
    pub definitions: Vec<ColumnDefinition>,
    /// The number of rows of each column.
    pub rows: usize,
    /// The moment of the run, in milliseconds since the epoch: the upper
    /// bound of generated timestamps.
    pub now_millis: i64,
    /// The columns generated so far, for the first definitions.
    pub columns: Vec<Column>,
}

impl BatchGenerator {
    /// The moment of the run serves the schema, and each column so far can
    /// have been generated for its definition.
    pub open spec fn wf(&self) -> bool {
        &&& clock_serves(logical_types(self.definitions@), self.now_millis as int)
        &&& self.columns@.len() <= self.definitions@.len()
        &&& forall|c: int|
            0 <= c < self.columns@.len() ==> column_generated(
                self.definitions@[c].data_type,
                (#[trigger] self.columns@[c])@,
                self.rows as nat,
                self.now_millis as int,
            )
    }

    /// Starts the generation of `rows` rows for a schema, with a generator
    /// seeded by `seed`. For a schema with a `Timestamp` column the moment
    /// may not lie before the year 2000, where the range of timestamps
    /// begins.
    pub fn new(definitions: Vec<ColumnDefinition>, rows: usize, seed: u64, now_millis: i64) -> (r:
        BatchGenerator)
        requires
            clock_serves(logical_types(definitions@), now_millis as int),
        ensures
            r.wf(),
            r.definitions == definitions,
            r.rows == rows,
            r.now_millis == now_millis,
            r.columns@.len() == 0,
    {
        BatchGenerator { rng: seeded(seed), definitions, rows, now_millis, columns: Vec::new() }
    }

    /// Starts the generation of `rows` rows for a schema at the given
    /// moment, unless the schema has a `Timestamp` column and the moment
    /// lies before the year 2000, where the range of timestamps begins.
    pub fn try_new(definitions: Vec<ColumnDefinition>, rows: usize, seed: u64, now_millis: i64) -> (r:
        Option<BatchGenerator>)
        ensures
            r.is_some() == clock_serves(logical_types(definitions@), now_millis as int),
            r matches Some(generator) ==> {
                &&& generator.wf()
                &&& generator.definitions == definitions
                &&& generator.rows == rows
                &&& generator.now_millis == now_millis
                &&& generator.columns@.len() == 0
            },
    {
        if now_millis < MIN_TIMESTAMP_MILLIS && has_timestamp(&definitions) {
            return None;
        }
        Some(Self::new(definitions, rows, seed, now_millis))
    }

    /// Starts a generation at the present moment, with the given seed or
    /// else one taken from the clock. A schema without a `Timestamp` column
    /// is generated whatever the clock reads. There is no generation of a
    /// schema with such a column where the clock stands before the year
    /// 2000.
    pub fn start(definitions: Vec<ColumnDefinition>, rows: usize, seed: Option<u64>) -> (r: Option<
        BatchGenerator,
    >)
        ensures
            !holds_timestamp(logical_types(definitions@)) ==> r.is_some(),
            r matches Some(generator) ==> {
                &&& generator.wf()
                &&& generator.definitions == definitions
                &&& generator.rows == rows
                &&& generator.columns@.len() == 0
            },
    {
        let seed_value = seed_or_clock(seed);
        Self::try_new(definitions, rows, seed_value, current_millis())
    }

    /// Whether every column has been generated.
    pub fn is_done(&self) -> (r: bool)
        ensures
            r == (self.columns@.len() >= self.definitions@.len()),
    {
        self.columns.len() >= self.definitions.len()
    }

    /// The floating-point column that is next in turn, if the next column is
    /// one.
    pub fn pending(&self) -> (r: Option<FloatRequest>)
        ensures
            match r {
                Some(request) => {
                    &&& self.columns@.len() < self.definitions@.len()
                    &&& float_range(self.definitions@[self.columns@.len() as int].data_type)
                        == Some((request.low as int, request.high as int))
                    &&& request.data_type == physical_type(
                        self.definitions@[self.columns@.len() as int].data_type,
                    )
                    &&& request.rows == self.rows
                },
                None => self.columns@.len() >= self.definitions@.len() || !is_float(
                    self.definitions@[self.columns@.len() as int].data_type,
                ),
            },
    {
        if self.columns.len() >= self.definitions.len() {
            return None;
        }
        let data_type = self.definitions[self.columns.len()].data_type;
        match float_bounds(data_type) {
            Some((low, high)) => Some(
                FloatRequest { data_type: storage_type(data_type), low, high, rows: self.rows },
            ),
            None => None,
        }
    }

    /// Generates the columns in turn, each for all rows before the next
    /// begins, up to the next floating-point column or the end of the schema.
    pub fn run(&mut self)
        requires
            old(self).wf(),
        ensures
            final(self).wf(),
            final(self).definitions == old(self).definitions,
            final(self).rows == old(self).rows,
            final(self).now_millis == old(self).now_millis,
            final(self).columns@.len() == run_end(
                logical_types(old(self).definitions@),
                old(self).columns@.len() as int,
            ),
            final(self).columns@.take(old(self).columns@.len() as int) == old(self).columns@,
    {
        let ghost types = logical_types(self.definitions@);
        let ghost start = self.columns@.len() as int;
        let ghost begun = self.columns@;
        while self.columns.len() < self.definitions.len() && !draws_floats(
            self.definitions[self.columns.len()].data_type,
        )
            invariant
                self.wf(),
                self.definitions == old(self).definitions,
                self.rows == old(self).rows,
                self.now_millis == old(self).now_millis,
                types == logical_types(self.definitions@),
                0 <= start <= self.columns@.len(),
                run_end(types, start) == run_end(types, self.columns@.len() as int),
                self.columns@.take(start) == begun,
            decreases self.definitions@.len() - self.columns@.len(),
        {
            let data_type = self.definitions[self.columns.len()].data_type;
            assert(types[self.columns@.len() as int] == data_type);
            let column = generate_column(data_type, self.rows, &mut self.rng, self.now_millis);
            let ghost before = self.columns@;
            self.columns.push(column);
            proof {
                assert(before.push(column).take(start) =~= before.take(start));
            }
        }
    }

    /// Takes the column that the caller has drawn for the logical type next
    /// in turn. The column is taken if it can have been generated for that
    /// type: it is stored as the type is, has the number of rows of the run,
    /// and holds no cell that the type does not generate. Otherwise nothing
    /// changes.
    pub fn accept_column(&mut self, column: Column) -> (accepted: bool)
        requires
            old(self).wf(),
        ensures
            final(self).wf(),
            final(self).definitions == old(self).definitions,
            final(self).rows == old(self).rows,
            final(self).now_millis == old(self).now_millis,
            accepted == (old(self).columns@.len() < old(self).definitions@.len()
                && is_float(old(self).definitions@[old(self).columns@.len() as int].data_type)
                && column_generated(
                old(self).definitions@[old(self).columns@.len() as int].data_type,
                column@,
                old(self).rows as nat,
                old(self).now_millis as int,
            )),
            accepted ==> final(self).columns@ == old(self).columns@.push(column),
            !accepted ==> final(self).columns@ == old(self).columns@,
    {
        if self.columns.len() >= self.definitions.len() {
            return false;
        }
        let data_type = self.definitions[self.columns.len()].data_type;
        if !draws_floats(data_type) {
            return false;
        }
        if column.data_type != storage_type(data_type) || column.cells.len() != self.rows {
            return false;
        }
        let single = matches!(data_type, DataType::Float32);
        let mut i: usize = 0;
        while i < column.cells.len()
            invariant
                *self == *old(self),
                self.wf(),
                column.data_type == physical_type(data_type),
                column.cells@.len() == self.rows,
                self.columns@.len() < self.definitions@.len(),
                data_type == self.definitions@[self.columns@.len() as int].data_type,
                i <= column.cells@.len(),
                is_float(data_type),
                single == (data_type is Float32),
                forall|k: int|
                    0 <= k < i ==> cell_generated(
                        data_type,
                        #[trigger] column@.cells[k],
                        self.now_millis as int,
                    ),
            decreases column.cells.len() - i,
        {
            let fits = match &column.cells[i] {
                Cell::Float32(_) => single,
                Cell::Float64(_) => !single,
                _ => false,
            };
            if !fits {
                assert(!cell_generated(data_type, column@.cells[i as int], self.now_millis as int));
                return false;
            }
            i += 1;
        }
        self.columns.push(column);
        true
    }

    /// Whether a batch is that of this generation, finished: there is a
    /// column for every definition, the batch holds the generated columns
    /// with the asked number of rows, and its fields have the names of the
    /// definitions and the physical types of their logical types.
    pub open spec fn finished_as(&self, batch: RecordBatch) -> bool {
        &&& self.columns@.len() == self.definitions@.len()
        &&& batch.wf()
        &&& batch.columns == self.columns
        &&& batch.row_count == self.rows
        &&& batch.fields@.len() == self.definitions@.len()
        &&& forall|c: int|
            0 <= c < batch.fields@.len() ==> {
                &&& (#[trigger] batch.fields@[c]).name@ == self.definitions@[c].name@
                &&& batch.fields@[c].data_type == physical_type(self.definitions@[c].data_type)
            }
    }

    /// The batch of the generated columns, once there is one for every
    /// definition; the generator itself while columns are missing.
    pub fn finish(self) -> (r: Result<RecordBatch, BatchGenerator>)
        requires
            self.wf(),
        ensures
            match r {
                Ok(batch) => self.finished_as(batch),
                Err(generator) => self.columns@.len() < self.definitions@.len() && generator
                    == self,
            },
    {
        if self.columns.len() < self.definitions.len() {
            return Err(self);
        }
        let fields = schema_fields(&self.definitions);
        let batch = RecordBatch { fields, columns: self.columns, row_count: self.rows };
        proof {
            assert forall|c: int| 0 <= c < batch@.columns.len() implies {
                &&& (#[trigger] batch@.columns[c]).data_type == batch@.fields[c].data_type
                &&& batch@.columns[c].cells.len() == batch@.row_count
                &&& batch@.columns[c].wf()
            } by {
                let column = batch.columns@[c]@;
                let data_type = self.definitions@[c].data_type;
                assert(column_generated(
                    data_type,
                    self.columns@[c]@,
                    self.rows as nat,
                    self.now_millis as int,
                ));
                assert forall|k: int| 0 <= k < column.cells.len() implies cell_fits(
                    column.data_type,
                    #[trigger] column.cells[k],
                ) by {
                    lemma_generated_cell_fits(data_type, column.cells[k], self.now_millis as int);
                }
            }
        }
        Ok(batch)
    }
}

/// Generates a batch of `rows` rows for a schema from a generator seeded by
/// `seed`, at the moment `now_millis`, which for a schema with a `Timestamp`
/// column may not lie before the year 2000. A schema without floating-point
/// columns gives the batch. With such a column the generation stops before
/// the first of them and is handed back, for the caller to draw that column
/// and go on.
pub fn generate_data(column_defs: Vec<ColumnDefinition>, rows: usize, seed: u64, now_millis: i64) -> (r:
    Result<RecordBatch, BatchGenerator>)
    requires
        clock_serves(logical_types(column_defs@), now_millis as int),
    ensures
        match r {
            Ok(batch) => {
                &&& run_end(logical_types(column_defs@), 0) == column_defs@.len()
                &&& batch.wf()
                &&& batch.row_count == rows
                &&& batch.fields@.len() == column_defs@.len()
                &&& forall|c: int|
                    0 <= c < column_defs@.len() ==> {
                        &&& (#[trigger] batch.fields@[c]).name@ == column_defs@[c].name@
                        &&& batch.fields@[c].data_type == physical_type(column_defs@[c].data_type)
                        &&& column_generated(
                            column_defs@[c].data_type,
                            batch.columns@[c]@,
                            rows as nat,
                            now_millis as int,
                        )
                    }
            },
            Err(generator) => {
                &&& generator.wf()
                &&& generator.definitions == column_defs
                &&& generator.rows == rows
                &&& generator.now_millis == now_millis
                &&& generator.columns@.len() == run_end(logical_types(column_defs@), 0)
                &&& generator.columns@.len() < column_defs@.len()
            },
        },
{
    let mut generator = BatchGenerator::new(column_defs, rows, seed, now_millis);
    generator.run();
    generator.finish()
}

/// Null-only column: a column generated for the logical type `Null` has
/// the asked number of rows, and each of its cells renders as the empty text
/// and as the structured null.
pub proof fn law_null_column_renders_empty(
    column: crate::converters::batch::ColumnView,
    rows: nat,
    now_millis: int,
    row: int,
)
    requires
        column_generated(DataType::Null, column, rows, now_millis),
        0 <= row < rows,
    ensures
        column.cells.len() == rows,
        crate::converters::common::text_of(column.data_type, column.cells[row])
            == crate::converters::common::RenderedView::Text(Seq::empty()),
        crate::converters::common::structured_of(column.data_type, column.cells[row])
            == crate::converters::common::JsonView::Null,
{
}

/// Null-only schema: in the batch of a finished generation, every row of a
/// column whose logical type is `Null` is written as the empty text by the
/// delimited-text sink and as the structured null by the structured-record
/// sink.
pub proof fn law_null_schema(generator: BatchGenerator, batch: RecordBatch, column: int, row: int)
    requires
        generator.wf(),
        batch.columns == generator.columns,
        0 <= column < generator.columns@.len(),
        generator.definitions@[column].data_type is Null,
        0 <= row < generator.rows,
    ensures
        batch@.columns[column].cells.len() == generator.rows,
        crate::converters::common::csv_cell(batch, row, column)
            == crate::converters::common::RenderedView::Text(Seq::empty()),
        crate::converters::common::json_cell(batch, row, column)
            == crate::converters::common::JsonView::Null,
{
    law_null_column_renders_empty(
        generator.columns@[column]@,
        generator.rows as nat,
        generator.now_millis as int,
        row,
    );
}

/// Generated records: what the structured-record sink writes for the batch
/// of a finished generation, whatever the types of its columns and whoever
/// drew them, is one record for each row asked for, and each record holds
/// one member for each column definition, under the definition's name and
/// in schema order.
pub proof fn law_generated_records(
    generator: BatchGenerator,
    batch: RecordBatch,
    records: Seq<Vec<crate::converters::common::JsonMember>>,
)
    requires
        generator.wf(),
        generator.finished_as(batch),
        crate::converters::common::records_render(records, batch),
    ensures
        records.len() == generator.rows,
        forall|r: int|
            0 <= r < records.len() ==> (#[trigger] records[r])@.len()
                == generator.definitions@.len(),
        forall|r: int, c: int|
            0 <= r < records.len() && 0 <= c < generator.definitions@.len() ==> (#[trigger] records[r]@[c]).name@
                == generator.definitions@[c].name@,
{
    assert(batch@.columns.len() == batch@.fields.len());
}

/// Generated document: what the delimited-text sink writes for the batch of
/// a finished generation is a header with the names of the column
/// definitions in schema order, and one row for each row asked for, with one
/// field for each column definition.
pub proof fn law_generated_document(
    generator: BatchGenerator,
    batch: RecordBatch,
    document: crate::converters::common::CsvDocument,
)
    requires
        generator.wf(),
        generator.finished_as(batch),
        document.renders(batch),
    ensures
        document.header@.len() == generator.definitions@.len(),
        forall|c: int|
            0 <= c < document.header@.len() ==> (#[trigger] document.header@[c])@
                == generator.definitions@[c].name@,
        document.rows@.len() == generator.rows,
        forall|r: int|
            0 <= r < document.rows@.len() ==> (#[trigger] document.rows@[r])@.len()
                == generator.definitions@.len(),
{
    assert(batch@.columns.len() == batch@.fields.len());
}

} // verus!
