//! The value codec, which renders a cell as text or as a structured value,
//! and what each sink is handed for a batch.

use vstd::prelude::*;
use crate::cli::OutputFormat;
use crate::converters::batch::{Cell, CellView, Column, PhysicalType, RecordBatch, TimeUnit};
use crate::converters::calendar::{
    date_pattern,
    datetime_text,
    format_timestamp,
    time_pattern,
};
use crate::text::{
    decimal_digits,
    decimal_text,
    from_chars,
    hex_byte,
    push_chars,
    push_decimal_digits,
    push_decimal_text,
    push_hex_byte,
};

verus! {

/// The text of a cell. The decimal text of a floating-point number is not
/// computed here: such a cell is handed on as its bits, for the writer to
/// print.
#[derive(Debug, Clone, PartialEq, Eq)]
pub enum Rendered {
    Text(String),
    /// The bits of a single-precision number.
    Float32(u32),
    /// The bits of a double-precision number.
    Float64(u64),
}

/// A rendered cell as a mathematical value.
pub enum RenderedView {
    Text(Seq<char>),
    Float32(u32),
    Float64(u64),
}

impl View for Rendered {
    type V = RenderedView;

    open spec fn view(&self) -> RenderedView {
        match *self {
            Rendered::Text(s) => RenderedView::Text(s@),
            Rendered::Float32(bits) => RenderedView::Float32(bits),
            Rendered::Float64(bits) => RenderedView::Float64(bits),
        }
    }
}

/// The structured value of a cell: what a row object holds under a column's
/// name.
#[derive(Debug, Clone, PartialEq, Eq)]
pub enum JsonValue {
    Null,
    Bool(bool),
    /// A number of a signed integer type.
    Int(i64),
    /// A number of an unsigned integer type.
    UInt(u64),
    /// The number with these single-precision bits.
    Float32(u32),
    /// The number with these double-precision bits.
    Float64(u64),
    String(String),
}

/// A structured value as a mathematical value.
pub enum JsonView {
    Null,
    Bool(bool),
    Int(int),
    UInt(nat),
    Float32(u32),
    Float64(u64),
    String(Seq<char>),
}

impl View for JsonValue {
    type V = JsonView;

    open spec fn view(&self) -> JsonView {
        match *self {
            JsonValue::Null => JsonView::Null,
            JsonValue::Bool(b) => JsonView::Bool(b),
            JsonValue::Int(v) => JsonView::Int(v as int),
            JsonValue::UInt(v) => JsonView::UInt(v as nat),
            JsonValue::Float32(bits) => JsonView::Float32(bits),
            JsonValue::Float64(bits) => JsonView::Float64(bits),
            JsonValue::String(s) => JsonView::String(s@),
        }
    }
}

/// The whole seconds of a count of `per_second` parts of a second since the
/// epoch: the quotient rounded down.
pub open spec fn whole_seconds(count: int, per_second: int) -> int {
    count / per_second
}

/// The nanoseconds that a count of `per_second` parts of a second leaves
/// over its whole seconds: never negative, and less than a second.
pub open spec fn leftover_nanoseconds(count: int, per_second: int) -> int {
    (count % per_second) * (1_000_000_000int / per_second)
}

/// The calendar text of a moment, or the decimal text of `raw` where the
/// calendar has no such moment.
pub open spec fn moment_text(seconds: int, nanoseconds: int, pattern: Seq<char>, raw: int) -> Seq<
    char,
> {
    match datetime_text(seconds as i64, nanoseconds as u32, pattern) {
        Some(text) => text,
        None => decimal_text(raw),
    }
}

/// The text of a count in a unit since the epoch: date and time of day, with
/// as many fractional digits as the unit has, or the decimal text of the
/// count where the calendar has no such moment.
pub open spec fn timestamp_text(unit: TimeUnit, count: int) -> Seq<char> {
    match unit {
        TimeUnit::Second => moment_text(count, 0, time_pattern(0), count),
        TimeUnit::Millisecond => moment_text(
            whole_seconds(count, 1_000),
            leftover_nanoseconds(count, 1_000),
            time_pattern(3),
            count,
        ),
        TimeUnit::Microsecond => moment_text(
            whole_seconds(count, 1_000_000),
            leftover_nanoseconds(count, 1_000_000),
            time_pattern(6),
            count,
        ),
        TimeUnit::Nanosecond => moment_text(
            whole_seconds(count, 1_000_000_000),
            leftover_nanoseconds(count, 1_000_000_000),
            time_pattern(9),
            count,
        ),
    }
}

/// The text of a count of milliseconds since the epoch as a date.
pub open spec fn date64_text(milliseconds: int) -> Seq<char> {
    moment_text(
        whole_seconds(milliseconds, 1_000),
        leftover_nanoseconds(milliseconds, 1_000),
        date_pattern(),
        milliseconds,
    )
}

/// The text of bytes: two lower-case hexadecimal digits for each.
pub open spec fn hex_text(bytes: Seq<u8>) -> Seq<char>
    decreases bytes.len(),
{
    if bytes.len() == 0 {
        Seq::empty()
    } else {
        hex_text(bytes.drop_last()) + hex_byte(bytes.last())
    }
}

/// The text of an interval: its three counts with their units.
pub open spec fn interval_text(months: int, days: int, nanoseconds: int) -> Seq<char> {
    decimal_text(months) + " months "@ + decimal_text(days) + " days "@ + decimal_text(
        nanoseconds,
    ) + " nanoseconds"@
}

/// The text of a signed number in a column of the given type: a calendar
/// text for a date in milliseconds and for a timestamp, the decimal text for
/// every other type.
pub open spec fn int_text(data_type: PhysicalType, value: int) -> Seq<char> {
    match data_type {
        PhysicalType::Date64 => date64_text(value),
        PhysicalType::Timestamp(unit) => timestamp_text(unit, value),
        _ => decimal_text(value),
    }
}

/// The rendering of a cell as text. An absent value is the empty text.
pub open spec fn text_of(data_type: PhysicalType, cell: CellView) -> RenderedView {
    match cell {
        CellView::Null => RenderedView::Text(Seq::empty()),
        CellView::Boolean(b) => RenderedView::Text(
            if b {
                "true"@
            } else {
                "false"@
            },
        ),
        CellView::Int(v) => RenderedView::Text(int_text(data_type, v)),
        CellView::UInt(v) => RenderedView::Text(decimal_digits(v)),
        CellView::Float32(bits) => RenderedView::Float32(bits),
        CellView::Float64(bits) => RenderedView::Float64(bits),
        CellView::Text(s) => RenderedView::Text(s),
        CellView::Bytes(b) => RenderedView::Text(hex_text(b)),
        CellView::Interval { months, days, nanoseconds } => RenderedView::Text(
            interval_text(months, days, nanoseconds),
        ),
    }
}

/// Whether the signed numbers of a column of this type are written as
/// numbers in a structured value; those of the temporal types are written as
/// text.
pub open spec fn is_integer_type(data_type: PhysicalType) -> bool {
    match data_type {
        PhysicalType::Int8 | PhysicalType::Int16 | PhysicalType::Int32 | PhysicalType::Int64 => true,
        _ => false,
    }
}

/// The rendering of a cell as a structured value. An absent value is the
/// structured null.
pub open spec fn structured_of(data_type: PhysicalType, cell: CellView) -> JsonView {
    match cell {
        CellView::Null => JsonView::Null,
        CellView::Boolean(b) => JsonView::Bool(b),
        CellView::Int(v) => if is_integer_type(data_type) {
            JsonView::Int(v)
        } else {
            JsonView::String(int_text(data_type, v))
        },
        CellView::UInt(v) => JsonView::UInt(v),
        CellView::Float32(bits) => JsonView::Float32(bits),
        CellView::Float64(bits) => JsonView::Float64(bits),
        CellView::Text(s) => JsonView::String(s),
        CellView::Bytes(b) => JsonView::String(hex_text(b)),
        CellView::Interval { months, days, nanoseconds } => JsonView::String(
            interval_text(months, days, nanoseconds),
        ),
    }
}

/// Splits a count of `per_second` parts of a second into whole seconds and
/// leftover nanoseconds, rounding the seconds down.
fn split_count(count: i64, per_second: u32) -> (r: (i64, u32))
    requires
        per_second == 1_000 || per_second == 1_000_000 || per_second == 1_000_000_000,
    ensures
        r.0 == whole_seconds(count as int, per_second as int),
        r.1 == leftover_nanoseconds(count as int, per_second as int),
{
    let scale: u32 = 1_000_000_000 / per_second;
    let per: u64 = per_second as u64;
    assert(scale * per_second == 1_000_000_000) by {
        if per_second == 1_000 {
            assert(scale == 1_000_000);
        } else if per_second == 1_000_000 {
            assert(scale == 1_000);
        } else {
            assert(scale == 1);
        }
    }
    if count >= 0 {
        let c: u64 = count as u64;
        ((c / per) as i64, ((c % per) as u32) * scale)
    } else {
        let magnitude: u64 = (-(count as i128)) as u64;
        let q: u64 = magnitude / per;
        let r: u64 = magnitude % per;
        if r == 0 {
            (-(q as i64), 0)
        } else {
            assert((per - r) * scale < 1_000_000_000) by (nonlinear_arith)
                requires
                    0 < per - r < per_second,
                    scale * per_second == 1_000_000_000,
                    scale > 0,
            ;
            (-(q as i64) - 1, ((per - r) as u32) * scale)
        }
    }
}

/// The calendar text of a moment, or the decimal text of `raw`.
fn render_moment(seconds: i64, nanoseconds: u32, pattern: &str, raw: i64) -> (r: String)
    requires
        crate::converters::calendar::known_pattern(pattern@),
    ensures
        r@ == moment_text(seconds as int, nanoseconds as int, pattern@, raw as int),
{
    match format_timestamp(seconds, nanoseconds, pattern) {
        Some(text) => text,
        None => crate::text::i64_to_string(raw),
    }
}

/// The text of a count in a unit since the epoch.
pub fn render_timestamp(unit: TimeUnit, count: i64) -> (r: String)
    ensures
        r@ == timestamp_text(unit, count as int),
{
    match unit {
        TimeUnit::Second => render_moment(count, 0, "%Y-%m-%d %H:%M:%S", count),
        TimeUnit::Millisecond => {
            let (seconds, nanoseconds) = split_count(count, 1_000);
            render_moment(seconds, nanoseconds, "%Y-%m-%d %H:%M:%S%.3f", count)
        },
        TimeUnit::Microsecond => {
            let (seconds, nanoseconds) = split_count(count, 1_000_000);
            render_moment(seconds, nanoseconds, "%Y-%m-%d %H:%M:%S%.6f", count)
        },
        TimeUnit::Nanosecond => {
            let (seconds, nanoseconds) = split_count(count, 1_000_000_000);
            render_moment(seconds, nanoseconds, "%Y-%m-%d %H:%M:%S%.9f", count)
        },
    }
}

/// The text of a count of milliseconds since the epoch as a date.
pub fn render_date64(milliseconds: i64) -> (r: String)
    ensures
        r@ == date64_text(milliseconds as int),
{
    let (seconds, nanoseconds) = split_count(milliseconds, 1_000);
    render_moment(seconds, nanoseconds, "%Y-%m-%d", milliseconds)
}

/// The text of a signed number in a column of the given type.
fn render_int(data_type: PhysicalType, value: i64) -> (r: String)
    ensures
        r@ == int_text(data_type, value as int),
{
    match data_type {
        PhysicalType::Date64 => render_date64(value),
        PhysicalType::Timestamp(unit) => render_timestamp(unit, value),
        _ => crate::text::i64_to_string(value),
    }
}

/// The text of bytes: two lower-case hexadecimal digits for each.
pub fn render_hex(bytes: &Vec<u8>) -> (r: String)
    ensures
        r@ == hex_text(bytes@),
{
    let mut out: Vec<char> = Vec::new();
    let mut i: usize = 0;
    while i < bytes.len()
        invariant
            i <= bytes.len(),
            out@ == hex_text(bytes@.take(i as int)),
        decreases bytes.len() - i,
    {
        push_hex_byte(&mut out, bytes[i]);
        i += 1;
        proof {
            assert(bytes@.take(i as int).drop_last() =~= bytes@.take(i - 1));
        }
    }
    proof {
        assert(bytes@.take(bytes.len() as int) =~= bytes@);
    }
    from_chars(&out)
}

/// The text of an interval.
pub fn render_interval(months: i32, days: i32, nanoseconds: i64) -> (r: String)
    ensures
        r@ == interval_text(months as int, days as int, nanoseconds as int),
{
    let mut out: Vec<char> = Vec::new();
    push_decimal_text(&mut out, months as i64);
    push_chars(&mut out, " months ");
    push_decimal_text(&mut out, days as i64);
    push_chars(&mut out, " days ");
    push_decimal_text(&mut out, nanoseconds);
    push_chars(&mut out, " nanoseconds");
    proof {
        assert(out@ =~= interval_text(months as int, days as int, nanoseconds as int));
    }
    from_chars(&out)
}

/// Renders a cell of a column of the given type as text.
pub fn render_text(data_type: PhysicalType, cell: &Cell) -> (r: Rendered)
    ensures
        r@ == text_of(data_type, cell@),
{
    match cell {
        Cell::Null => Rendered::Text(String::new()),
        Cell::Boolean(b) => Rendered::Text(
            if *b {
                "true".to_owned()
            } else {
                "false".to_owned()
            },
        ),
        Cell::Int(v) => Rendered::Text(render_int(data_type, *v)),
        Cell::UInt(v) => {
            let mut out: Vec<char> = Vec::new();
            push_decimal_digits(&mut out, *v as u128);
            Rendered::Text(from_chars(&out))
        },
        Cell::Float32(bits) => Rendered::Float32(*bits),
        Cell::Float64(bits) => Rendered::Float64(*bits),
        Cell::Text(s) => Rendered::Text(s.clone()),
        Cell::Bytes(b) => Rendered::Text(render_hex(b)),
        Cell::Interval { months, days, nanoseconds } => Rendered::Text(
            render_interval(*months, *days, *nanoseconds),
        ),
    }
}

/// Renders a cell of a column of the given type as a structured value.
pub fn render_structured(data_type: PhysicalType, cell: &Cell) -> (r: JsonValue)
    ensures
        r@ == structured_of(data_type, cell@),
{
    match cell {
        Cell::Null => JsonValue::Null,
        Cell::Boolean(b) => JsonValue::Bool(*b),
        Cell::Int(v) => match data_type {
            PhysicalType::Int8 | PhysicalType::Int16 | PhysicalType::Int32 | PhysicalType::Int64 => JsonValue::Int(
                *v,
            ),
            _ => JsonValue::String(render_int(data_type, *v)),
        },
        Cell::UInt(v) => JsonValue::UInt(*v),
        Cell::Float32(bits) => JsonValue::Float32(*bits),
        Cell::Float64(bits) => JsonValue::Float64(*bits),
        Cell::Text(s) => JsonValue::String(s.clone()),
        Cell::Bytes(b) => JsonValue::String(render_hex(b)),
        Cell::Interval { months, days, nanoseconds } => JsonValue::String(
            render_interval(*months, *days, *nanoseconds),
        ),
    }
}

/// The text of the cell of row `index` of a column.
pub fn array_value_to_string(array: &Column, index: usize) -> (r: Rendered)
    requires
        index < array.cells@.len(),
    ensures
        r@ == text_of(array.data_type, array@.cells[index as int]),
{
    render_text(array.data_type, &array.cells[index])
}

/// The structured value of the cell of row `index` of a column.
pub fn array_value_to_json(array: &Column, index: usize) -> (r: JsonValue)
    requires
        index < array.cells@.len(),
    ensures
        r@ == structured_of(array.data_type, array@.cells[index as int]),
{
    render_structured(array.data_type, &array.cells[index])
}

/// What the delimited-text sink writes for a batch: the header row, which
/// holds the column names, and one row of rendered cells for each row of the
/// batch.
#[derive(Debug, Clone, PartialEq, Eq)]
pub struct CsvDocument {
    pub header: Vec<String>,
    pub rows: Vec<Vec<Rendered>>,
}

/// The text that the delimited-text sink writes for row `row` and column
/// `column` of a batch.
pub open spec fn csv_cell(data: RecordBatch, row: int, column: int) -> RenderedView {
    text_of(data@.columns[column].data_type, data@.cell(row, column))
}

impl CsvDocument {
    /// The document holds the names of the batch's fields in order, and for
    /// each row of the batch the text of each of its cells in column order.
    pub open spec fn renders(&self, data: RecordBatch) -> bool {
        &&& self.header@.len() == data.fields@.len()
        &&& forall|c: int|
            0 <= c < self.header@.len() ==> (#[trigger] self.header@[c])@ == data.fields@[c].name@
        &&& self.rows@.len() == data.row_count
        &&& forall|r: int|
            0 <= r < self.rows@.len() ==> (#[trigger] self.rows@[r])@.len() == data.columns@.len()
        &&& forall|r: int, c: int|
            0 <= r < self.rows@.len() && 0 <= c < data.columns@.len() ==> (#[trigger] self.rows@[r]@[c])@
                == csv_cell(data, r, c)
    }
}

/// The rendered cells of row `row` of a batch, in column order.
fn text_row(data: &RecordBatch, row: usize) -> (r: Vec<Rendered>)
    requires
        data.wf(),
        row < data.row_count,
    ensures
        r@.len() == data.columns@.len(),
        forall|c: int| 0 <= c < r@.len() ==> (#[trigger] r@[c])@ == csv_cell(*data, row as int, c),
{
    let mut record: Vec<Rendered> = Vec::new();
    let mut col_idx: usize = 0;
    while col_idx < data.columns.len()
        invariant
            data.wf(),
            row < data.row_count,
            col_idx <= data.columns@.len(),
            record@.len() == col_idx,
            forall|c: int|
                0 <= c < col_idx ==> (#[trigger] record@[c])@ == csv_cell(*data, row as int, c),
        decreases data.columns.len() - col_idx,
    {
        let column = &data.columns[col_idx];
        assert(data@.columns[col_idx as int] == column@);
        assert(column@.cells.len() == data.row_count);
        let value = array_value_to_string(column, row);
        record.push(value);
        col_idx += 1;
    }
    record
}

/// What the delimited-text sink writes for a batch.
pub fn save_as_csv(data: &RecordBatch) -> (r: CsvDocument)
    requires
        data.wf(),
    ensures
        r.renders(*data),
{
    let mut header: Vec<String> = Vec::new();
    let mut c: usize = 0;
    while c < data.fields.len()
        invariant
            c <= data.fields@.len(),
            header@.len() == c,
            forall|k: int| 0 <= k < c ==> (#[trigger] header@[k])@ == data.fields@[k].name@,
        decreases data.fields.len() - c,
    {
        header.push(data.fields[c].name.clone());
        c += 1;
    }
    let mut rows: Vec<Vec<Rendered>> = Vec::new();
    let mut row_idx: usize = 0;
    while row_idx < data.row_count
        invariant
            data.wf(),
            row_idx <= data.row_count,
            rows@.len() == row_idx,
            forall|r: int| 0 <= r < row_idx ==> (#[trigger] rows@[r])@.len() == data.columns@.len(),
            forall|r: int, k: int|
                0 <= r < row_idx && 0 <= k < data.columns@.len() ==> (#[trigger] rows@[r]@[k])@
                    == csv_cell(*data, r, k),
        decreases data.row_count - row_idx,
    {
        let record = text_row(data, row_idx);
        rows.push(record);
        row_idx += 1;
    }
    CsvDocument { header, rows }
}

/// One member of a row object: a column's name and the structured value of
/// the row's cell in that column.
#[derive(Debug, Clone, PartialEq, Eq)]
pub struct JsonMember {
    pub name: String,
    pub value: JsonValue,
}

/// The structured value that the structured-record sink writes for row `row`
/// and column `column` of a batch.
pub open spec fn json_cell(data: RecordBatch, row: int, column: int) -> JsonView {
    structured_of(data@.columns[column].data_type, data@.cell(row, column))
}

/// The records hold, for each row of the batch, one member for each column
/// in schema order, with the column's name and the cell's structured value.
pub open spec fn records_render(records: Seq<Vec<JsonMember>>, data: RecordBatch) -> bool {
    &&& records.len() == data.row_count
    &&& forall|r: int|
        0 <= r < records.len() ==> (#[trigger] records[r])@.len() == data.columns@.len()
    &&& forall|r: int, c: int|
        0 <= r < records.len() && 0 <= c < data.columns@.len() ==> {
            &&& (#[trigger] records[r]@[c]).name@ == data.fields@[c].name@
            &&& records[r]@[c].value@ == json_cell(data, r, c)
        }
}

/// The members of the row object of row `row` of a batch.
fn json_row(data: &RecordBatch, row: usize) -> (r: Vec<JsonMember>)
    requires
        data.wf(),
        row < data.row_count,
    ensures
        r@.len() == data.columns@.len(),
        forall|c: int|
            0 <= c < r@.len() ==> {
                &&& (#[trigger] r@[c]).name@ == data.fields@[c].name@
                &&& r@[c].value@ == json_cell(*data, row as int, c)
            },
{
    let mut row_obj: Vec<JsonMember> = Vec::new();
    let mut col_idx: usize = 0;
    assert(data@.columns.len() == data@.fields.len());
    while col_idx < data.columns.len()
        invariant
            data.wf(),
            row < data.row_count,
            data.columns@.len() == data.fields@.len(),
            col_idx <= data.columns@.len(),
            row_obj@.len() == col_idx,
            forall|c: int|
                0 <= c < col_idx ==> {
                    &&& (#[trigger] row_obj@[c]).name@ == data.fields@[c].name@
                    &&& row_obj@[c].value@ == json_cell(*data, row as int, c)
                },
        decreases data.columns.len() - col_idx,
    {
        let column = &data.columns[col_idx];
        assert(data@.columns[col_idx as int] == column@);
        assert(column@.cells.len() == data.row_count);
        let value = array_value_to_json(column, row);
        row_obj.push(JsonMember { name: data.fields[col_idx].name.clone(), value });
        col_idx += 1;
    }
    row_obj
}

/// What the structured-record sink writes for a batch: one row object for
/// each row, its members in schema order.
pub fn save_as_json(data: &RecordBatch) -> (r: Vec<Vec<JsonMember>>)
    requires
        data.wf(),
    ensures
        records_render(r@, *data),
{
    let mut json_records: Vec<Vec<JsonMember>> = Vec::new();
    let mut row_idx: usize = 0;
    while row_idx < data.row_count
        invariant
            data.wf(),
            row_idx <= data.row_count,
            json_records@.len() == row_idx,
            forall|r: int|
                0 <= r < row_idx ==> (#[trigger] json_records@[r])@.len() == data.columns@.len(),
            forall|r: int, c: int|
                0 <= r < row_idx && 0 <= c < data.columns@.len() ==> {
                    &&& (#[trigger] json_records@[r]@[c]).name@ == data.fields@[c].name@
                    &&& json_records@[r]@[c].value@ == json_cell(*data, r, c)
                },
        decreases data.row_count - row_idx,
    {
        let row_obj = json_row(data, row_idx);
        json_records.push(row_obj);
        row_idx += 1;
    }
    json_records
}

/// What a sink is handed for a batch.
#[derive(Debug, Clone, PartialEq, Eq)]
pub enum SinkInput {
    /// The header and the rows of a delimited-text file.
    Csv(CsvDocument),
    /// The row objects of a structured-record file.
    Json(Vec<Vec<JsonMember>>),
    /// The columnar sink encodes the batch itself.
    Parquet,
}

/// What the sink of the given format is handed for a batch.
pub fn save_data(data: &RecordBatch, format: OutputFormat) -> (r: SinkInput)
    requires
        data.wf(),
    ensures
        match r {
            SinkInput::Csv(document) => format == OutputFormat::Csv && document.renders(*data),
            SinkInput::Json(records) => format == OutputFormat::Json && records_render(
                records@,
                *data,
            ),
            SinkInput::Parquet => format == OutputFormat::Parquet,
        },
{
    match format {
        OutputFormat::Csv => SinkInput::Csv(save_as_csv(data)),
        OutputFormat::Json => SinkInput::Json(save_as_json(data)),
        OutputFormat::Parquet => SinkInput::Parquet,
    }
}

/// Whether the cells of a column of this type are written into a structured
/// value without loss: text, truth values, whole numbers of every width, and
/// numbers of double precision.
pub open spec fn is_lossless_type(data_type: PhysicalType) -> bool {
    match data_type {
        PhysicalType::Utf8 | PhysicalType::Boolean | PhysicalType::Int8 | PhysicalType::Int16
        | PhysicalType::Int32 | PhysicalType::Int64 | PhysicalType::UInt8 | PhysicalType::UInt16
        | PhysicalType::UInt32 | PhysicalType::UInt64 | PhysicalType::Float64 => true,
        _ => false,
    }
}

/// Round trip, as far as this library goes: in a column of a type that is
/// written without loss, the structured value of a cell tells the cell. Two
/// cells of such a column with the same structured value are the same cell.
pub proof fn law_structured_value_tells_the_cell(
    data_type: PhysicalType,
    first: CellView,
    second: CellView,
)
    requires
        is_lossless_type(data_type),
        crate::converters::batch::cell_fits(data_type, first),
        crate::converters::batch::cell_fits(data_type, second),
        structured_of(data_type, first) == structured_of(data_type, second),
    ensures
        first == second,
{
}

/// Round trip, as far as this library goes: the records of a batch are as
/// many as its rows, and each holds a member for each column under the
/// column's name.
pub proof fn law_records_keep_rows_and_names(records: Seq<Vec<JsonMember>>, data: RecordBatch)
    requires
        data.wf(),
        records_render(records, data),
    ensures
        records.len() == data.row_count,
        forall|r: int, c: int|
            0 <= r < records.len() && 0 <= c < data.fields@.len() ==> (#[trigger] records[r]@[c]).name@
                == data.fields@[c].name@,
{
    assert(data@.columns.len() == data@.fields.len());
}

/// Whether two documents hold the same header and the same rendered cells.
pub open spec fn same_document(first: CsvDocument, second: CsvDocument) -> bool {
    &&& first.header.deep_view() == second.header.deep_view()
    &&& first.rows@.len() == second.rows@.len()
    &&& forall|r: int|
        0 <= r < first.rows@.len() ==> (#[trigger] first.rows@[r])@.len() == second.rows@[r]@.len()
    &&& forall|r: int, c: int|
        0 <= r < first.rows@.len() && 0 <= c < first.rows@[r]@.len() ==> (#[trigger] first.rows@[r]@[c])@
            == second.rows@[r]@[c]@
}

/// Repeatable output, as far as this library goes: what the delimited-text
/// sink writes is a function of the batch. Two documents that render one
/// batch are the same.
pub proof fn law_document_is_a_function_of_the_batch(
    first: CsvDocument,
    second: CsvDocument,
    data: RecordBatch,
)
    requires
        data.wf(),
        first.renders(data),
        second.renders(data),
    ensures
        same_document(first, second),
{
    assert(first.header.deep_view() =~= second.header.deep_view());
}

/// Repeatable output, as far as this library goes: what the
/// structured-record sink writes is a function of the batch. Two lists of
/// records that render one batch hold the same names and values.
pub proof fn law_records_are_a_function_of_the_batch(
    first: Seq<Vec<JsonMember>>,
    second: Seq<Vec<JsonMember>>,
    data: RecordBatch,
)
    requires
        data.wf(),
        records_render(first, data),
        records_render(second, data),
    ensures
        first.len() == second.len(),
        forall|r: int| 0 <= r < first.len() ==> (#[trigger] first[r])@.len() == second[r]@.len(),
        forall|r: int, c: int|
            0 <= r < first.len() && 0 <= c < first[r]@.len() ==> {
                &&& (#[trigger] first[r]@[c]).name@ == second[r]@[c].name@
                &&& first[r]@[c].value@ == second[r]@[c].value@
            },
{
}

} // verus!
