//! The columnar batch: fields with a physical type, and for each field a
//! column of cells that fit that type.

use vstd::prelude::*;
use crate::error::TransmutaError;

verus! {

/// The unit in which a temporal column counts.
#[derive(Debug, Clone, Copy, PartialEq, Eq, Structural)]
pub enum TimeUnit {
    Second,
    Millisecond,
    Microsecond,
    Nanosecond,
}

/// How a column is stored.
#[derive(Debug, Clone, Copy, PartialEq, Eq, Structural)]
pub enum PhysicalType {
    /// No value in any row.
    Null,
    Boolean,
    Int8,
    Int16,
    Int32,
    Int64,
    UInt8,
    UInt16,
    UInt32,
    UInt64,
    /// IEEE 754 single precision, held as its 32 bits.
    Float32,
    /// IEEE 754 double precision, held as its 64 bits.
    Float64,
    /// Text.
    Utf8,
    /// Bytes of any length.
    Binary,
    /// Bytes of the given length.
    FixedSizeBinary(usize),
    /// Days since the epoch, in 32 bits.
    Date32,
    /// Milliseconds since the epoch, in 64 bits.
    Date64,
    /// A count in the unit since the epoch, in 64 bits.
    Timestamp(TimeUnit),
    /// A time of day in the unit, in 32 bits.
    Time32(TimeUnit),
    /// A time of day in the unit, in 64 bits.
    Time64(TimeUnit),
    /// A span of time in the unit, in 64 bits.
    Duration(TimeUnit),
    /// Months, days and nanoseconds.
    Interval,
}

/// One value of a column, or its absence.
#[derive(Debug, Clone, PartialEq, Eq)]
pub enum Cell {
    /// The value is absent.
    Null,
    Boolean(bool),
    /// A value of a signed integer type or of a temporal type.
    Int(i64),
    /// A value of an unsigned integer type.
    UInt(u64),
    /// The bits of a single-precision number.
    Float32(u32),
    /// The bits of a double-precision number.
    Float64(u64),
    Text(String),
    Bytes(Vec<u8>),
    Interval { months: i32, days: i32, nanoseconds: i64 },
}

/// A cell as a mathematical value.
pub enum CellView {
    Null,
    Boolean(bool),
    Int(int),
    UInt(nat),
    Float32(u32),
    Float64(u64),
    Text(Seq<char>),
    Bytes(Seq<u8>),
    Interval { months: int, days: int, nanoseconds: int },
}

impl View for Cell {
    type V = CellView;

    open spec fn view(&self) -> CellView {
        match *self {
            Cell::Null => CellView::Null,
            Cell::Boolean(b) => CellView::Boolean(b),
            Cell::Int(v) => CellView::Int(v as int),
            Cell::UInt(v) => CellView::UInt(v as nat),
            Cell::Float32(bits) => CellView::Float32(bits),
            Cell::Float64(bits) => CellView::Float64(bits),
            Cell::Text(s) => CellView::Text(s@),
            Cell::Bytes(b) => CellView::Bytes(b@),
            Cell::Interval { months, days, nanoseconds } => CellView::Interval {
                months: months as int,
                days: days as int,
                nanoseconds: nanoseconds as int,
            },
        }
    }
}

/// Whether a cell may stand in a column of the given type: it is absent, or
/// it is of the kind of the type and within the type's range.
pub open spec fn cell_fits(data_type: PhysicalType, cell: CellView) -> bool {
    cell is Null || match data_type {
        PhysicalType::Null => false,
        PhysicalType::Boolean => cell is Boolean,
        PhysicalType::Int8 => cell matches CellView::Int(v) && -0x80 <= v <= 0x7f,
        PhysicalType::Int16 => cell matches CellView::Int(v) && -0x8000 <= v <= 0x7fff,
        PhysicalType::Int32 | PhysicalType::Date32 | PhysicalType::Time32(_) => cell matches CellView::Int(v)
            && -0x8000_0000 <= v <= 0x7fff_ffff,
        PhysicalType::Int64 | PhysicalType::Date64 | PhysicalType::Timestamp(_) | PhysicalType::Time64(
            _,
        ) | PhysicalType::Duration(_) => cell matches CellView::Int(v) && -0x8000_0000_0000_0000
            <= v <= 0x7fff_ffff_ffff_ffff,
        PhysicalType::UInt8 => cell matches CellView::UInt(v) && v <= 0xff,
        PhysicalType::UInt16 => cell matches CellView::UInt(v) && v <= 0xffff,
        PhysicalType::UInt32 => cell matches CellView::UInt(v) && v <= 0xffff_ffff,
        PhysicalType::UInt64 => cell matches CellView::UInt(v) && v <= 0xffff_ffff_ffff_ffff,
        PhysicalType::Float32 => cell is Float32,
        PhysicalType::Float64 => cell is Float64,
        PhysicalType::Utf8 => cell is Text,
        PhysicalType::Binary => cell is Bytes,
        PhysicalType::FixedSizeBinary(width) => cell matches CellView::Bytes(b) && b.len()
            == width,
        PhysicalType::Interval => cell is Interval,
    }
}

/// Whether a cell may stand in a column of the given type.
pub fn check_cell(data_type: PhysicalType, cell: &Cell) -> (r: bool)
    ensures
        r == cell_fits(data_type, cell@),
{
    match cell {
        Cell::Null => true,
        Cell::Boolean(_) => matches!(data_type, PhysicalType::Boolean),
        Cell::Int(v) => match data_type {
            PhysicalType::Int8 => -0x80 <= *v && *v <= 0x7f,
            PhysicalType::Int16 => -0x8000 <= *v && *v <= 0x7fff,
            PhysicalType::Int32 | PhysicalType::Date32 | PhysicalType::Time32(_) => -0x8000_0000
                <= *v && *v <= 0x7fff_ffff,
            PhysicalType::Int64 | PhysicalType::Date64 | PhysicalType::Timestamp(_)
            | PhysicalType::Time64(_) | PhysicalType::Duration(_) => true,
            _ => false,
        },
        Cell::UInt(v) => match data_type {
            PhysicalType::UInt8 => *v <= 0xff,
            PhysicalType::UInt16 => *v <= 0xffff,
            PhysicalType::UInt32 => *v <= 0xffff_ffff,
            PhysicalType::UInt64 => true,
            _ => false,
        },
        Cell::Float32(_) => matches!(data_type, PhysicalType::Float32),
        Cell::Float64(_) => matches!(data_type, PhysicalType::Float64),
        Cell::Text(_) => matches!(data_type, PhysicalType::Utf8),
        Cell::Bytes(b) => match data_type {
            PhysicalType::Binary => true,
            PhysicalType::FixedSizeBinary(width) => b.len() == width,
            _ => false,
        },
        Cell::Interval { .. } => matches!(data_type, PhysicalType::Interval),
    }
}

/// The name and the physical type of a column. Every field may hold absent
/// values.
#[derive(Debug, Clone, PartialEq, Eq)]
pub struct Field {
    pub name: String,
    pub data_type: PhysicalType,
}

/// A field as a mathematical value.
pub struct FieldView {
    pub name: Seq<char>,
    pub data_type: PhysicalType,
}

impl View for Field {
    type V = FieldView;

    open spec fn view(&self) -> FieldView {
        FieldView { name: self.name@, data_type: self.data_type }
    }
}

/// The cells of one field, one for each row.
#[derive(Debug, Clone, PartialEq, Eq)]
pub struct Column {
    pub data_type: PhysicalType,
    pub cells: Vec<Cell>,
}

/// A column as a mathematical value.
pub struct ColumnView {
    pub data_type: PhysicalType,
    pub cells: Seq<CellView>,
}

impl ColumnView {
    /// Every cell fits the column's type.
    pub open spec fn wf(self) -> bool {
        forall|i: int| 0 <= i < self.cells.len() ==> cell_fits(self.data_type, #[trigger] self.cells[i])
    }
}

impl View for Column {
    type V = ColumnView;

    open spec fn view(&self) -> ColumnView {
        ColumnView { data_type: self.data_type, cells: Seq::new(self.cells@.len(), |i: int| self.cells@[i]@) }
    }
}

impl Column {
    /// Every cell fits the column's type.
    pub open spec fn wf(&self) -> bool {
        self@.wf()
    }

    /// Whether every cell fits the column's type.
    pub fn check(&self) -> (r: bool)
        ensures
            r == self.wf(),
    {
        let mut i: usize = 0;
        while i < self.cells.len()
            invariant
                i <= self.cells.len(),
                forall|j: int| 0 <= j < i ==> cell_fits(self.data_type, #[trigger] self@.cells[j]),
            decreases self.cells.len() - i,
        {
            if !check_cell(self.data_type, &self.cells[i]) {
                assert(!cell_fits(self.data_type, self@.cells[i as int]));
                return false;
            }
            i += 1;
        }
        true
    }
}

/// A table fragment: an ordered schema, and for each field a column with one
/// cell for each row.
#[derive(Debug, Clone, PartialEq, Eq)]
pub struct RecordBatch {
    pub fields: Vec<Field>,
    pub columns: Vec<Column>,
    pub row_count: usize,
}

/// A batch as a mathematical value.
pub struct BatchView {
    pub fields: Seq<FieldView>,
    pub columns: Seq<ColumnView>,
    pub row_count: nat,
}

impl BatchView {
    /// There is a column for each field, of the field's type, with a fitting
    /// cell for each row.
    pub open spec fn wf(self) -> bool {
        &&& self.columns.len() == self.fields.len()
        &&& forall|c: int|
            0 <= c < self.columns.len() ==> {
                &&& (#[trigger] self.columns[c]).data_type == self.fields[c].data_type
                &&& self.columns[c].cells.len() == self.row_count
                &&& self.columns[c].wf()
            }
    }

    /// The cell of row `row` in column `column`.
    pub open spec fn cell(self, row: int, column: int) -> CellView {
        self.columns[column].cells[row]
    }
}

impl View for RecordBatch {
    type V = BatchView;

    open spec fn view(&self) -> BatchView {
        BatchView {
            fields: Seq::new(self.fields@.len(), |i: int| self.fields@[i]@),
            columns: Seq::new(self.columns@.len(), |i: int| self.columns@[i]@),
            row_count: self.row_count as nat,
        }
    }
}

impl RecordBatch {
    /// There is a column for each field, of the field's type, with a fitting
    /// cell for each row.
    pub open spec fn wf(&self) -> bool {
        self@.wf()
    }

    /// The number of rows.
    pub fn num_rows(&self) -> (r: usize)
        ensures
            r == self.row_count,
    {
        self.row_count
    }

    /// The number of columns.
    pub fn num_columns(&self) -> (r: usize)
        ensures
            r == self.columns@.len(),
    {
        self.columns.len()
    }

    /// The number of rows that columns give a batch: that of the first
    /// column, or none without a column.
    pub open spec fn rows_of(columns: Seq<ColumnView>) -> nat {
        if columns.len() == 0 {
            0
        } else {
            columns[0].cells.len()
        }
    }

    /// Whether fields and columns make a batch.
    pub open spec fn fit_together(fields: Seq<FieldView>, columns: Seq<ColumnView>) -> bool {
        (BatchView { fields, columns, row_count: Self::rows_of(columns) }).wf()
    }

    /// Puts a batch together, after checking that there is a column for each
    /// field, of the field's type, that the columns are equally long, and
    /// that every cell fits its column.
    pub fn try_new(fields: Vec<Field>, columns: Vec<Column>) -> (r: Result<
        RecordBatch,
        TransmutaError,
    >)
        ensures
            match r {
                Ok(batch) => {
                    &&& batch.wf()
                    &&& batch.fields == fields
                    &&& batch.columns == columns
                    &&& batch.row_count == Self::rows_of(batch@.columns)
                },
                Err(e) => e is ArrowError && !Self::fit_together(
                    Seq::new(fields@.len(), |i: int| fields@[i]@),
                    Seq::new(columns@.len(), |i: int| columns@[i]@),
                ),
            },
    {
        let ghost field_views = Seq::new(fields@.len(), |i: int| fields@[i]@);
        let ghost column_views = Seq::new(columns@.len(), |i: int| columns@[i]@);
        if fields.len() != columns.len() {
            return Err(
                TransmutaError::ArrowError(
                    "the number of columns must match the number of fields".to_owned(),
                ),
            );
        }
        let row_count: usize = if columns.len() == 0 {
            0
        } else {
            columns[0].cells.len()
        };
        assert(row_count == Self::rows_of(column_views)) by {
            if columns.len() > 0 {
                assert(column_views[0].cells.len() == columns@[0].cells@.len());
            }
        }
        let mut c: usize = 0;
        while c < columns.len()
            invariant
                c <= columns.len(),
                fields.len() == columns.len(),
                row_count == Self::rows_of(column_views),
                field_views == Seq::new(fields@.len(), |i: int| fields@[i]@),
                column_views == Seq::new(columns@.len(), |i: int| columns@[i]@),
                forall|k: int|
                    0 <= k < c ==> {
                        &&& (#[trigger] column_views[k]).data_type == field_views[k].data_type
                        &&& column_views[k].cells.len() == row_count
                        &&& column_views[k].wf()
                    },
            decreases columns.len() - c,
        {
            let ghost k = c as int;
            if columns[c].data_type != fields[c].data_type {
                assert(column_views[k].data_type != field_views[k].data_type);
                return Err(
                    TransmutaError::ArrowError(
                        "a column must have the type of its field".to_owned(),
                    ),
                );
            }
            if columns[c].cells.len() != row_count {
                assert(column_views[k].cells.len() != row_count);
                return Err(
                    TransmutaError::ArrowError("all columns must have the same length".to_owned()),
                );
            }
            if !columns[c].check() {
                assert(!column_views[k].wf());
                return Err(
                    TransmutaError::ArrowError(
                        "a column holds a value that is not of its type".to_owned(),
                    ),
                );
            }
            c += 1;
        }
        Ok(RecordBatch { fields, columns, row_count })
    }
}

} // verus!
