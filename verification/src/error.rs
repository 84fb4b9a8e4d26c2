//! The failures of a conversion run.

use vstd::prelude::*;
use crate::text::{decimal_digits, from_chars, push_chars, push_decimal_digits};

verus! {

/// Why a run was abandoned. The variants with a text carry the message of a
/// failure that arose outside the library; the others name what the library
/// itself found wrong.
#[derive(Debug, Clone, PartialEq, Eq)]
pub enum TransmutaError {
    /// A source or a sink could not be opened, read or written.
    IoError(String),
    /// A spreadsheet could not be decoded.
    ExcelError(String),
    /// A delimited-text source could not be decoded.
    CsvError(String),
    /// A structured-record source or sink could not be decoded or encoded.
    SerdeJsonError(String),
    /// A batch could not be put together.
    ArrowError(String),
    /// A columnar file could not be encoded.
    ParquetError(String),
    /// The output format is not one of the supported sinks.
    UnsupportedFormat(String),
    /// An argument is not usable.
    InvalidArgument(String),
    /// The path has no extension.
    MissingExtension,
    /// The extension, in lower case, is not one of a spreadsheet.
    UnsupportedExcelFormat(String),
    /// The schema row with this index, counted from zero, has fewer than two
    /// fields.
    MalformedSchemaRow(usize),
    /// The name, in lower case, stands for no type of the taxonomy; where
    /// it was read from a schema, `row` is the index of its row, counted
    /// from zero.
    UnsupportedType { row: Option<usize>, name: String },
    /// The schema has no column.
    EmptySchema,
    /// The source has no row.
    EmptySource,
    /// The workbook has no worksheet.
    NoWorksheet,
    /// The worksheet has no row left after those to skip.
    TooFewRows { rows: usize, skip_rows: usize },
    /// The data row with this index, counted from zero, has more fields than
    /// there are columns.
    RowTooLong { row: usize, fields: usize, columns: usize },
}

impl TransmutaError {
    /// The message that [`TransmutaError::message`] returns.
    pub open spec fn message_text(self) -> Seq<char> {
        match self {
            TransmutaError::IoError(m) => "I/O error: "@ + m@,
            TransmutaError::ExcelError(m) => "Excel error: "@ + m@,
            TransmutaError::CsvError(m) => "CSV error: "@ + m@,
            TransmutaError::SerdeJsonError(m) => "JSON error: "@ + m@,
            TransmutaError::ArrowError(m) => "batch error: "@ + m@,
            TransmutaError::ParquetError(m) => "Parquet error: "@ + m@,
            TransmutaError::UnsupportedFormat(m) => "unsupported output format: "@ + m@,
            TransmutaError::InvalidArgument(m) => "invalid argument: "@ + m@,
            TransmutaError::MissingExtension => "the file has no extension"@,
            TransmutaError::UnsupportedExcelFormat(ext) => "unsupported Excel file format: "@
                + ext@,
            TransmutaError::MalformedSchemaRow(row) => "schema row "@ + decimal_digits(
                (row + 1) as nat,
            ) + " is malformed: a column name and a type are needed"@,
            TransmutaError::UnsupportedType { row: Some(row), name } => "schema row "@
                + decimal_digits((row + 1) as nat) + " has the unsupported type "@ + name@,
            TransmutaError::UnsupportedType { row: None, name } => "unsupported type "@ + name@,
            TransmutaError::EmptySchema => "the schema has no column"@,
            TransmutaError::EmptySource => "the source is empty"@,
            TransmutaError::NoWorksheet => "the workbook has no worksheet"@,
            TransmutaError::TooFewRows { rows, skip_rows } => "the worksheet has "@
                + decimal_digits(rows as nat) + " rows, not more than the "@ + decimal_digits(
                skip_rows as nat,
            ) + " to skip"@,
            TransmutaError::RowTooLong { row, fields, columns } => "data row "@ + decimal_digits(
                (row + 1) as nat,
            ) + " has "@ + decimal_digits(fields as nat) + " fields for "@ + decimal_digits(
                columns as nat,
            ) + " columns"@,
        }
    }

    /// A message for people, which names the row or the type at fault.
    pub fn message(&self) -> (r: String)
        ensures
            r@ == self.message_text(),
    {
        let mut out: Vec<char> = Vec::new();
        match self {
            TransmutaError::IoError(m) => {
                push_chars(&mut out, "I/O error: ");
                push_chars(&mut out, m.as_str());
            },
            TransmutaError::ExcelError(m) => {
                push_chars(&mut out, "Excel error: ");
                push_chars(&mut out, m.as_str());
            },
            TransmutaError::CsvError(m) => {
                push_chars(&mut out, "CSV error: ");
                push_chars(&mut out, m.as_str());
            },
            TransmutaError::SerdeJsonError(m) => {
                push_chars(&mut out, "JSON error: ");
                push_chars(&mut out, m.as_str());
            },
            TransmutaError::ArrowError(m) => {
                push_chars(&mut out, "batch error: ");
                push_chars(&mut out, m.as_str());
            },
            TransmutaError::ParquetError(m) => {
                push_chars(&mut out, "Parquet error: ");
                push_chars(&mut out, m.as_str());
            },
            TransmutaError::UnsupportedFormat(m) => {
                push_chars(&mut out, "unsupported output format: ");
                push_chars(&mut out, m.as_str());
            },
            TransmutaError::InvalidArgument(m) => {
                push_chars(&mut out, "invalid argument: ");
                push_chars(&mut out, m.as_str());
            },
            TransmutaError::MissingExtension => {
                push_chars(&mut out, "the file has no extension");
            },
            TransmutaError::UnsupportedExcelFormat(ext) => {
                push_chars(&mut out, "unsupported Excel file format: ");
                push_chars(&mut out, ext.as_str());
            },
            TransmutaError::MalformedSchemaRow(row) => {
                push_chars(&mut out, "schema row ");
                push_row_number(&mut out, *row);
                push_chars(&mut out, " is malformed: a column name and a type are needed");
            },
            TransmutaError::UnsupportedType { row: Some(row), name } => {
                push_chars(&mut out, "schema row ");
                push_row_number(&mut out, *row);
                push_chars(&mut out, " has the unsupported type ");
                push_chars(&mut out, name.as_str());
            },
            TransmutaError::UnsupportedType { row: None, name } => {
                push_chars(&mut out, "unsupported type ");
                push_chars(&mut out, name.as_str());
            },
            TransmutaError::EmptySchema => {
                push_chars(&mut out, "the schema has no column");
            },
            TransmutaError::EmptySource => {
                push_chars(&mut out, "the source is empty");
            },
            TransmutaError::NoWorksheet => {
                push_chars(&mut out, "the workbook has no worksheet");
            },
            TransmutaError::TooFewRows { rows, skip_rows } => {
                push_chars(&mut out, "the worksheet has ");
                push_decimal_digits(&mut out, *rows as u128);
                push_chars(&mut out, " rows, not more than the ");
                push_decimal_digits(&mut out, *skip_rows as u128);
                push_chars(&mut out, " to skip");
            },
            TransmutaError::RowTooLong { row, fields, columns } => {
                push_chars(&mut out, "data row ");
                push_row_number(&mut out, *row);
                push_chars(&mut out, " has ");
                push_decimal_digits(&mut out, *fields as u128);
                push_chars(&mut out, " fields for ");
                push_decimal_digits(&mut out, *columns as u128);
                push_chars(&mut out, " columns");
            },
        }
        proof {
            assert(out@ =~= self.message_text());
        }
        from_chars(&out)
    }
}

/// Appends the number by which people count the row with index `row`: the
/// index plus one.
fn push_row_number(out: &mut Vec<char>, row: usize)
    ensures
        final(out)@ == old(out)@ + decimal_digits((row + 1) as nat),
{
    push_decimal_digits(out, row as u128 + 1);
}

} // verus!
