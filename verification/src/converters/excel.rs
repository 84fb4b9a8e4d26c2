//! Ingestion of a spreadsheet: the cells of its first worksheet, once
//! decoded, become batches of text columns.

use vstd::prelude::*;
use crate::converters::ingest::{convert_rows, default_header, parts_hold, PartFile};
use crate::error::TransmutaError;
use crate::paths::extension_of;
use crate::text::{
    decimal_text,
    from_chars,
    i64_to_string,
    lowercase,
    push_chars,
    push_decimal_digits,
    str_equal,
};
use crate::utils::get_file_extension;

verus! {

/// A cell of a worksheet. A number with a fraction is held as the text in
/// which it is written, which whoever decodes the worksheet provides.
#[derive(Debug, Clone, PartialEq, Eq)]
pub enum ExcelDataType {
    /// A whole number.
    Int(i64),
    /// A number, as its shortest decimal text.
    Float(String),
    String(String),
    Bool(bool),
    /// A date or a time as a number of days, as its decimal text with six
    /// fractional digits.
    DateTime(String),
    /// A duration as a number of days, as its decimal text with six
    /// fractional digits.
    Duration(String),
    /// A date or a time in ISO 8601.
    DateTimeIso(String),
    /// A duration in ISO 8601.
    DurationIso(String),
    /// A cell that holds an error.
    Error,
    /// A cell without content.
    Empty,
}

/// The text of a worksheet cell.
pub open spec fn cell_text(cell: ExcelDataType) -> Seq<char> {
    match cell {
        ExcelDataType::Empty => Seq::empty(),
        ExcelDataType::String(s) => s@,
        ExcelDataType::Float(f) => f@,
        ExcelDataType::Int(i) => decimal_text(i as int),
        ExcelDataType::Bool(b) => if b {
            "true"@
        } else {
            "false"@
        },
        ExcelDataType::DateTime(dt) => dt@,
        ExcelDataType::Error => "[ERROR]"@,
        ExcelDataType::Duration(d) => d@,
        ExcelDataType::DateTimeIso(s) => s@,
        ExcelDataType::DurationIso(s) => s@,
    }
}

/// The text of a worksheet cell.
pub fn cell_to_string(cell: &ExcelDataType) -> (r: String)
    ensures
        r@ == cell_text(*cell),
{
    match cell {
        ExcelDataType::Empty => String::new(),
        ExcelDataType::String(s) => s.clone(),
        ExcelDataType::Float(f) => f.clone(),
        ExcelDataType::Int(i) => i64_to_string(*i),
        ExcelDataType::Bool(b) => if *b {
            "true".to_owned()
        } else {
            "false".to_owned()
        },
        ExcelDataType::DateTime(dt) => dt.clone(),
        ExcelDataType::Error => "[ERROR]".to_owned(),
        ExcelDataType::Duration(d) => d.clone(),
        ExcelDataType::DateTimeIso(s) => s.clone(),
        ExcelDataType::DurationIso(s) => s.clone(),
    }
}

/// Whether an extension in lower case is one of a spreadsheet.
pub open spec fn is_excel_extension(extension: Seq<char>) -> bool {
    extension == "xlsx"@ || extension == "xls"@ || extension == "xlsm"@
}

/// Checks that the input path has the extension of a spreadsheet, whatever
/// its case.
pub fn check_excel_input(input_path: &str) -> (r: Result<(), TransmutaError>)
    ensures
        match r {
            Ok(_) => extension_of(input_path@) matches Some(e) && is_excel_extension(lowercase(e)),
            Err(TransmutaError::MissingExtension) => extension_of(input_path@).is_none(),
            Err(TransmutaError::UnsupportedExcelFormat(ext)) => extension_of(
                input_path@,
            ) matches Some(e) && ext@ == lowercase(e) && !is_excel_extension(ext@),
            Err(_) => false,
        },
{
    let ext = match get_file_extension(input_path) {
        Ok(ext) => ext,
        Err(e) => {
            return Err(e);
        },
    };
    if str_equal(ext.as_str(), "xlsx") || str_equal(ext.as_str(), "xls") || str_equal(
        ext.as_str(),
        "xlsm",
    ) {
        Ok(())
    } else {
        Err(TransmutaError::UnsupportedExcelFormat(ext))
    }
}

/// The worksheet that is converted: the first of the workbook.
pub fn select_worksheet(sheet_names: &Vec<String>) -> (r: Result<String, TransmutaError>)
    ensures
        match r {
            Ok(name) => sheet_names@.len() > 0 && name@ == sheet_names@[0]@,
            Err(e) => sheet_names@.len() == 0 && e is NoWorksheet,
        },
{
    if sheet_names.len() == 0 {
        return Err(TransmutaError::NoWorksheet);
    }
    Ok(sheet_names[0].clone())
}

/// The column name that a cell of the header row gives the column with
/// index `index`: the text of the cell, or `Column` and the column's number
/// where the cell is empty.
pub open spec fn header_name(cell: ExcelDataType, index: int) -> Seq<char> {
    if cell is Empty {
        default_header(index)
    } else {
        cell_text(cell)
    }
}

/// The column names that a header row gives.
pub open spec fn header_names(row: Seq<ExcelDataType>) -> Seq<Seq<char>> {
    Seq::new(row.len(), |i: int| header_name(row[i], i))
}

/// The column names that a header row gives.
pub fn excel_headers(row: &Vec<ExcelDataType>) -> (r: Vec<String>)
    ensures
        r.deep_view() == header_names(row@),
{
    let mut headers: Vec<String> = Vec::new();
    let mut i: usize = 0;
    while i < row.len()
        invariant
            i <= row@.len(),
            headers@.len() == i,
            forall|k: int| 0 <= k < i ==> (#[trigger] headers@[k])@ == header_name(row@[k], k),
        decreases row.len() - i,
    {
        let name = match &row[i] {
            ExcelDataType::Empty => {
                let mut name: Vec<char> = Vec::new();
                push_chars(&mut name, "Column");
                push_decimal_digits(&mut name, i as u128 + 1);
                proof {
                    assert(name@ =~= default_header(i as int));
                }
                from_chars(&name)
            },
            cell => cell_to_string(cell),
        };
        headers.push(name);
        i += 1;
    }
    proof {
        assert(headers.deep_view() =~= header_names(row@));
    }
    headers
}

/// The texts of the cells of a row.
pub open spec fn row_texts(row: Seq<ExcelDataType>) -> Seq<Seq<char>> {
    Seq::new(row.len(), |i: int| cell_text(row[i]))
}

/// The texts of the rows of a worksheet from the row with index `from` on.
pub open spec fn sheet_texts(rows: Seq<Vec<ExcelDataType>>, from: int) -> Seq<Seq<Seq<char>>> {
    Seq::new((rows.len() - from) as nat, |i: int| row_texts(rows[from + i]@))
}

/// The texts of the cells of a row.
fn row_to_strings(row: &Vec<ExcelDataType>) -> (r: Vec<String>)
    ensures
        r.deep_view() == row_texts(row@),
{
    let mut texts: Vec<String> = Vec::new();
    let mut i: usize = 0;
    while i < row.len()
        invariant
            i <= row@.len(),
            texts@.len() == i,
            forall|k: int| 0 <= k < i ==> (#[trigger] texts@[k])@ == cell_text(row@[k]),
        decreases row.len() - i,
    {
        texts.push(cell_to_string(&row[i]));
        i += 1;
    }
    proof {
        assert(texts.deep_view() =~= row_texts(row@));
    }
    texts
}

/// The number of rows of a worksheet that are data: those that are not
/// skipped. A worksheet with no row left after those to skip fails.
pub fn data_row_count(row_count: usize, skip_rows: usize) -> (r: Result<usize, TransmutaError>)
    ensures
        match r {
            Ok(count) => row_count > skip_rows && count == row_count - skip_rows,
            Err(TransmutaError::TooFewRows { rows, skip_rows: skipped }) => {
                &&& rows == row_count
                &&& skipped == skip_rows
                &&& row_count <= skip_rows
            },
            Err(_) => false,
        },
{
    if row_count <= skip_rows {
        return Err(TransmutaError::TooFewRows { rows: row_count, skip_rows });
    }
    Ok(row_count - skip_rows)
}

/// Whether `parts` are the outputs of a worksheet of which the first
/// `skip_rows` rows are skipped: the row after those gives the column names,
/// and that row and all that follow are the data, cut into batches of `size`
/// rows.
pub open spec fn excel_converted(
    parts: Seq<PartFile>,
    rows: Seq<Vec<ExcelDataType>>,
    skip_rows: int,
    size: int,
    output_path: Seq<char>,
) -> bool {
    &&& 0 <= skip_rows < rows.len()
    &&& parts_hold(
        parts,
        header_names(rows[skip_rows]@),
        sheet_texts(rows, skip_rows),
        0,
        size,
        output_path,
    )
}

/// Converts the rows of a worksheet into batches of at most `batch_size`
/// rows of text, each with the path of its file. The index in a failure
/// counts the rows of the worksheet from zero.
pub fn convert_excel(
    rows: &Vec<Vec<ExcelDataType>>,
    skip_rows: usize,
    batch_size: usize,
    output_path: &str,
) -> (r: Result<Vec<PartFile>, TransmutaError>)
    requires
        batch_size > 0,
    ensures
        match r {
            Ok(parts) => {
                &&& excel_converted(parts@, rows@, skip_rows as int, batch_size as int, output_path@)
                &&& forall|i: int|
                    skip_rows <= i < rows@.len() ==> (#[trigger] rows@[i])@.len()
                        <= rows@[skip_rows as int]@.len()
            },
            Err(TransmutaError::TooFewRows { rows: row_count, skip_rows: skipped }) => {
                &&& row_count == rows@.len()
                &&& skipped == skip_rows
                &&& rows@.len() <= skip_rows
            },
            Err(TransmutaError::RowTooLong { row, fields, columns }) => {
                &&& skip_rows < row < rows@.len()
                &&& fields == rows@[row as int]@.len()
                &&& columns == rows@[skip_rows as int]@.len()
                &&& fields > columns
                &&& forall|i: int|
                    skip_rows <= i < row ==> (#[trigger] rows@[i])@.len() <= columns
            },
            Err(_) => false,
        },
{
    let row_count = rows.len();
    match data_row_count(row_count, skip_rows) {
        Ok(_) => {},
        Err(e) => {
            return Err(e);
        },
    }
    let headers = excel_headers(&rows[skip_rows]);
    let mut records: Vec<Vec<String>> = Vec::new();
    let mut row_idx: usize = skip_rows;
    while row_idx < row_count
        invariant
            skip_rows <= row_idx <= row_count,
            row_count == rows@.len(),
            records@.len() == row_idx - skip_rows,
            forall|k: int|
                0 <= k < records@.len() ==> (#[trigger] records@[k]).deep_view() == row_texts(
                    rows@[skip_rows + k]@,
                ),
        decreases row_count - row_idx,
    {
        records.push(row_to_strings(&rows[row_idx]));
        row_idx += 1;
    }
    proof {
        assert(records.deep_view() =~= sheet_texts(rows@, skip_rows as int)) by {
            assert forall|k: int| 0 <= k < records@.len() implies #[trigger] records.deep_view()[k]
                == row_texts(rows@[skip_rows + k]@) by {
                assert(records.deep_view()[k] == records@[k].deep_view());
            }
        }
        assert forall|k: int| 0 <= k < records@.len() implies (#[trigger] records@[k])@.len()
            == rows@[skip_rows + k]@.len() by {
            assert(records@[k].deep_view().len() == records@[k]@.len());
        }
        assert(headers.deep_view().len() == headers@.len());
    }
    match convert_rows(&headers, &records, 0, batch_size, output_path) {
        Ok(parts) => {
            proof {
                assert forall|i: int| skip_rows <= i < rows@.len() implies (#[trigger] rows@[i])@.len()
                    <= rows@[skip_rows as int]@.len() by {
                    assert(records@[i - skip_rows]@.len() <= headers@.len());
                }
            }
            Ok(parts)
        },
        Err(TransmutaError::RowTooLong { row, fields, columns }) => {
            proof {
                assert forall|i: int| skip_rows <= i < skip_rows + row implies (#[trigger] rows@[i])@.len()
                    <= columns by {
                    assert(records@[i - skip_rows]@.len() <= headers@.len());
                }
            }
            Err(TransmutaError::RowTooLong { row: skip_rows + row, fields, columns })
        },
        Err(e) => Err(e),
    }
}

} // verus!
