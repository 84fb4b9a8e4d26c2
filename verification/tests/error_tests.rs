use transmuta::error::TransmutaError;

#[test]
fn messages_of_outside_failures() {
    assert_eq!(TransmutaError::IoError("no such file".to_string()).message(), "I/O error: no such file");
    assert_eq!(TransmutaError::ExcelError("bad zip".to_string()).message(), "Excel error: bad zip");
    assert_eq!(TransmutaError::CsvError("bad quote".to_string()).message(), "CSV error: bad quote");
    assert_eq!(TransmutaError::SerdeJsonError("eof".to_string()).message(), "JSON error: eof");
    assert_eq!(TransmutaError::ArrowError("length".to_string()).message(), "batch error: length");
    assert_eq!(TransmutaError::ParquetError("schema".to_string()).message(), "Parquet error: schema");
    assert_eq!(
        TransmutaError::UnsupportedFormat("xml".to_string()).message(),
        "unsupported output format: xml"
    );
    assert_eq!(
        TransmutaError::InvalidArgument("batch size".to_string()).message(),
        "invalid argument: batch size"
    );
}

#[test]
fn messages_name_the_row_and_the_type() {
    assert_eq!(
        TransmutaError::MalformedSchemaRow(0).message(),
        "schema row 1 is malformed: a column name and a type are needed"
    );
    assert_eq!(
        TransmutaError::UnsupportedType { row: Some(2), name: "money".to_string() }.message(),
        "schema row 3 has the unsupported type money"
    );
    assert_eq!(
        TransmutaError::UnsupportedType { row: None, name: "money".to_string() }.message(),
        "unsupported type money"
    );
    assert_eq!(
        TransmutaError::RowTooLong { row: 9, fields: 4, columns: 3 }.message(),
        "data row 10 has 4 fields for 3 columns"
    );
    assert_eq!(
        TransmutaError::TooFewRows { rows: 2, skip_rows: 5 }.message(),
        "the worksheet has 2 rows, not more than the 5 to skip"
    );
    assert_eq!(
        TransmutaError::MalformedSchemaRow(usize::MAX).message(),
        format!("schema row {} is malformed: a column name and a type are needed", usize::MAX as u128 + 1)
    );
}

#[test]
fn messages_of_plain_failures() {
    assert_eq!(TransmutaError::MissingExtension.message(), "the file has no extension");
    assert_eq!(
        TransmutaError::UnsupportedExcelFormat("ods".to_string()).message(),
        "unsupported Excel file format: ods"
    );
    assert_eq!(TransmutaError::EmptySchema.message(), "the schema has no column");
    assert_eq!(TransmutaError::EmptySource.message(), "the source is empty");
    assert_eq!(TransmutaError::NoWorksheet.message(), "the workbook has no worksheet");
}
