use transmuta::converters::batch::Cell;
use transmuta::converters::excel::{
    cell_to_string, check_excel_input, convert_excel, data_row_count, excel_headers,
    select_worksheet, ExcelDataType,
};
use transmuta::error::TransmutaError;

fn s(text: &str) -> ExcelDataType {
    ExcelDataType::String(text.to_string())
}

#[test]
fn cells_render_as_text() {
    assert_eq!(cell_to_string(&ExcelDataType::Empty), "");
    assert_eq!(cell_to_string(&s("abc")), "abc");
    assert_eq!(cell_to_string(&ExcelDataType::Float("1.5".to_string())), "1.5");
    assert_eq!(cell_to_string(&ExcelDataType::Int(-42)), "-42");
    assert_eq!(cell_to_string(&ExcelDataType::Bool(true)), "true");
    assert_eq!(cell_to_string(&ExcelDataType::Bool(false)), "false");
    assert_eq!(cell_to_string(&ExcelDataType::DateTime("45000.500000".to_string())), "45000.500000");
    assert_eq!(cell_to_string(&ExcelDataType::Error), "[ERROR]");
    assert_eq!(cell_to_string(&ExcelDataType::Duration("0.250000".to_string())), "0.250000");
    assert_eq!(cell_to_string(&ExcelDataType::DateTimeIso("2024-01-02T03:04:05".to_string())), "2024-01-02T03:04:05");
    assert_eq!(cell_to_string(&ExcelDataType::DurationIso("PT1H".to_string())), "PT1H");
}

#[test]
fn spreadsheet_extensions() {
    assert_eq!(check_excel_input("book.xlsx"), Ok(()));
    assert_eq!(check_excel_input("book.XLS"), Ok(()));
    assert_eq!(check_excel_input("dir/book.Xlsm"), Ok(()));
    assert_eq!(
        check_excel_input("book.ODS"),
        Err(TransmutaError::UnsupportedExcelFormat("ods".to_string()))
    );
    assert_eq!(
        check_excel_input("book.csv"),
        Err(TransmutaError::UnsupportedExcelFormat("csv".to_string()))
    );
    assert_eq!(check_excel_input("book"), Err(TransmutaError::MissingExtension));
}

#[test]
fn first_worksheet_is_taken() {
    assert_eq!(
        select_worksheet(&vec!["Data".to_string(), "Notes".to_string()]),
        Ok("Data".to_string())
    );
    assert_eq!(select_worksheet(&Vec::new()), Err(TransmutaError::NoWorksheet));
}

#[test]
fn empty_header_cells_get_numbered_names() {
    let row = vec![s("id"), ExcelDataType::Empty, ExcelDataType::Int(7), ExcelDataType::Empty];
    assert_eq!(excel_headers(&row), vec!["id", "Column2", "7", "Column4"]);
    assert_eq!(excel_headers(&Vec::new()), Vec::<String>::new());
}

fn sheet() -> Vec<Vec<ExcelDataType>> {
    vec![
        vec![s("title"), ExcelDataType::Empty],
        vec![s("id"), ExcelDataType::Empty],
        vec![ExcelDataType::Int(1), ExcelDataType::Bool(true)],
        vec![ExcelDataType::Int(2)],
        vec![ExcelDataType::Float("3.25".to_string()), ExcelDataType::Error],
    ]
}

fn texts(cells: &[Cell]) -> Vec<String> {
    cells
        .iter()
        .map(|cell| match cell {
            Cell::Text(t) => t.clone(),
            other => panic!("not a text: {:?}", other),
        })
        .collect()
}

#[test]
fn rows_after_the_skipped_ones_are_data() {
    let parts = convert_excel(&sheet(), 1, 3, "out.json").unwrap();
    assert_eq!(parts.len(), 2);
    assert_eq!(parts[0].path, "out_part0001.json");
    assert_eq!(parts[1].path, "out_part0002.json");
    let first = &parts[0].batch;
    assert_eq!(first.fields[0].name, "id");
    assert_eq!(first.fields[1].name, "Column2");
    assert_eq!(texts(&first.columns[0].cells), vec!["id", "1", "2"]);
    assert_eq!(texts(&first.columns[1].cells), vec!["", "true", ""]);
    let second = &parts[1].batch;
    assert_eq!(second.num_rows(), 1);
    assert_eq!(texts(&second.columns[0].cells), vec!["3.25"]);
    assert_eq!(texts(&second.columns[1].cells), vec!["[ERROR]"]);
}

#[test]
fn one_batch_goes_to_the_output_path() {
    let parts = convert_excel(&sheet(), 0, 5, "out/x.csv").unwrap();
    assert_eq!(parts.len(), 1);
    assert_eq!(parts[0].path, "out/x.csv");
    assert_eq!(parts[0].batch.num_rows(), 5);
    assert_eq!(parts[0].batch.fields[0].name, "title");
}

#[test]
fn nothing_left_after_skipping_is_an_error() {
    assert_eq!(
        convert_excel(&sheet(), 5, 10, "out.csv"),
        Err(TransmutaError::TooFewRows { rows: 5, skip_rows: 5 })
    );
    assert_eq!(
        convert_excel(&Vec::new(), 0, 10, "out.csv"),
        Err(TransmutaError::TooFewRows { rows: 0, skip_rows: 0 })
    );
}

#[test]
fn row_wider_than_the_header_fails_the_run() {
    let rows = vec![
        vec![s("skipped")],
        vec![s("a")],
        vec![s("1")],
        vec![s("1"), s("2")],
    ];
    assert_eq!(
        convert_excel(&rows, 1, 10, "out.csv"),
        Err(TransmutaError::RowTooLong { row: 3, fields: 2, columns: 1 })
    );
}

#[test]
fn data_rows_are_those_not_skipped() {
    assert_eq!(data_row_count(5, 2), Ok(3));
    assert_eq!(data_row_count(1, 0), Ok(1));
    assert_eq!(data_row_count(2, 2), Err(TransmutaError::TooFewRows { rows: 2, skip_rows: 2 }));
    assert_eq!(data_row_count(0, 0), Err(TransmutaError::TooFewRows { rows: 0, skip_rows: 0 }));
    assert_eq!(data_row_count(3, 9), Err(TransmutaError::TooFewRows { rows: 3, skip_rows: 9 }));
}
