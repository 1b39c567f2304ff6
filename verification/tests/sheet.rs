use rust_xlsxwriter::{Color, Format, Workbook, Worksheet, XlsxError};
use to_xlsx::command::{ExportError, XLSX};
use to_xlsx::grid::{header_style, Cell, Content, Grid, GridPlacement, HeaderStyle};
use to_xlsx::layout::layout;
use to_xlsx::value::{Field, Record, Value};

fn field(name: &str, value: Value) -> Field {
    Field { name: name.to_string(), value }
}

fn record(fields: Vec<Field>) -> Value {
    Value::Record(Record::new(fields))
}

fn put(worksheet: &mut Worksheet, p: &GridPlacement, header: &Format) -> Result<(), XlsxError> {
    let (row, col) = p.sheet_position().ok_or(XlsxError::RowColumnLimitError)?;
    match &p.content {
        Content::Header(label) => worksheet.write_string_with_format(row, col, label, header),
        Content::Value(Cell::Text(text)) => worksheet.write_string(row, col, text),
        Content::Value(Cell::Int(number)) => worksheet.write_number(row, col, *number as f64),
        Content::Value(Cell::Float(bits)) => worksheet.write_number(row, col, f64::from_bits(*bits)),
        Content::Value(Cell::Boolean(value)) => worksheet.write_boolean(row, col, *value),
        Content::Value(Cell::Blank) => worksheet.write_blank(row, col, &Format::new()),
    }?;
    Ok(())
}

fn write(grid: &Grid, sheet_name: &str) -> Result<Vec<u8>, ExportError> {
    let style = header_style();
    let mut workbook = Workbook::new();
    let worksheet = workbook.add_worksheet();
    worksheet.set_name(sheet_name).map_err(|e| ExportError::sheet_failure(e.to_string()))?;
    let header = Format::new()
        .set_bold()
        .set_background_color(Color::RGB(style.background))
        .set_font_color(Color::RGB(style.font_color));
    for p in &grid.placements {
        put(worksheet, p, &header).map_err(|e| ExportError::write_failure(p, e.to_string()))?;
    }
    workbook.save_to_buffer().map_err(|e| ExportError::save_failure(e.to_string()))
}

fn sample() -> Value {
    let rows = Value::List(vec![
        record(vec![field("x", Value::Int(1)), field("y", Value::Bool(true))]),
        record(vec![field("x", Value::Nothing), field("y", Value::Filesize(1536))]),
    ]);
    Value::List(vec![
        record(vec![
            field("name", Value::Text("bob".to_string())),
            field("ratio", Value::Float { bits: 0.25f64.to_bits(), text: "0.25".to_string() }),
            field("rows", rows),
        ]),
        record(vec![field("name", Value::Text("ann".to_string()))]),
    ])
}

#[test]
fn sheet_takes_every_placement_of_a_layout() {
    let bytes = write(&layout(&sample()), "Sheet1").unwrap();
    assert_eq!(&bytes[..2], b"PK");
}

#[test]
fn sheet_takes_the_prepared_export() {
    let export = XLSX.to(Some("out.xlsx".to_string()), Some("People".to_string()), &sample());
    let export = export.unwrap();
    let bytes = write(&export.grid, &export.sheet_name).unwrap();
    assert!(bytes.len() > 100);
}

#[test]
fn sheet_refuses_a_row_beyond_its_limit() {
    let mut grid = Grid::new();
    grid.place(0, 0, Content::Value(Cell::Int(1)));
    grid.place(1_048_576, 2, Content::Value(Cell::Text("too far".to_string())));
    grid.place(1, 0, Content::Value(Cell::Int(2)));
    let error = write(&grid, "Sheet1").unwrap_err();
    match &error {
        ExportError::WriteFailure { cell, .. } => assert_eq!(*cell, Some((1_048_576, 2))),
        other => panic!("not a write failure: {:?}", other),
    }
    assert_eq!(error.message(), "Failed to export data");
    assert!(error.help().ends_with("(row 1048576, column 2)"));
}

#[test]
fn sheet_refuses_a_position_that_does_not_fit_its_types() {
    let mut grid = Grid::new();
    grid.place(1u128 << 40, 0, Content::Header("h".to_string()));
    let error = write(&grid, "Sheet1").unwrap_err();
    assert!(matches!(error, ExportError::WriteFailure { cell: Some((row, 0)), .. } if row == 1u128 << 40));
}

#[test]
fn sheet_refuses_a_bad_name() {
    let error = write(&Grid::new(), "a/b").unwrap_err();
    assert!(matches!(error, ExportError::WriteFailure { cell: None, .. }));
}

#[test]
fn header_style_is_bold_green_on_dark_grey() {
    assert_eq!(
        header_style(),
        HeaderStyle { bold: true, background: 0x202020, font_color: 0x00FF00 }
    );
    let export = XLSX.to(Some("out.xlsx".to_string()), None, &sample()).unwrap();
    assert_eq!(export.header_style, header_style());
}
