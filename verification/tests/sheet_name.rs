use to_xlsx::command::{Export, ExportError, OutputPath, XLSX};
use to_xlsx::grid::{header_style, Grid};
use to_xlsx::value::Value;

fn export_named(name: &str) -> Result<Export, ExportError> {
    XLSX.to(Some("out.xlsx".to_string()), Some(name.to_string()), &Value::Int(1))
}

fn refusal(name: &str) -> String {
    match export_named(name) {
        Err(ExportError::WriteFailure { cell: None, detail }) => detail,
        other => panic!("the name {:?} gave {:?}", name, other),
    }
}

#[test]
fn ordinary_sheet_names_are_taken() {
    for name in ["Sheet1", "People", "a", "it's", "with space", "\u{e9}t\u{e9}", "a.b-c_d"] {
        let export = export_named(name).unwrap();
        assert_eq!(export.sheet_name, name);
    }
}

#[test]
fn sheet_name_of_31_characters_is_taken() {
    let name = "x".repeat(31);
    assert_eq!(export_named(&name).unwrap().sheet_name, name);
    let name = "\u{e9}".repeat(31);
    assert_eq!(export_named(&name).unwrap().sheet_name, name);
}

#[test]
fn sheet_name_of_32_characters_is_refused() {
    let name = "x".repeat(32);
    assert_eq!(
        refusal(&name),
        format!(
            "Worksheet name 'worksheet.set_name(\"{}\")' exceeds Excel's limit of 31 characters.",
            name
        )
    );
}

#[test]
fn blank_sheet_name_is_refused() {
    assert_eq!(refusal(""), "Worksheet name 'worksheet.set_name(\"\")' cannot be blank.");
}

#[test]
fn sheet_name_with_a_forbidden_character_is_refused() {
    for c in ['*', '?', ':', '[', ']', '\\', '/'] {
        let name = format!("a{}b", c);
        assert_eq!(
            refusal(&name),
            format!(
                "Worksheet name 'worksheet.set_name(\"{}\")' cannot contain invalid characters: '[ ] : * ? / \\'.",
                name
            )
        );
    }
}

#[test]
fn sheet_name_with_an_apostrophe_at_an_end_is_refused() {
    for name in ["'a", "a'", "'", "'a'"] {
        assert_eq!(
            refusal(name),
            format!(
                "Worksheet name 'worksheet.set_name(\"{}\")' cannot start or end with an apostrophe.",
                name
            )
        );
    }
}

#[test]
fn refused_sheet_name_reads_as_a_failed_export() {
    let error = export_named("a/b").unwrap_err();
    assert_eq!(error.message(), "Failed to export data");
    assert!(error.help().starts_with("Error: Worksheet name"));
}

#[test]
fn missing_path_is_told_before_the_sheet_name() {
    let result = XLSX.to(None, Some("a/b".to_string()), &Value::Int(1));
    assert!(matches!(result, Err(ExportError::UnsupportedPath { .. })));
}

#[test]
fn assemble_gives_the_export_unless_the_name_was_refused() {
    let target = OutputPath::AsGiven { path: "a.xlsx".to_string() };
    let export = Export::assemble(
        target.clone(),
        "S".to_string(),
        None,
        Grid::new(),
        "done".to_string(),
    );
    assert_eq!(
        export,
        Ok(Export {
            target: target.clone(),
            sheet_name: "S".to_string(),
            header_style: header_style(),
            grid: Grid::new(),
            message: "done".to_string()
        })
    );
    let export = Export::assemble(
        target,
        "S".to_string(),
        Some("no".to_string()),
        Grid::new(),
        "done".to_string(),
    );
    assert_eq!(export, Err(ExportError::WriteFailure { cell: None, detail: "no".to_string() }));
}
