//! The export commands: what they lay out, where they write it, and how they
//! report what went wrong.

use crate::grid::{
    header_style, no_overlap, value_at, Content, Grid, GridPlacement, HeaderStyle,
};
use crate::layout::{layout_of, layout_with};
use crate::render::{cell_of, format_cell};
use crate::sheet::{ask_sheet_name, sheet_name_accepted, sheet_name_refusal};
use crate::text::{decimal_digits, push_digits};
use crate::value::Value;
use vstd::prelude::*;
use vstd::string::*;

verus! {

/// Why no usable output path could be had.
#[derive(Clone, Copy, Debug, PartialEq, Eq, Structural)]
pub enum PathFault {
    /// The caller gave no path.
    Missing,
    /// The path is relative and the working directory could not be told.
    WorkingDirectory,
}

/// What can go wrong with an export.
#[derive(Clone, Debug, PartialEq, Eq)]
pub enum ExportError {
    /// The command was called by a name that is not its own.
    UnknownCommand,
    /// No usable output path.
    UnsupportedPath { fault: PathFault, detail: String },
    /// The value has no layout. No value is refused today: every value has a
    /// shape.
    UnclassifiableValue { detail: String },
    /// The sheet could not be set up, or it refused the cell at the given row
    /// and column. Nothing is written after that.
    WriteFailure { cell: Option<(u128, u128)>, detail: String },
    /// The file could not be saved.
    SaveFailure { detail: String },
}

/// The mathematical value of an error.
pub enum ExportErrorView {
    UnknownCommand,
    UnsupportedPath { fault: PathFault, detail: Seq<char> },
    UnclassifiableValue { detail: Seq<char> },
    WriteFailure { cell: Option<(nat, nat)>, detail: Seq<char> },
    SaveFailure { detail: Seq<char> },
}

impl View for ExportError {
    type V = ExportErrorView;

    open spec fn view(&self) -> ExportErrorView {
        match self {
            ExportError::UnknownCommand => ExportErrorView::UnknownCommand,
            ExportError::UnsupportedPath { fault, detail } => ExportErrorView::UnsupportedPath {
                fault: *fault,
                detail: detail@,
            },
            ExportError::UnclassifiableValue { detail } => ExportErrorView::UnclassifiableValue {
                detail: detail@,
            },
            ExportError::WriteFailure { cell, detail } => ExportErrorView::WriteFailure {
                cell: match cell {
                    Some((row, col)) => Some((*row as nat, *col as nat)),
                    None => None,
                },
                detail: detail@,
            },
            ExportError::SaveFailure { detail } => ExportErrorView::SaveFailure {
                detail: detail@,
            },
        }
    }
}

/// The headline of an error.
pub open spec fn error_message(e: ExportErrorView) -> Seq<char> {
    match e {
        ExportErrorView::UnknownCommand => "Plugin call with wrong name signature"@,
        ExportErrorView::UnsupportedPath { fault: PathFault::Missing, .. } =>
            "Missing output file path"@,
        ExportErrorView::UnsupportedPath { fault: PathFault::WorkingDirectory, .. } =>
            "Failed to get current working directory"@,
        ExportErrorView::UnclassifiableValue { .. } => "Failed to classify data"@,
        ExportErrorView::WriteFailure { .. } => "Failed to export data"@,
        ExportErrorView::SaveFailure { .. } => "Failed to save file"@,
    }
}

/// The detail of an error: the underlying message and, for a cell that the
/// sheet refused, its position.
pub open spec fn error_help(e: ExportErrorView) -> Seq<char> {
    match e {
        ExportErrorView::UnknownCommand =>
            "the signature used to call the plugin does not match any name in the plugin signature vector"@,
        ExportErrorView::UnsupportedPath { detail, .. } => "Error: "@ + detail,
        ExportErrorView::UnclassifiableValue { detail } => "Error: "@ + detail,
        ExportErrorView::WriteFailure { cell: Some((row, col)), detail } => "Error: "@ + detail
            + " (row "@ + decimal_digits(row) + ", column "@ + decimal_digits(col) + ")"@,
        ExportErrorView::WriteFailure { cell: None, detail } => "Error: "@ + detail,
        ExportErrorView::SaveFailure { detail } => "Error: "@ + detail,
    }
}

impl ExportError {
    /// The error for a cell that the sheet refused with the given message.
    pub fn write_failure(placement: &GridPlacement, detail: String) -> (e: ExportError)
        ensures
            e == (ExportError::WriteFailure {
                cell: Some((placement.row, placement.col)),
                detail,
            }),
    {
        ExportError::WriteFailure { cell: Some((placement.row, placement.col)), detail }
    }

    /// The error for a sheet that could not be set up, with the message of
    /// the failed call.
    pub fn sheet_failure(detail: String) -> (e: ExportError)
        ensures
            e == (ExportError::WriteFailure { cell: None, detail }),
    {
        ExportError::WriteFailure { cell: None, detail }
    }

    /// The error for a file that could not be saved, with the message of the
    /// failed write.
    pub fn save_failure(detail: String) -> (e: ExportError)
        ensures
            e == (ExportError::SaveFailure { detail }),
    {
        ExportError::SaveFailure { detail }
    }

    /// The headline of the error.
    pub fn message(&self) -> (text: String)
        ensures
            text@ == error_message(self@),
    {
        match self {
            ExportError::UnknownCommand => String::from_str(
                "Plugin call with wrong name signature",
            ),
            ExportError::UnsupportedPath { fault, detail } => match fault {
                PathFault::Missing => String::from_str("Missing output file path"),
                PathFault::WorkingDirectory => String::from_str(
                    "Failed to get current working directory",
                ),
            },
            ExportError::UnclassifiableValue { detail } => String::from_str(
                "Failed to classify data",
            ),
            ExportError::WriteFailure { cell, detail } => String::from_str(
                "Failed to export data",
            ),
            ExportError::SaveFailure { detail } => String::from_str("Failed to save file"),
        }
    }

    /// The detail of the error.
    pub fn help(&self) -> (text: String)
        ensures
            text@ == error_help(self@),
    {
        match self {
            ExportError::UnknownCommand => String::from_str(
                "the signature used to call the plugin does not match any name in the plugin signature vector",
            ),
            ExportError::UnsupportedPath { fault, detail } => String::from_str("Error: ").concat(
                detail.as_str(),
            ),
            ExportError::UnclassifiableValue { detail } => String::from_str("Error: ").concat(
                detail.as_str(),
            ),
            ExportError::WriteFailure { cell, detail } => {
                let mut text = String::from_str("Error: ");
                text.append(detail.as_str());
                match cell {
                    Some((row, col)) => {
                        text.append(" (row ");
                        push_digits(&mut text, *row);
                        text.append(", column ");
                        push_digits(&mut text, *col);
                        text.append(")");
                    },
                    None => {},
                }
                text
            },
            ExportError::SaveFailure { detail } => String::from_str("Error: ").concat(
                detail.as_str(),
            ),
        }
    }
}

impl GridPlacement {
    /// The position as a sheet takes it, with rows of 32 bits and columns of
    /// 16: none if the row or the column does not fit.
    pub fn sheet_position(&self) -> (position: Option<(u32, u16)>)
        ensures
            match position {
                Some((row, col)) => row == self.row && col == self.col,
                None => self.row > u32::MAX || self.col > u16::MAX,
            },
    {
        if self.row <= 0xffff_ffff && self.col <= 0xffff {
            Some((self.row as u32, self.col as u16))
        } else {
            None
        }
    }
}

/// Where the file goes.
#[derive(Clone, Debug, PartialEq, Eq)]
pub enum OutputPath {
    /// To the path as the caller gave it.
    AsGiven { path: String },
    /// To the caller's relative path, taken from the working directory.
    Under { directory: String, path: String },
}

/// An export that is ready to be written: the sheet's name and cells, the
/// style of its header labels, where to save the file, and what to answer
/// once it is saved.
#[derive(Clone, Debug, PartialEq, Eq)]
pub struct Export {
    pub target: OutputPath,
    pub sheet_name: String,
    pub header_style: HeaderStyle,
    pub grid: Grid,
    pub message: String,
}

/// The error for a sheet that refused its name with the given message.
pub open spec fn name_refused(message: Seq<char>) -> ExportErrorView {
    ExportErrorView::WriteFailure { cell: None, detail: message }
}

impl Export {
    /// Puts an export together, once the sheet was asked about the name:
    /// `refusal` is the message with which it refused the name, if it did.
    /// A refused name leaves no export.
    pub fn assemble(
        target: OutputPath,
        sheet_name: String,
        refusal: Option<String>,
        grid: Grid,
        message: String,
    ) -> (export: Result<Export, ExportError>)
        ensures
            match refusal {
                Some(detail) => export == Err::<Export, ExportError>(
                    ExportError::WriteFailure { cell: None, detail },
                ),
                None => export == Ok::<Export, ExportError>(
                    Export {
                        target,
                        sheet_name,
                        header_style: HeaderStyle {
                            bold: true,
                            background: 0x202020,
                            font_color: 0x00FF00,
                        },
                        grid,
                        message,
                    },
                ),
            },
    {
        match refusal {
            Some(detail) => Err(ExportError::sheet_failure(detail)),
            None => Ok(Export { target, sheet_name, header_style: header_style(), grid, message }),
        }
    }
}

/// The name of a sheet where the caller names none.
pub open spec fn default_sheet_name() -> Seq<char> {
    "Sheet1"@
}

/// A sheet takes the name that is used where the caller names none.
pub proof fn lemma_default_sheet_name_accepted()
    ensures
        sheet_name_accepted(default_sheet_name()),
{
    reveal_strlit("Sheet1");
}

/// The name by which both commands are called.
pub open spec fn command_name() -> Seq<char> {
    "to xlsx"@
}

/// The answer to an export that was written to `path`.
pub open spec fn confirmation(path: Seq<char>) -> Seq<char> {
    "The file "@ + path + " generated."@
}

/// The error for a caller who gave no path.
pub open spec fn missing_path() -> ExportErrorView {
    ExportErrorView::UnsupportedPath {
        fault: PathFault::Missing,
        detail: "required xlsx file path"@,
    }
}

/// Decides where the file goes. A path that is not relative is taken as it
/// is, whatever the working directory; a relative one is taken from the
/// working directory, and refused if that could not be told.
pub fn resolve_target(
    path: Option<String>,
    relative: bool,
    working_directory: Result<String, String>,
) -> (target: Result<OutputPath, ExportError>)
    ensures
        match path {
            None => target matches Err(e) && e@ == missing_path(),
            Some(p) => if !relative {
                target == Ok::<OutputPath, ExportError>(OutputPath::AsGiven { path: p })
            } else {
                match working_directory {
                    Ok(directory) => target == Ok::<OutputPath, ExportError>(
                        OutputPath::Under { directory, path: p },
                    ),
                    Err(detail) => target == Err::<OutputPath, ExportError>(
                        ExportError::UnsupportedPath { fault: PathFault::WorkingDirectory, detail },
                    ),
                }
            },
        },
{
    match path {
        None => Err(
            ExportError::UnsupportedPath {
                fault: PathFault::Missing,
                detail: String::from_str("required xlsx file path"),
            },
        ),
        Some(p) => {
            if !relative {
                Ok(OutputPath::AsGiven { path: p })
            } else {
                match working_directory {
                    Ok(directory) => Ok(OutputPath::Under { directory, path: p }),
                    Err(detail) => Err(
                        ExportError::UnsupportedPath { fault: PathFault::WorkingDirectory, detail },
                    ),
                }
            }
        },
    }
}

/// Lays a value out the way the `XLSX` exporter writes it: booleans as the
/// words `true` and `false`.
pub fn write_to_xlsx(value: &Value) -> (grid: Grid)
    ensures
        grid@ == layout_of(value@, true),
        no_overlap(grid@),
{
    layout_with(value, true)
}

/// Places the cell of a value, booleans as the words `true` and `false`.
pub fn write_value(grid: &mut Grid, row: u128, col: u128, value: &Value)
    ensures
        final(grid)@ == old(grid)@.push(value_at(row as nat, col as nat, cell_of(value@, true))),
{
    grid.place(row, col, Content::Value(format_cell(value, true)));
}

/// One argument of a command.
#[derive(Clone, Debug, PartialEq, Eq)]
pub struct Parameter {
    pub name: String,
    pub description: String,
}

/// One example of a command's use.
#[derive(Clone, Debug, PartialEq, Eq)]
pub struct Example {
    pub example: String,
    pub description: String,
}

/// How a command is called: its name, what it does, the arguments that it
/// needs and those that it takes besides, all of them text, and examples.
/// It takes any value as its input and gives nothing back.
#[derive(Clone, Debug, PartialEq, Eq)]
pub struct CommandSignature {
    pub name: String,
    pub usage: String,
    pub required: Vec<Parameter>,
    pub optional: Vec<Parameter>,
    pub examples: Vec<Example>,
}

/// A parameter of the given name and description.
fn parameter(name: &str, description: &str) -> (p: Parameter)
    ensures
        p.name@ == name@,
        p.description@ == description@,
{
    Parameter { name: String::from_str(name), description: String::from_str(description) }
}

/// An example of the given text and description.
fn example(text: &str, description: &str) -> (e: Example)
    ensures
        e.example@ == text@,
        e.description@ == description@,
{
    Example { example: String::from_str(text), description: String::from_str(description) }
}

/// The exporter that writes booleans as the words `true` and `false`.
pub struct XLSX;

impl XLSX {
    /// How the command is called: with the path of the file, and with the
    /// name of the sheet if the caller likes.
    pub fn signature(&self) -> (signature: CommandSignature)
        ensures
            signature.name@ == command_name(),
            signature.usage@ == "Convert table, record, list to excel(.xlsx) file."@,
            signature.required@.len() == 1,
            signature.required@[0].name@ == "file_path"@,
            signature.required@[0].description@ == "required xlsx file path"@,
            signature.optional@.len() == 1,
            signature.optional@[0].name@ == "sheet_name"@,
            signature.optional@[0].description@ == "Sheet name, default is Sheet1"@,
            signature.examples@.len() == 4,
            signature.examples@[0].example@ == "{user: bob, age: 30} | to xlsx User.xlsx"@,
            signature.examples@[0].description@ == "Save a record to xlsx file with sheet name"@,
            signature.examples@[1].example@ == "echo [[name]; [bob]] | to xlsx"@,
            signature.examples@[1].description@ == "Save a table to excel xlsx file"@,
            signature.examples@[2].example@ == "ls | to xlsx Files.xlsx"@,
            signature.examples@[2].description@ == "Save piped data to xlsx file with sheet name"@,
            signature.examples@[3].example@
                == "[{user: bob, age: 30},{user: john, age:40}] | to xlsx Users.xlsx"@,
            signature.examples@[3].description@
                == "Save list of record to to xlsx file with sheet name"@,
    {
        let mut required: Vec<Parameter> = Vec::new();
        required.push(parameter("file_path", "required xlsx file path"));
        let mut optional: Vec<Parameter> = Vec::new();
        optional.push(parameter("sheet_name", "Sheet name, default is Sheet1"));
        let mut examples: Vec<Example> = Vec::new();
        examples.push(
            example(
                "{user: bob, age: 30} | to xlsx User.xlsx",
                "Save a record to xlsx file with sheet name",
            ),
        );
        examples.push(
            example("echo [[name]; [bob]] | to xlsx", "Save a table to excel xlsx file"),
        );
        examples.push(
            example("ls | to xlsx Files.xlsx", "Save piped data to xlsx file with sheet name"),
        );
        examples.push(
            example(
                "[{user: bob, age: 30},{user: john, age:40}] | to xlsx Users.xlsx",
                "Save list of record to to xlsx file with sheet name",
            ),
        );
        CommandSignature {
            name: String::from_str("to xlsx"),
            usage: String::from_str("Convert table, record, list to excel(.xlsx) file."),
            required,
            optional,
            examples,
        }
    }

    /// Prepares the export of `value` to `path`, on a sheet named
    /// `sheet_name`, or `Sheet1` if none is given. Without a path there is no
    /// export, nor with a name that the sheet does not take.
    pub fn to(&self, path: Option<String>, sheet_name: Option<String>, value: &Value) -> (export:
        Result<Export, ExportError>)
        ensures
            match path {
                None => export matches Err(e) && e@ == missing_path(),
                Some(p) => {
                    let name = match sheet_name {
                        Some(name) => name@,
                        None => default_sheet_name(),
                    };
                    if sheet_name_accepted(name) {
                        export matches Ok(x) && {
                            &&& x.target == (OutputPath::AsGiven { path: p })
                            &&& x.sheet_name@ == name
                            &&& x.header_style == (HeaderStyle { bold: true, background: 0x202020, font_color: 0x00FF00 })
                            &&& x.grid@ == layout_of(value@, true)
                            &&& no_overlap(x.grid@)
                            &&& x.message@ == confirmation(p@)
                        }
                    } else {
                        export matches Err(e) && e@ == name_refused(sheet_name_refusal(name))
                    }
                },
            },
    {
        match path {
            None => Err(
                ExportError::UnsupportedPath {
                    fault: PathFault::Missing,
                    detail: String::from_str("required xlsx file path"),
                },
            ),
            Some(p) => {
                let sheet_name = match sheet_name {
                    Some(name) => name,
                    None => String::from_str("Sheet1"),
                };
                let refusal = ask_sheet_name(sheet_name.as_str());
                let grid = write_to_xlsx(value);
                let mut message = String::from_str("The file ");
                message.append(p.as_str());
                message.append(" generated.");
                Export::assemble(
                    OutputPath::AsGiven { path: p },
                    sheet_name,
                    refusal,
                    grid,
                    message,
                )
            },
        }
    }

    /// Runs the command called `name`: the export, if the name is the
    /// command's own, and an error otherwise.
    pub fn run(
        &mut self,
        name: &str,
        path: Option<String>,
        sheet_name: Option<String>,
        value: &Value,
    ) -> (export: Result<Export, ExportError>)
        ensures
            name@ != command_name() ==> (export matches Err(e) && e@
                == ExportErrorView::UnknownCommand),
            name@ == command_name() ==> match path {
                None => export matches Err(e) && e@ == missing_path(),
                Some(p) => {
                    let name = match sheet_name {
                        Some(name) => name@,
                        None => default_sheet_name(),
                    };
                    if sheet_name_accepted(name) {
                        export matches Ok(x) && {
                            &&& x.target == (OutputPath::AsGiven { path: p })
                            &&& x.sheet_name@ == name
                            &&& x.header_style == (HeaderStyle { bold: true, background: 0x202020, font_color: 0x00FF00 })
                            &&& x.grid@ == layout_of(value@, true)
                            &&& no_overlap(x.grid@)
                            &&& x.message@ == confirmation(p@)
                        }
                    } else {
                        export matches Err(e) && e@ == name_refused(sheet_name_refusal(name))
                    }
                },
            },
    {
        if String::from_str(name) == String::from_str("to xlsx") {
            self.to(path, sheet_name, value)
        } else {
            Err(ExportError::UnknownCommand)
        }
    }
}

/// The exporter that writes booleans as boolean cells.
pub struct ToXlsx;

impl ToXlsx {
    /// The exporter.
    pub fn new() -> (exporter: Self)
        ensures
            exporter == ToXlsx,
    {
        ToXlsx
    }

    /// Lays a value out on a fresh grid.
    pub fn write_value(&self, value: &Value) -> (grid: Grid)
        ensures
            grid@ == layout_of(value@, false),
            no_overlap(grid@),
    {
        layout_with(value, false)
    }

    /// Places the cell of a value.
    pub fn write_cell_value(&self, grid: &mut Grid, row: u128, col: u128, value: &Value)
        ensures
            final(grid)@ == old(grid)@.push(
                value_at(row as nat, col as nat, cell_of(value@, false)),
            ),
    {
        grid.place(row, col, Content::Value(format_cell(value, false)));
    }
}

/// The command of the `ToXlsx` exporter.
#[derive(Clone, Copy, Debug, PartialEq, Eq, Structural)]
pub struct ToXlsxCommand;

impl ToXlsxCommand {
    /// The name by which the command is called.
    pub fn name(&self) -> (name: &'static str)
        ensures
            name@ == command_name(),
    {
        "to xlsx"
    }

    /// How the command is called: with the path of the file, and with the
    /// name of the sheet if the caller likes.
    pub fn signature(&self) -> (signature: CommandSignature)
        ensures
            signature.name@ == command_name(),
            signature.usage@ == "Export data to xlsx file"@,
            signature.required@.len() == 1,
            signature.required@[0].name@ == "path"@,
            signature.required@[0].description@ == "Path to output xlsx file"@,
            signature.optional@.len() == 1,
            signature.optional@[0].name@ == "sheet_name"@,
            signature.optional@[0].description@ == "Sheet name, default is Sheet1"@,
            signature.examples@.len() == 0,
    {
        let mut required: Vec<Parameter> = Vec::new();
        required.push(parameter("path", "Path to output xlsx file"));
        let mut optional: Vec<Parameter> = Vec::new();
        optional.push(parameter("sheet_name", "Sheet name, default is Sheet1"));
        CommandSignature {
            name: String::from_str("to xlsx"),
            usage: String::from_str("Export data to xlsx file"),
            required,
            optional,
            examples: Vec::new(),
        }
    }

    /// What the command does, in a few words.
    pub fn description(&self) -> (text: &'static str)
        ensures
            text@ == "Export data to xlsx file"@,
    {
        "Export data to xlsx file"
    }

    /// Prepares the export of `value` on a sheet named `sheet_name`, or
    /// `Sheet1` if none is given: decides where the file goes, asks the sheet
    /// about the name, then lays the value out. Without a usable path there
    /// is no export, nor with a name that the sheet does not take. The answer
    /// to a finished export is empty.
    pub fn run(
        &self,
        plugin: &ToXlsx,
        path: Option<String>,
        sheet_name: Option<String>,
        relative: bool,
        working_directory: Result<String, String>,
        value: &Value,
    ) -> (export: Result<Export, ExportError>)
        ensures
            match path {
                None => export matches Err(e) && e@ == missing_path(),
                Some(p) => if relative && working_directory is Err {
                    export == Err::<Export, ExportError>(
                        ExportError::UnsupportedPath {
                            fault: PathFault::WorkingDirectory,
                            detail: working_directory->Err_0,
                        },
                    )
                } else {
                    let name = match sheet_name {
                        Some(name) => name@,
                        None => default_sheet_name(),
                    };
                    if sheet_name_accepted(name) {
                        export matches Ok(x) && {
                            &&& x.target == if relative {
                                OutputPath::Under { directory: working_directory->Ok_0, path: p }
                            } else {
                                OutputPath::AsGiven { path: p }
                            }
                            &&& x.sheet_name@ == name
                            &&& x.header_style == (HeaderStyle { bold: true, background: 0x202020, font_color: 0x00FF00 })
                            &&& x.grid@ == layout_of(value@, false)
                            &&& no_overlap(x.grid@)
                            &&& x.message@ == Seq::<char>::empty()
                        }
                    } else {
                        export matches Err(e) && e@ == name_refused(sheet_name_refusal(name))
                    }
                },
            },
    {
        match resolve_target(path, relative, working_directory) {
            Err(e) => Err(e),
            Ok(target) => {
                let sheet_name = match sheet_name {
                    Some(name) => name,
                    None => String::from_str("Sheet1"),
                };
                let refusal = ask_sheet_name(sheet_name.as_str());
                let grid = plugin.write_value(value);
                Export::assemble(target, sheet_name, refusal, grid, String::new())
            },
        }
    }
}

} // verus!
