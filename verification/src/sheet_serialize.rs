//! Where in a spreadsheet a record is written to or read from.
use vstd::prelude::*;

verus! {

/// Where a record goes: the title of its sheet and the row at which it starts.
pub struct SerializeArgs {
    pub sheet: Option<String>,
    pub start_idx: Option<u32>,
}

impl SerializeArgs {
    /// Arguments with neither a sheet nor a row.
    pub fn new() -> (r: SerializeArgs)
        ensures
            r.sheet is None,
            r.start_idx is None,
    {
        SerializeArgs { sheet: None, start_idx: None }
    }
}

/// Why a record could not be written to or read from a sheet.
#[derive(Debug, Clone, Copy, PartialEq, Eq, Structural)]
pub enum SerializeError {
    /// The arguments name no sheet.
    SheetNotProvided,
    /// The arguments name no row.
    IndexNotProvided,
    /// Writing to the sheet failed.
    WriteFailed,
    /// Reading the sheet failed.
    ReadFailed,
}

/// The text that describes an error.
pub open spec fn serialize_error_text(e: SerializeError) -> Seq<char> {
    match e {
        SerializeError::SheetNotProvided => "Sheet name not provided!"@,
        SerializeError::IndexNotProvided => "Index not provided!"@,
        SerializeError::WriteFailed => "Failed"@,
        SerializeError::ReadFailed => "failure"@,
    }
}

impl SerializeError {
    /// The text that describes the error.
    pub fn message(&self) -> (r: &'static str)
        ensures
            r@ == serialize_error_text(*self),
    {
        match self {
            SerializeError::SheetNotProvided => "Sheet name not provided!",
            SerializeError::IndexNotProvided => "Index not provided!",
            SerializeError::WriteFailed => "Failed",
            SerializeError::ReadFailed => "failure",
        }
    }
}

} // verus!
