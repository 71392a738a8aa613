use vstd::prelude::*;
use vstd::string::StringExecFns;

pub mod config;
pub mod coordinator;
pub mod game_controller;
pub mod game_folder;
pub mod locale_controller;
pub mod text;

verus! {

/// How a catalog or table operation fails. These are the only failures the
/// loading pipeline reports; none of them aborts the process.
#[derive(Debug, Clone)]
pub enum LocaleError {
    /// The file behind the operation is missing.
    NotFound,
    /// A required header cell is absent; carries the missing header's text.
    ColumnNotFound(String),
    /// A data row's field count does not match the header's.
    MalformedRow,
    /// The file exists but could not be read.
    IoFailure,
}

impl LocaleError {
    /// A short description for the surrounding surface to display.
    pub fn message(&self) -> (r: String)
        ensures
            self is ColumnNotFound ==> r@ == "column not found: "@ + self->ColumnNotFound_0@,
    {
        match self {
            LocaleError::NotFound => "file not found".to_owned(),
            LocaleError::ColumnNotFound(name) => "column not found: ".to_owned().concat(
                name.as_str(),
            ),
            LocaleError::MalformedRow => "malformed row".to_owned(),
            LocaleError::IoFailure => "file could not be read".to_owned(),
        }
    }
}

/// Spec-level image of `LocaleError`.
pub ghost enum LoadFailure {
    NotFound,
    ColumnNotFound(Seq<char>),
    MalformedRow,
    IoFailure,
}

impl View for LocaleError {
    type V = LoadFailure;

    open spec fn view(&self) -> LoadFailure {
        match self {
            LocaleError::NotFound => LoadFailure::NotFound,
            LocaleError::ColumnNotFound(name) => LoadFailure::ColumnNotFound(name@),
            LocaleError::MalformedRow => LoadFailure::MalformedRow,
            LocaleError::IoFailure => LoadFailure::IoFailure,
        }
    }
}

} // verus!
