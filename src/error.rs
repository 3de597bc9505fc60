//! Errors of PDF generation and printing.

use vstd::prelude::*;

verus! {

/// What went wrong, with a message.
#[derive(Debug, PartialEq, Eq)]
pub enum PdfError {
    /// The document could not be produced.
    Generation(String),
    /// No usable font was found or read.
    FontLoad(String),
    /// Printing failed.
    Print(String),
    /// A file could not be read or written.
    FileIO(String),
    /// The settings are unusable.
    Config(String),
}

} // verus!
