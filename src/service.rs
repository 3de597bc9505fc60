//! The PDF service's state and the result it reports.

use vstd::prelude::*;
use crate::config::{PdfConfig, default_output_path};

verus! {

/// What one generation produced.
#[derive(Clone, Debug)]
pub struct PdfResult {
    /// Where the document was written.
    pub pdf_path: String,
    /// Its size in bytes.
    pub file_size: u64,
    /// Whether it was sent to a printer.
    pub printed: bool,
}

/// The service that generates, and on request prints, expense forms.
#[derive(Clone, Debug)]
pub struct PdfService {
    config: PdfConfig,
}

impl PdfService {
    /// The settings the service runs with.
    pub closed spec fn settings(&self) -> PdfConfig {
        self.config
    }

    /// A service with the default settings.
    pub fn new() -> (r: PdfService)
        ensures
            r.settings().output_path@ == default_output_path(),
            r.settings().sumatra_path is None,
            r.settings().headless,
    {
        PdfService { config: PdfConfig::new() }
    }

    /// A service with the given settings.
    pub fn with_config(config: PdfConfig) -> (r: PdfService)
        ensures
            r.settings() == config,
    {
        PdfService { config }
    }

    /// The settings the service runs with.
    pub fn config(&self) -> (r: &PdfConfig)
        ensures
            *r == self.settings(),
    {
        &self.config
    }
}

impl Default for PdfService {
    fn default() -> (r: PdfService)
        ensures
            r.settings().output_path@ == default_output_path(),
            r.settings().sumatra_path is None,
            r.settings().headless,
    {
        PdfService::new()
    }
}

} // verus!
