//! Travel-expense form layout: wrapping of free-text fields, row alignment
//! of scalar fields, and packing of formatted rows onto a page.

pub mod chars;
pub mod config;
pub mod error;
pub mod fonts;
pub mod layout;
pub mod models;
pub mod route;
pub mod service;
pub mod sumatra;
pub mod text_utils;

pub use config::PdfConfig;
pub use error::PdfError;
pub use fonts::FontLoader;
pub use layout::{Column, PlacedText, place_ryohi_items};
pub use models::{Ryohi, format_price, parse_date, parse_pay_day};
pub use service::{PdfResult, PdfService};
pub use sumatra::SumatraPrinter;
pub use text_utils::{
    RyohiPrintData, TextWrapResult, align_rows, prepare_ryohi_for_print, wrap_detail, wrap_kukan,
};
