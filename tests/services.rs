use print_pdf_service::config::PdfConfig;
use print_pdf_service::fonts::font_candidates;
use print_pdf_service::sumatra::{parse_default_printer, parse_printer_list};
use print_pdf_service::{FontLoader, PdfError, PdfService, SumatraPrinter};

#[test]
fn test_font_loader_find_font() {
    let mut loader = FontLoader::new();
    let _ = loader.find_font(&[], &[]);
}

#[test]
fn font_loader_picks_first_present() {
    let mut loader = FontLoader::new();
    let names = font_candidates();
    assert_eq!(names[0], "yumin.ttf");
    assert_eq!(names.len(), 6);
    let missing = loader.find_font(&names, &[false; 6]);
    assert!(matches!(missing, Err(PdfError::FontLoad(_))));
    assert!(loader.font_path().is_none());
    let found = loader.find_font(&names, &[false, false, false, true, true, false]);
    assert_eq!(found, Ok("meiryo.ttc".to_string()));
    assert_eq!(loader.font_path(), Some(&"meiryo.ttc".to_string()));
}

#[test]
fn test_sumatra_printer_new() {
    let printer = SumatraPrinter::new();
    assert!(printer.path().is_none());
}

#[test]
fn test_sumatra_printer_with_path() {
    let printer = SumatraPrinter::new().with_path("C:\\SumatraPDF.exe".to_string());
    assert!(printer.path().is_some());
}

#[test]
fn sumatra_find_records_result() {
    let mut printer = SumatraPrinter::new();
    assert!(matches!(printer.find_sumatra(None), Err(PdfError::Print(_))));
    assert!(printer.path().is_none());
    assert_eq!(printer.find_sumatra(Some("C:\\SumatraPDF.exe".to_string())), Ok("C:\\SumatraPDF.exe".to_string()));
    assert_eq!(printer.path(), Some(&"C:\\SumatraPDF.exe".to_string()));
}

#[test]
fn printer_listing_is_parsed() {
    assert_eq!(parse_printer_list("HP LaserJet\r\n  Canon \n\n"), vec!["HP LaserJet".to_string(), "Canon".to_string()]);
    assert!(parse_printer_list("").is_empty());
    assert_eq!(parse_default_printer(" Brother \r\n"), Some("Brother".to_string()));
    assert_eq!(parse_default_printer("  \n"), None);
}

#[test]
fn test_pdf_service_new() {
    let service = PdfService::new();
    assert!(service.config().output_path.contains("output"));
}

#[test]
fn config_builders_and_values() {
    let c = PdfConfig::new()
        .with_output_path("/tmp/out".to_string())
        .with_sumatra_path("C:\\S.exe".to_string())
        .with_headless(false);
    assert_eq!(c.output_path, "/tmp/out");
    assert_eq!(c.sumatra_path, Some("C:\\S.exe".to_string()));
    assert!(!c.headless);
    let d = PdfConfig::from_values(None, None, Some("FALSE".to_string()));
    assert_eq!(d.output_path, "./output");
    assert!(!d.headless);
    assert!(PdfConfig::from_values(None, None, Some("no".to_string())).headless);
    assert!(PdfConfig::from_values(None, None, None).headless);
    let s = PdfService::with_config(c);
    assert_eq!(s.config().output_path, "/tmp/out");
}
