use print_pdf_service::layout::{format_date_mmdd, format_pay_day_full};
use print_pdf_service::models::format_tenths;
use print_pdf_service::{format_price, parse_date, parse_pay_day};

#[test]
fn test_format_price() {
    assert_eq!(format_price(1000), "1,000");
    assert_eq!(format_price(12345), "12,345");
    assert_eq!(format_price(1234567), "1,234,567");
    assert_eq!(format_price(0), "0");
    assert_eq!(format_price(-1000), "-1,000");
}

#[test]
fn format_price_edges() {
    assert_eq!(format_price(999), "999");
    assert_eq!(format_price(-7), "-7");
    assert_eq!(format_price(100000), "100,000");
    assert_eq!(format_price(i32::MAX), "2,147,483,647");
    assert_eq!(format_price(i32::MIN), "-2,147,483,648");
}

#[test]
fn format_tenths_values() {
    assert_eq!(format_tenths(15), "1.5");
    assert_eq!(format_tenths(10), "1.0");
    assert_eq!(format_tenths(0), "0.0");
    assert_eq!(format_tenths(-5), "-0.5");
    assert_eq!(format_tenths(12345), "1234.5");
}

#[test]
fn test_parse_date() {
    assert_eq!(parse_date("2024-01-15"), "2024年01月15日");
    assert_eq!(parse_date(""), "");
}

#[test]
fn parse_date_keeps_other_text() {
    assert_eq!(parse_date("2024/01/15"), "2024/01/15");
    assert_eq!(parse_date("2024-01"), "2024-01");
}

#[test]
fn test_parse_pay_day() {
    assert_eq!(parse_pay_day("2024/01/25"), "2024年01月25日");
    assert_eq!(parse_pay_day(""), "");
}

#[test]
fn test_format_date_mmdd() {
    assert_eq!(format_date_mmdd("2024-01-15"), Some("01　 15".to_string()));
    assert_eq!(format_date_mmdd("invalid"), Some("invalid".to_string()));
}

#[test]
fn test_format_pay_day_full() {
    assert_eq!(format_pay_day_full("2024/01/25"), Some("清算日　2024年 01月 25日".to_string()));
    assert_eq!(format_pay_day_full("2024-01-25"), Some("清算日　2024年 01月 25日".to_string()));
}

#[test]
fn format_pay_day_full_rejects_other_shapes() {
    assert_eq!(format_pay_day_full("20240125"), None);
    assert_eq!(format_pay_day_full("2024/01"), None);
}
