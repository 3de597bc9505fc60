use print_pdf_service::text_utils::{align_rows, prepare_ryohi_for_print, wrap_detail, wrap_kukan, RyohiPrintData};
use print_pdf_service::Ryohi;

fn strings(v: &[&str]) -> Vec<String> {
    v.iter().map(|s| s.to_string()).collect()
}

#[test]
fn test_wrap_detail_empty() {
    let result = wrap_detail(&[], 10);
    assert_eq!(result.row_count, 0);
    assert!(result.lines.is_empty());
}

#[test]
fn test_wrap_detail_single() {
    let details = vec!["テスト".to_string()];
    let result = wrap_detail(&details, 10);
    assert_eq!(result.row_count, 1);
    assert_eq!(result.lines[0], "テスト");
}

#[test]
fn test_wrap_detail_multiple_fit_in_one_line() {
    let details = vec!["A".to_string(), "B".to_string(), "C".to_string()];
    let result = wrap_detail(&details, 10);
    assert_eq!(result.row_count, 1);
    assert_eq!(result.lines[0], "A、B、C");
}

#[test]
fn test_wrap_detail_multiple_lines() {
    let details = vec![
        "あいうえお".to_string(),
        "かきくけこ".to_string(),
        "さしすせそ".to_string(),
    ];
    let result = wrap_detail(&details, 10);
    assert!(result.row_count >= 2);
}

#[test]
fn wrap_detail_multiple_lines_exact() {
    let details = strings(&["あいうえお", "かきくけこ", "さしすせそ"]);
    let result = wrap_detail(&details, 10);
    assert_eq!(result.row_count, 3);
    assert_eq!(result.lines, strings(&["あいうえお", "かきくけこ", "さしすせそ"]));
}

#[test]
fn wrap_detail_packs_greedily() {
    let details = strings(&["交通費", "宿泊費", "日当", "駐車料"]);
    let result = wrap_detail(&details, 10);
    assert_eq!(result.lines, strings(&["交通費、宿泊費、日当", "駐車料"]));
    assert_eq!(result.row_count, 2);
}

#[test]
fn wrap_detail_truncates_long_fragment() {
    let details = strings(&["AB", "あいうえおかきくけこさし"]);
    let result = wrap_detail(&details, 10);
    assert_eq!(result.lines, strings(&["AB", "あいうえおかきくけこ"]));
    for line in &result.lines {
        assert!(line.chars().count() <= 10);
    }
}

#[test]
fn wrap_detail_drops_blank_lines() {
    let details = strings(&["   "]);
    let result = wrap_detail(&details, 10);
    assert_eq!(result.row_count, 0);
    assert!(result.lines.is_empty());
}

#[test]
fn wrap_detail_exact_fit() {
    let details = strings(&["あいうえ", "かきくけこ"]);
    let result = wrap_detail(&details, 10);
    assert_eq!(result.lines, strings(&["あいうえ、かきくけこ"]));
}

#[test]
fn test_wrap_kukan_empty() {
    let result = wrap_kukan("", 22);
    assert_eq!(result.row_count, 1);
    assert_eq!(result.lines[0], "");
}

#[test]
fn wrap_kukan_empty_any_width() {
    for n in [0usize, 1, 5, 22] {
        let result = wrap_kukan("", n);
        assert_eq!(result.row_count, 1);
        assert_eq!(result.lines, strings(&[""]));
    }
}

#[test]
fn test_wrap_kukan_simple() {
    let result = wrap_kukan("東京　大阪", 22);
    assert!(result.row_count >= 1);
}

#[test]
fn wrap_kukan_simple_exact() {
    let result = wrap_kukan("東京　大阪", 22);
    assert_eq!(result.lines, strings(&["東京　大阪"]));
    assert_eq!(result.row_count, 1);
}

#[test]
fn wrap_kukan_normalizes_delimiters() {
    let result = wrap_kukan("大阪 東京|京都｜博多", 22);
    assert_eq!(result.lines, strings(&["大阪　東京　京都　博多"]));
}

#[test]
fn wrap_kukan_space_pipe_delimiter() {
    let result = wrap_kukan("大阪 |東京", 22);
    assert_eq!(result.lines, strings(&["大阪　　東京"]));
}

#[test]
fn wrap_kukan_wraps_lines() {
    let result = wrap_kukan("ab cd ef", 5);
    assert_eq!(result.lines, strings(&["ab　cd", "ef"]));
    assert_eq!(result.row_count, 2);
}

#[test]
fn wrap_kukan_segment_fills_line() {
    let result = wrap_kukan("abcde fg", 5);
    assert_eq!(result.lines, strings(&["abcde", "fg"]));
}

#[test]
fn wrap_kukan_exceed() {
    let result = wrap_kukan("東京 あいうえおかきくけこさしすせそたちつてとなにぬ", 22);
    assert!(result.lines.contains(&"exceed*".to_string()));
    assert_eq!(result.lines, strings(&["exceed*"]));
    let result = wrap_kukan("あいうえおかきくけこさしすせそたちつてとなにぬ 東京", 22);
    assert_eq!(result.lines, strings(&["exceed*", "東京"]));
}

#[test]
fn wrap_kukan_repairs_known_inputs() {
    let result = wrap_kukan("博多_九州外空車適用", 22);
    assert_eq!(result.lines, strings(&["博多　九州外空車適用"]));
    let result = wrap_kukan("適用*   追加", 22);
    assert_eq!(result.lines, strings(&["適用*　追加"]));
}

#[test]
fn test_align_rows() {
    let (date, dest, price, vol) = align_rows(Some("2024-01-15"), Some("東京"), Some(1000), Some(15), 3);

    assert_eq!(date.len(), 3);
    assert_eq!(date[0], "01/15");
    assert_eq!(date[1], "");

    assert_eq!(dest[0], "東京");
    assert_eq!(price[0], "1,000");
    assert_eq!(vol[0], "1.5");
}

#[test]
fn align_rows_scenario_full_columns() {
    let (date, dest, price, vol) = align_rows(Some("2024-01-15"), Some("東京"), Some(1000), Some(15), 3);
    assert_eq!(date, strings(&["01/15", "", ""]));
    assert_eq!(dest, strings(&["東京", "", ""]));
    assert_eq!(price, strings(&["1,000", "", ""]));
    assert_eq!(vol, strings(&["1.5", "", ""]));
}

#[test]
fn align_rows_passes_odd_dates_and_absent_fields() {
    let (date, dest, price, vol) = align_rows(Some("1/15"), None, None, Some(-5), 2);
    assert_eq!(date, strings(&["1/15", ""]));
    assert_eq!(dest, strings(&["", ""]));
    assert_eq!(price, strings(&["", ""]));
    assert_eq!(vol, strings(&["-0.5", ""]));
}

#[test]
fn test_prepare_ryohi_for_print() {
    let ryohi = Ryohi {
        date: Some("2024-01-15".to_string()),
        dest: Some("東京".to_string()),
        detail: vec!["交通費".to_string(), "宿泊費".to_string()],
        kukan: Some("大阪　東京".to_string()),
        price: Some(10000),
        vol: Some(10),
        ..Default::default()
    };

    let print_data = prepare_ryohi_for_print(&ryohi, 10, 22);

    assert!(print_data.max_rows >= 1);
    assert_eq!(print_data.get_date(0), "01/15");
    assert_eq!(print_data.get_dest(0), "東京");
    assert!(!print_data.get_detail(0).is_empty() || !print_data.get_kukan(0).is_empty());
}

#[test]
fn prepare_ryohi_exact_rows() {
    let ryohi = Ryohi {
        date: Some("2024-01-15".to_string()),
        dest: Some("東京".to_string()),
        detail: strings(&["あいうえお", "かきくけこ"]),
        kukan: Some("大阪　東京".to_string()),
        price: Some(-1234567),
        vol: Some(10),
        ..Default::default()
    };
    let p = prepare_ryohi_for_print(&ryohi, 10, 22);
    assert_eq!(p.max_rows, 2);
    assert_eq!(p.date_lines, strings(&["01/15", ""]));
    assert_eq!(p.dest_lines, strings(&["東京", ""]));
    assert_eq!(p.detail_lines, strings(&["あいうえお", "かきくけこ"]));
    assert_eq!(p.kukan_lines, strings(&["大阪　東京", ""]));
    assert_eq!(p.price_lines, strings(&["-1,234,567", ""]));
    assert_eq!(p.vol_lines, strings(&["1.0", ""]));
    assert!(p.has_content_in_row(1));
    assert!(!p.has_content_in_row(2));
}

#[test]
fn prepare_ryohi_columns_have_equal_length() {
    let ryohi = Ryohi {
        detail: strings(&["A"]),
        kukan: Some("ab cd ef gh".to_string()),
        ..Default::default()
    };
    let p = prepare_ryohi_for_print(&ryohi, 10, 5);
    assert_eq!(p.max_rows, 2);
    for col in [&p.date_lines, &p.dest_lines, &p.detail_lines, &p.kukan_lines, &p.price_lines, &p.vol_lines] {
        assert_eq!(col.len(), 2);
    }
    assert_eq!(p.kukan_lines, strings(&["ab　cd", "ef　gh"]));
}

#[test]
fn prepare_ryohi_empty_record() {
    let ryohi = Ryohi::default();
    let p = prepare_ryohi_for_print(&ryohi, 10, 22);
    assert_eq!(p.max_rows, 1);
    assert_eq!(p.detail_lines, strings(&[""]));
    assert_eq!(p.kukan_lines, strings(&[""]));
    assert!(!p.has_content_in_row(0));
}

#[test]
fn prepare_ryohi_is_repeatable() {
    let ryohi = Ryohi {
        date: Some("2024-02-03".to_string()),
        detail: strings(&["交通費", "宿泊費", "日当", "駐車料"]),
        kukan: Some("大阪 東京 名古屋".to_string()),
        price: Some(3000),
        ..Default::default()
    };
    let a = prepare_ryohi_for_print(&ryohi, 10, 22);
    let b = prepare_ryohi_for_print(&ryohi, 10, 22);
    assert_eq!(a.max_rows, b.max_rows);
    assert_eq!(a.date_lines, b.date_lines);
    assert_eq!(a.dest_lines, b.dest_lines);
    assert_eq!(a.detail_lines, b.detail_lines);
    assert_eq!(a.kukan_lines, b.kukan_lines);
    assert_eq!(a.price_lines, b.price_lines);
    assert_eq!(a.vol_lines, b.vol_lines);
}

#[test]
fn test_ryohi_print_data_has_content() {
    let data = RyohiPrintData {
        date_lines: vec!["01/15".to_string(), "".to_string()],
        dest_lines: vec!["東京".to_string(), "".to_string()],
        detail_lines: vec!["交通費".to_string(), "宿泊費".to_string()],
        kukan_lines: vec!["大阪　東京".to_string(), "".to_string()],
        price_lines: vec!["10,000".to_string(), "".to_string()],
        vol_lines: vec!["1.0".to_string(), "".to_string()],
        max_rows: 2,
    };

    assert!(data.has_content_in_row(0));
    assert!(data.has_content_in_row(1));
    assert!(!data.has_content_in_row(10));
}

#[test]
fn print_data_blank_row_has_no_content() {
    let data = RyohiPrintData {
        date_lines: strings(&["", ""]),
        dest_lines: strings(&["", "　"]),
        detail_lines: strings(&["", " "]),
        kukan_lines: strings(&["", ""]),
        price_lines: strings(&["", ""]),
        vol_lines: strings(&["", "1.0"]),
        max_rows: 2,
    };
    assert!(!data.has_content_in_row(0));
    assert!(data.has_content_in_row(1));
    assert_eq!(data.get_vol(1), "1.0");
    assert_eq!(data.get_date(5), "");
}
