use print_pdf_service::layout::{
    COL_X_DATE, COL_X_DEST, COL_X_DETAIL, COL_X_KUKAN, COL_X_PRICE, COL_X_VOL, MAX_LOGICAL_ROWS_PER_PAGE,
};
use print_pdf_service::{place_ryohi_items, Column, PlacedText, Ryohi};

fn record(date: &str, detail: &[&str], kukan: &str) -> Ryohi {
    Ryohi {
        date: Some(date.to_string()),
        detail: detail.iter().map(|s| s.to_string()).collect(),
        kukan: Some(kukan.to_string()),
        ..Default::default()
    }
}

fn view(t: &PlacedText) -> (Column, usize, usize, String) {
    (t.column, t.physical_row, t.sub_row, t.text.clone())
}

#[test]
fn test_column_positions() {
    assert!(COL_X_DEST > COL_X_DATE);
    assert!(COL_X_DETAIL > COL_X_DEST);
    assert!(COL_X_KUKAN > COL_X_DETAIL);
    assert!(COL_X_PRICE > COL_X_KUKAN);
    assert!(COL_X_VOL > COL_X_PRICE);
}

#[test]
fn place_one_full_record() {
    let r = Ryohi {
        date: Some("2024-01-15".to_string()),
        dest: Some("東京".to_string()),
        detail: vec!["交通費".to_string(), "宿泊費".to_string()],
        kukan: Some("大阪　東京".to_string()),
        price: Some(10000),
        vol: Some(10),
    };
    let placed: Vec<_> = place_ryohi_items(&[r], MAX_LOGICAL_ROWS_PER_PAGE).iter().map(view).collect();
    assert_eq!(
        placed,
        vec![
            (Column::Date, 0, 0, "01/15".to_string()),
            (Column::Dest, 0, 0, "東京".to_string()),
            (Column::Detail, 0, 0, "交通費、宿泊費".to_string()),
            (Column::Kukan, 0, 0, "大阪　東京".to_string()),
            (Column::Price, 0, 0, "10,000".to_string()),
            (Column::Vol, 0, 0, "1.0".to_string()),
        ]
    );
}

#[test]
fn place_two_rows_share_a_table_row() {
    let a = record("2024-01-15", &["あいうえお", "かきくけこ"], "");
    let b = record("2024-01-16", &["X"], "");
    let placed: Vec<_> = place_ryohi_items(&[a, b], 14).iter().map(view).collect();
    assert_eq!(
        placed,
        vec![
            (Column::Date, 0, 0, "01/15".to_string()),
            (Column::Detail, 0, 0, "あいうえお".to_string()),
            (Column::Detail, 0, 1, "かきくけこ".to_string()),
            (Column::Date, 1, 0, "01/16".to_string()),
            (Column::Detail, 1, 0, "X".to_string()),
        ]
    );
}

#[test]
fn place_skips_rows_without_content() {
    let empty = Ryohi::default();
    let b = record("2024-01-16", &["X"], "");
    let placed: Vec<_> = place_ryohi_items(&[empty, b], 14).iter().map(view).collect();
    assert_eq!(
        placed,
        vec![(Column::Date, 0, 0, "01/16".to_string()), (Column::Detail, 0, 0, "X".to_string())]
    );
}

#[test]
fn place_stops_when_budget_is_spent() {
    let a = record("2024-01-15", &["あいうえお", "かきくけこ", "さしすせそ"], "");
    let b = record("2024-01-16", &["X"], "");
    let placed: Vec<_> = place_ryohi_items(&[a, b], 2).iter().map(view).collect();
    assert_eq!(
        placed,
        vec![
            (Column::Date, 0, 0, "01/15".to_string()),
            (Column::Detail, 0, 0, "あいうえお".to_string()),
            (Column::Detail, 0, 1, "かきくけこ".to_string()),
        ]
    );
    assert!(place_ryohi_items(&[record("2024-01-15", &["A"], "")], 0).is_empty());
}

#[test]
fn place_fills_a_whole_page() {
    let records: Vec<Ryohi> = (0..20).map(|i| record(&format!("2024-01-{:02}", i + 1), &["A"], "")).collect();
    let placed = place_ryohi_items(&records, MAX_LOGICAL_ROWS_PER_PAGE);
    assert_eq!(placed.len(), 2 * MAX_LOGICAL_ROWS_PER_PAGE);
    let last = placed.last().unwrap();
    assert_eq!((last.physical_row, last.sub_row), (6, 1));
}
