use strangers::Date;
use strangers::ingest::default_validity_date;
use strangers::ingest::load_csv;
use strangers::ingest::parse_validity;
use strangers::ingest::process_rows;
use strangers::ingest::upload_filename_ok;

fn row(cells: &[&str]) -> Vec<String> {
    cells.iter().map(|c| c.to_string()).collect()
}

#[test]
fn scenario_category_header_and_record() {
    // An upload with a category row, a header row, and one data row.
    let rows = vec![
        row(&["类目A", "", "", ""]),
        row(&["药品", "有效期", "数量", "批号"]),
        row(&["阿司匹林", "2024-01-01", "10", "B001"]),
    ];
    let (records, attempted, accepted) = process_rows(&rows);
    assert_eq!(attempted, 1);
    assert_eq!(accepted, 1);
    assert_eq!(records.len(), 1);
    let r = &records[0];
    assert_eq!(r.name, "阿司匹林");
    assert_eq!(r.validity, Date { year: 2024, month: 1, day: 1 });
    assert_eq!(r.count, "10");
    assert_eq!(r.batch_number, "B001");
    assert_eq!(r.category, "类目A");
    assert_eq!(r.spec, "Empty");
}

#[test]
fn same_column_header_never_resolves() {
    // The name and validity keywords land on the same cell, so no
    // header is accepted and nothing is ingested.
    let rows = vec![
        row(&["药品有效期", "", "x", ""]),
        row(&["阿司匹林", "2024-01-01", "10", "B001"]),
    ];
    let (records, attempted, accepted) = process_rows(&rows);
    assert_eq!(records.len(), 0);
    assert_eq!(attempted, 0);
    assert_eq!(accepted, 0);
}

#[test]
fn empty_name_counts_attempted_not_accepted() {
    let rows = vec![
        row(&["药品", "有效期", "数量", "批号"]),
        row(&["   ", "2024-01-01", "10", "B001"]),
        row(&["阿司匹林", "2024-01-01", "10", "B001"]),
    ];
    let (records, attempted, accepted) = process_rows(&rows);
    assert_eq!(attempted, 2);
    assert_eq!(accepted, 1);
    assert_eq!(records.len(), 1);
    assert_eq!(records[0].name, "阿司匹林");
}

#[test]
fn none_marker_gets_default_validity() {
    // A validity cell reading 无 fails date parsing and gets the fixed
    // far-future default.
    let rows = vec![
        row(&["药品", "有效期"]),
        row(&["阿司匹林", " 无 "]),
    ];
    let (records, attempted, accepted) = process_rows(&rows);
    assert_eq!(attempted, 1);
    assert_eq!(accepted, 1);
    assert_eq!(records[0].validity, Date { year: 2099, month: 12, day: 31 });
    assert_eq!(records[0].validity, default_validity_date());
}

#[test]
fn unparseable_validity_rejected() {
    let rows = vec![
        row(&["药品", "有效期"]),
        row(&["阿司匹林", "not a date at all"]),
    ];
    let (records, attempted, accepted) = process_rows(&rows);
    assert_eq!(attempted, 1);
    assert_eq!(accepted, 0);
    assert_eq!(records.len(), 0);
}

#[test]
fn reingest_unchanged_rows_is_idempotent() {
    // Re-running the classifier and ingestor on the same rows yields
    // the same record set: there is no hidden state across calls.
    let rows = vec![
        row(&["类目A", "", "", ""]),
        row(&["药品", "有效期", "数量", "批号"]),
        row(&["阿司匹林", "2024-01-01", "10", "B001"]),
        row(&["布洛芬", "无", "", "B002"]),
    ];
    let (r1, at1, ac1) = process_rows(&rows);
    let (r2, at2, ac2) = process_rows(&rows);
    assert_eq!(r1, r2);
    assert_eq!(at1, at2);
    assert_eq!(ac1, ac2);
}

#[test]
fn skip_keyword_row_not_counted() {
    let rows = vec![
        row(&["药品", "有效期"]),
        row(&["某人", "签名处"]),
        row(&["阿司匹林", "2024-01-01"]),
    ];
    let (records, attempted, accepted) = process_rows(&rows);
    assert_eq!(attempted, 1);
    assert_eq!(accepted, 1);
    assert_eq!(records.len(), 1);
}

#[test]
fn blank_and_short_rows_skipped() {
    let rows = vec![
        row(&["only-one-cell"]),
        row(&["  ", "", " "]),
        row(&["药品", "有效期"]),
        row(&["阿司匹林", "2024-01-01"]),
    ];
    let (_, attempted, accepted) = process_rows(&rows);
    assert_eq!(attempted, 1);
    assert_eq!(accepted, 1);
}

#[test]
fn empty_optional_fields_get_sentinel() {
    let rows = vec![
        row(&["药品", "有效期", "数量", "批号", "规格"]),
        row(&["阿司匹林", "2024-01-01", " ", "", ""]),
    ];
    let (records, _, _) = process_rows(&rows);
    assert_eq!(records[0].count, "Empty");
    assert_eq!(records[0].batch_number, "Empty");
    assert_eq!(records[0].spec, "Empty");
    assert_eq!(records[0].category, "Empty");
}

#[test]
fn load_csv_without_header_yields_nothing() {
    // No line carries the header keywords, so no header resolves and
    // no data row is ingested: empty result, not an error.
    let text = "name,expiry\naspirin,2024-03-05\n";
    let data: Vec<u8> = text.bytes().collect();
    let (records, attempted, accepted) = load_csv(&data).unwrap();
    assert_eq!(records.len(), 0);
    assert_eq!(attempted, 0);
    assert_eq!(accepted, 0);
}

#[test]
fn load_csv_gbk_bytes() {
    // A legacy GBK-encoded upload is normalized before tokenizing.
    let text = "类目A,,,\n药品,有效期,数量,批号\n阿司匹林,2024-01-01,10,B001\n";
    let (encoded, _, _) = encoding_rs::GBK.encode(text);
    let data: Vec<u8> = encoded.into_owned();
    let (records, attempted, accepted) = load_csv(&data).unwrap();
    assert_eq!(attempted, 1);
    assert_eq!(accepted, 1);
    assert_eq!(records[0].name, "阿司匹林");
    assert_eq!(records[0].category, "类目A");
    assert_eq!(records[0].batch_number, "B001");
}

#[test]
fn parse_validity_formats() {
    assert_eq!(
        parse_validity("2024-01-01"),
        Some(Date { year: 2024, month: 1, day: 1 })
    );
    assert_eq!(parse_validity("无"), None);
    assert_eq!(parse_validity(""), None);
}

#[test]
fn ragged_data_row_reads_missing_cells_as_empty() {
    // A data row shorter than the header: unmapped or missing cells
    // fall back to the sentinel.
    let rows = vec![
        row(&["药品", "有效期", "数量", "批号"]),
        row(&["阿司匹林", "2024-01-01"]),
    ];
    let (records, _, accepted) = process_rows(&rows);
    assert_eq!(accepted, 1);
    assert_eq!(records[0].count, "Empty");
    assert_eq!(records[0].batch_number, "Empty");
}

#[test]
fn late_category_row_applies_to_later_records() {
    // A name-only row after the header still reads as the category row
    // when none was seen yet; records before it keep the sentinel.
    let rows = vec![
        row(&["药品", "有效期"]),
        row(&["阿司匹林", "2024-01-01"]),
        row(&["类目B", ""]),
        row(&["布洛芬", "2024-02-02"]),
    ];
    let (records, attempted, accepted) = process_rows(&rows);
    assert_eq!(attempted, 2);
    assert_eq!(accepted, 2);
    assert_eq!(records[0].category, "Empty");
    assert_eq!(records[1].category, "类目B");
}

#[test]
fn upload_extension_check() {
    assert!(upload_filename_ok("a.csv"));
    assert!(upload_filename_ok("data.2023.csv"));
    assert!(!upload_filename_ok(".csv"));
    assert!(!upload_filename_ok("a.xlsx"));
    assert!(!upload_filename_ok("acsv"));
    assert!(!upload_filename_ok("a.CSV"));
}
