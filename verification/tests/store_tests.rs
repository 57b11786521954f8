use strangers::Date;
use strangers::arg::MedicinalBackendQueryArg;
use strangers::error::AppErrorType;
use strangers::form::CreateMedicinal;
use strangers::form::UpdateMedicinal;
use strangers::store::MemStore;
use strangers::store::PAGE_SIZE;

fn candidate(name: &str, category: &str, batch: &str, y: i32, m: u32, d: u32) -> CreateMedicinal {
    CreateMedicinal {
        name: name.to_string(),
        category: category.to_string(),
        batch_number: batch.to_string(),
        spec: "Empty".to_string(),
        count: "1".to_string(),
        validity: Date { year: y, month: m, day: d },
    }
}

fn plain_args() -> MedicinalBackendQueryArg {
    MedicinalBackendQueryArg {
        page: None,
        keyword: None,
        msg: None,
        is_del: None,
        expired: None,
        category: None,
    }
}

#[test]
fn create_assigns_sequential_ids() {
    let mut store = MemStore::new();
    let a = store.create(&candidate("a", "c", "b1", 2024, 1, 1)).unwrap();
    let b = store.create(&candidate("b", "c", "b2", 2024, 1, 2)).unwrap();
    assert_eq!(a.id, 1);
    assert_eq!(b.id, 2);
    assert_eq!(store.all().len(), 2);
}

#[test]
fn duplicate_triple_rejected() {
    let mut store = MemStore::new();
    store.create(&candidate("a", "c", "b1", 2024, 1, 1)).unwrap();
    let err = store.create(&candidate("a", "c", "b1", 2025, 2, 2)).unwrap_err();
    assert_eq!(err.error_type, AppErrorType::IsExists);
    // A different batch number is a different triple.
    assert!(store.create(&candidate("a", "c", "b2", 2025, 2, 2)).is_ok());
}

#[test]
fn deleted_record_frees_its_triple() {
    let mut store = MemStore::new();
    let id = store.create(&candidate("a", "c", "b1", 2024, 1, 1)).unwrap().id;
    assert!(store.delete(id));
    // The triple only counts among active records.
    assert!(store.create(&candidate("a", "c", "b1", 2024, 1, 1)).is_ok());
    assert!(store.recover(id));
    assert!(store.find(id).unwrap().is_del == false);
}

#[test]
fn find_and_not_found() {
    let mut store = MemStore::new();
    let id = store.create(&candidate("a", "c", "b1", 2024, 1, 1)).unwrap().id;
    let rec = store.find(id).unwrap();
    assert_eq!(rec.name, "a");
    assert_eq!(rec.notify_at, None);
    let err = store.find(999).unwrap_err();
    assert_eq!(err.error_type, AppErrorType::NotFound);
}

#[test]
fn update_replaces_fields() {
    let mut store = MemStore::new();
    let id = store.create(&candidate("a", "c", "b1", 2024, 1, 1)).unwrap().id;
    let ok = store.update(&UpdateMedicinal {
        id,
        name: "a2".to_string(),
        category: "c2".to_string(),
        batch_number: "b9".to_string(),
        spec: "s".to_string(),
        count: "7".to_string(),
        validity: Date { year: 2025, month: 6, day: 30 },
    });
    assert!(ok);
    let rec = store.find(id).unwrap();
    assert_eq!(rec.name, "a2");
    assert_eq!(rec.validity, Date { year: 2025, month: 6, day: 30 });
    assert!(!store.update(&UpdateMedicinal {
        id: 999,
        name: String::new(),
        category: String::new(),
        batch_number: String::new(),
        spec: String::new(),
        count: String::new(),
        validity: Date { year: 2024, month: 1, day: 1 },
    }));
}

#[test]
fn bulk_watermark_update() {
    let mut store = MemStore::new();
    let id1 = store.create(&candidate("a", "c", "b1", 2024, 1, 1)).unwrap().id;
    let id2 = store.create(&candidate("b", "c", "b2", 2024, 1, 2)).unwrap().id;
    let id3 = store.create(&candidate("c", "c", "b3", 2024, 1, 3)).unwrap().id;
    let marked = store.update_notify_at(&vec![id1, id3], 5000);
    assert_eq!(marked, 2);
    assert_eq!(store.find(id1).unwrap().notify_at, Some(5000));
    assert_eq!(store.find(id2).unwrap().notify_at, None);
    assert_eq!(store.find(id3).unwrap().notify_at, Some(5000));
}

#[test]
fn all_returns_active_only() {
    let mut store = MemStore::new();
    let id1 = store.create(&candidate("a", "c", "b1", 2024, 1, 1)).unwrap().id;
    store.create(&candidate("b", "c", "b2", 2024, 1, 2)).unwrap();
    store.delete(id1);
    let all = store.all();
    assert_eq!(all.len(), 1);
    assert_eq!(all[0].name, "b");
}

#[test]
fn categories_deduplicated_in_first_use_order() {
    let mut store = MemStore::new();
    store.create(&candidate("a", "x", "b1", 2024, 1, 1)).unwrap();
    store.create(&candidate("b", "y", "b2", 2024, 1, 2)).unwrap();
    store.create(&candidate("c", "x", "b3", 2024, 1, 3)).unwrap();
    let cats = store.categories();
    assert_eq!(cats.len(), 2);
    assert_eq!(cats[0].category, "x");
    assert_eq!(cats[1].category, "y");
}

#[test]
fn select_filters_by_keyword_and_band() {
    let mut store = MemStore::new();
    let today = Date { year: 2024, month: 6, day: 15 };
    store.create(&candidate("aspirin", "c", "b1", 2024, 6, 10)).unwrap();
    store.create(&candidate("ibuprofen", "c", "b2", 2024, 7, 1)).unwrap();
    store.create(&candidate("aspirin forte", "c", "b3", 2025, 1, 1)).unwrap();

    let mut args = plain_args();
    args.keyword = Some("aspirin".to_string());
    let page = store.select(&args, &today);
    assert_eq!(page.total_records, 2);
    assert_eq!(page.page_size, PAGE_SIZE);
    assert_eq!(page.data.len(), 2);

    // Band 1: already expired (on or before today).
    let mut args = plain_args();
    args.expired = Some(1);
    let page = store.select(&args, &today);
    assert_eq!(page.total_records, 1);
    assert_eq!(page.data[0].name, "aspirin");

    // Band 2: within (2 - 1) * 30 days of today.
    let mut args = plain_args();
    args.expired = Some(2);
    let page = store.select(&args, &today);
    assert_eq!(page.total_records, 1);
    assert_eq!(page.data[0].name, "ibuprofen");
}

#[test]
fn select_pages_results() {
    let mut store = MemStore::new();
    for i in 0..35 {
        store
            .create(&candidate(&format!("n{}", i), "c", &format!("b{}", i), 2024, 1, 1))
            .unwrap();
    }
    let args = plain_args();
    let today = Date { year: 2024, month: 6, day: 15 };
    let page0 = store.select(&args, &today);
    assert_eq!(page0.total_records, 35);
    assert_eq!(page0.total_pages, 2);
    assert_eq!(page0.data.len(), 30);
    let mut args1 = plain_args();
    args1.page = Some(1);
    let page1 = store.select(&args1, &today);
    assert_eq!(page1.data.len(), 5);
    let mut args9 = plain_args();
    args9.page = Some(9);
    let page9 = store.select(&args9, &today);
    assert_eq!(page9.data.len(), 0);
}

#[test]
fn upload_counts_inserts_and_skips_duplicates() {
    let mut store = MemStore::new();
    let records = vec![
        candidate("a", "c", "b1", 2024, 1, 1),
        candidate("a", "c", "b1", 2024, 1, 1),
        candidate("b", "c", "b2", 2024, 1, 2),
    ];
    let inserted = store.upload_into_store(&records);
    assert_eq!(inserted, 2);
    assert_eq!(store.all().len(), 2);
}

#[test]
fn exists_checks() {
    let mut store = MemStore::new();
    store.create(&candidate("a", "c", "b1", 2024, 1, 1)).unwrap();
    assert!(store.is_exists_name_category_batch_number("a", "c", "b1"));
    assert!(!store.is_exists_name_category_batch_number("a", "c", "b2"));
    assert!(store.is_exists_name_batch_number("a", "b1"));
    assert!(!store.is_exists_name_batch_number("z", "b1"));
}
