use strangers::Date;
use strangers::config::SmsConfig;
use strangers::form::CreateMedicinal;
use strangers::model::MedicinalList;
use strangers::sms::EXPIRED_DAYS;
use strangers::sms::INTERVAL_SCHEDULE_SECONDS;
use strangers::sms::NotifySms;
use strangers::sms::RENOTIFY_COOLDOWN;
use strangers::sms::SmsMessage;
use strangers::sms::build_sms;
use strangers::sms::do_work;
use strangers::sms::scan;
use strangers::sms::scheduler_plan;
use strangers::store::MemStore;

fn record(id: i32, name: &str, y: i32, m: u32, d: u32, notify_at: Option<i64>) -> MedicinalList {
    MedicinalList {
        id,
        category: "cat".to_string(),
        name: name.to_string(),
        batch_number: "b".to_string(),
        spec: "s".to_string(),
        count: "1".to_string(),
        validity: Date { year: y, month: m, day: d },
        is_del: false,
        notify_at,
    }
}

fn notify_context() -> (NotifySms, tokio::sync::mpsc::UnboundedReceiver<SmsMessage>) {
    let (tx, rx) = tokio::sync::mpsc::unbounded_channel();
    (
        NotifySms {
            template_code: "T1".to_string(),
            sign_name: "S1".to_string(),
            phones: vec!["18000000000".to_string()],
            tx,
        },
        rx,
    )
}

#[test]
fn scan_partitions_bands() {
    let today = Date { year: 2024, month: 6, day: 15 };
    let records = vec![
        record(1, "expired", 2024, 6, 14, None),
        record(2, "today", 2024, 6, 15, None),
        record(3, "soon", 2024, 7, 1, None),
        record(4, "far", 2025, 1, 1, None),
    ];
    let (expired, soon) = scan(&records, &today, 1000, 30);
    // Expiring today counts as expired, and only as expired: the two
    // bands are mutually exclusive.
    assert_eq!(expired.len(), 2);
    assert_eq!(expired[0].name, "expired");
    assert_eq!(expired[1].name, "today");
    assert_eq!(soon.len(), 1);
    assert_eq!(soon[0].name, "soon");
}

#[test]
fn scan_skips_deleted_records() {
    let today = Date { year: 2024, month: 6, day: 15 };
    let mut rec = record(1, "expired", 2024, 6, 1, None);
    rec.is_del = true;
    let (expired, soon) = scan(&vec![rec], &today, 1000, 30);
    assert_eq!(expired.len(), 0);
    assert_eq!(soon.len(), 0);
}

#[test]
fn cooldown_excludes_recently_notified() {
    // A record whose watermark lies one hour in the future (a dispatch
    // ran recently) is excluded from both bands.
    let today = Date { year: 2024, month: 6, day: 15 };
    let now: i64 = 100_000;
    let records = vec![
        record(1, "muted-expired", 2024, 6, 1, Some(now + 3600)),
        record(2, "muted-soon", 2024, 6, 20, Some(now + 3600)),
        record(3, "due", 2024, 6, 1, Some(now - 1)),
    ];
    let (expired, soon) = scan(&records, &today, now, 30);
    assert_eq!(expired.len(), 1);
    assert_eq!(expired[0].name, "due");
    assert_eq!(soon.len(), 0);
}

#[test]
fn message_payload_texts() {
    let (notify, _rx) = notify_context();
    let item = record(1, "阿司匹林", 2024, 1, 1, None);
    let msg = build_sms(&item, &notify, "已经过期药品");
    assert_eq!(msg.param.name, "已经过期药品:阿司匹林-b-cat");
    assert_eq!(msg.param.code, "有效期:2024-01-01");
    assert_eq!(msg.phones, vec!["18000000000".to_string()]);
    assert_eq!(msg.sign_name, "S1");
    assert_eq!(msg.template_code, "T1");
    assert_eq!(msg.out_id, Some("123".to_string()));
}

#[test]
fn dispatch_cycle_marks_watermark_and_quiets_rescan() {
    // One active record expired yesterday and never notified: a scan
    // places it in the expired band only; after a dispatch cycle its
    // watermark is now + 24h, and an immediate re-scan yields nothing.
    let mut store = MemStore::new();
    let today = Date { year: 2024, month: 6, day: 15 };
    let now: i64 = 1_000_000;
    store
        .create(&CreateMedicinal {
            name: "阿司匹林".to_string(),
            category: "cat".to_string(),
            batch_number: "B001".to_string(),
            spec: "s".to_string(),
            count: "1".to_string(),
            validity: Date { year: 2024, month: 6, day: 14 },
        })
        .unwrap();

    let (expired, soon) = scan(&store.all(), &today, now, 30);
    assert_eq!(expired.len(), 1);
    assert_eq!(soon.len(), 0);

    let (notify, mut rx) = notify_context();
    let (sent_expired, sent_soon) = do_work(&mut store, &notify, &today, now, 30);
    assert_eq!(sent_expired, 1);
    assert_eq!(sent_soon, 0);

    let msg = rx.try_recv().unwrap();
    assert_eq!(msg.param.name, "已经过期药品:阿司匹林-B001-cat");
    assert_eq!(msg.param.code, "有效期:2024-06-14");
    assert!(rx.try_recv().is_err());

    let rec = store.find(1).unwrap();
    assert_eq!(rec.notify_at, Some(now + RENOTIFY_COOLDOWN));
    assert_eq!(rec.notify_at, Some(now + 86400));

    let (expired2, soon2) = scan(&store.all(), &today, now, 30);
    assert_eq!(expired2.len(), 0);
    assert_eq!(soon2.len(), 0);
}

#[test]
fn soon_band_notification() {
    let mut store = MemStore::new();
    let today = Date { year: 2024, month: 6, day: 15 };
    store
        .create(&CreateMedicinal {
            name: "soonish".to_string(),
            category: "c".to_string(),
            batch_number: "b".to_string(),
            spec: "s".to_string(),
            count: "1".to_string(),
            validity: Date { year: 2024, month: 7, day: 1 },
        })
        .unwrap();
    let (notify, mut rx) = notify_context();
    let (sent_expired, sent_soon) = do_work(&mut store, &notify, &today, 500, 30);
    assert_eq!(sent_expired, 0);
    assert_eq!(sent_soon, 1);
    let msg = rx.try_recv().unwrap();
    assert_eq!(msg.param.name, "即将过期药品:soonish-b-c");
}

#[test]
fn scheduler_decision() {
    assert_eq!(scheduler_plan(&None), None);
    let disabled = SmsConfig {
        check_interval: Some(60),
        send_sms_toggle: Some(false),
        expired_days: Some(30),
        phones: None,
    };
    assert_eq!(scheduler_plan(&Some(disabled)), None);
    let no_toggle = SmsConfig {
        check_interval: Some(60),
        send_sms_toggle: None,
        expired_days: Some(30),
        phones: None,
    };
    assert_eq!(scheduler_plan(&Some(no_toggle)), None);
    let on = SmsConfig {
        check_interval: Some(60),
        send_sms_toggle: Some(true),
        expired_days: Some(30),
        phones: None,
    };
    assert_eq!(scheduler_plan(&Some(on)), Some(60));
    let on_default = SmsConfig {
        check_interval: None,
        send_sms_toggle: Some(true),
        expired_days: None,
        phones: None,
    };
    assert_eq!(scheduler_plan(&Some(on_default)), Some(INTERVAL_SCHEDULE_SECONDS));
    assert_eq!(INTERVAL_SCHEDULE_SECONDS, 120);
    assert_eq!(EXPIRED_DAYS, 30);
}
