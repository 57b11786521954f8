//! Expiry-driven notifications: the scanner that partitions due records
//! into two urgency bands, the dispatcher that builds message payloads
//! and hands them to the asynchronous send queue, and the scheduler
//! decision.

use vstd::prelude::*;

use vstd::string::StringExecFns;

use crate::config::SmsConfig;
use crate::dates::Date;
use crate::dates::add_days;
use crate::dates::spec_add_days;
use crate::dates::spec_format_ymd;
use crate::model::MedicinalList;
use crate::model::MedicinalView;
use crate::store::MemStore;
use crate::store::clone_record;
use crate::store::mark_seq;

verus! {

/// Seconds the dispatcher pushes a record's cooldown watermark into the
/// future after handing its notification off.
///
/// The watermark is set to `now + RENOTIFY_COOLDOWN` rather than `now`:
/// a deliberate skew, so that scans within the cooldown window skip the
/// record without comparing ages.  If the watermark update fails the
/// record is simply re-scanned and may be re-notified on a later cycle
/// — delivery is at-least-once, best-effort.
pub const RENOTIFY_COOLDOWN: i64 = 86400;

/// Default warning horizon of the soon-to-expire band, in days.
pub const EXPIRED_DAYS: i64 = 30;

/// Default seconds between scheduler ticks.
pub const INTERVAL_SCHEDULE_SECONDS: u64 = 120;

#[verifier::external_type_specification]
#[verifier::external_body]
#[verifier::reject_recursive_types(T)]
pub struct ExUnboundedSender<T>(tokio::sync::mpsc::UnboundedSender<T>);

/// The template parameters of one outbound notification.
#[derive(Clone, Debug, PartialEq)]
pub struct SmsParam {
    /// What expires: urgency label, name, batch number and category.
    pub name: String,
    /// The formatted expiry date.
    pub code: String,
}

/// One outbound notification message.
#[derive(Debug)]
pub struct SmsMessage {
    pub phones: Vec<String>,
    pub sign_name: String,
    pub template_code: String,
    pub out_id: Option<String>,
    pub param: SmsParam,
}

/// The dispatcher's fixed send context: template, signature, recipients
/// and the sending half of the queue that the transport worker drains.
pub struct NotifySms {
    pub template_code: String,
    pub sign_name: String,
    pub phones: Vec<String>,
    pub tx: tokio::sync::mpsc::UnboundedSender<SmsMessage>,
}

/// Relies on tokio's unbounded mpsc sender: `send` never blocks and
/// fails only when the receiving half has been dropped.  Nothing is
/// promised of the outcome.
#[verifier::external_body]
fn queue_send(tx: &tokio::sync::mpsc::UnboundedSender<SmsMessage>, msg: SmsMessage) -> (r: bool) {
    tx.send(msg).is_ok()
}

/// Copies a vector of strings (element by element, so the copy provably
/// carries the same values).
fn clone_strings(v: &Vec<String>) -> (r: Vec<String>)
    ensures
        r.deep_view() == v.deep_view(),
{
    let mut r: Vec<String> = Vec::new();
    let mut i: usize = 0;
    while i < v.len()
        invariant
            0 <= i <= v@.len(),
            r@.len() == i,
            forall|j: int| 0 <= j < i ==> #[trigger] r@[j]@ == v@[j]@,
        decreases v@.len() - i,
    {
        r.push(v[i].clone());
        i = i + 1;
    }
    proof {
        assert forall|j: int| 0 <= j < v@.len() implies r.deep_view()[j] == v.deep_view()[j] by {
            assert(r@[j]@ == v@[j]@);
        }
        assert(r.deep_view() =~= v.deep_view());
    }
    r
}

/// The text of the `name` template parameter:
/// `label:name-batch_number-category`.
pub open spec fn sms_name_text(label: Seq<char>, v: MedicinalView) -> Seq<char> {
    label + ":"@ + v.name + "-"@ + v.batch_number + "-"@ + v.category
}

/// The text of the `code` template parameter: the formatted expiry date
/// after the fixed prefix.
pub open spec fn sms_code_text(v: MedicinalView) -> Seq<char> {
    "有效期:"@ + spec_format_ymd(v.validity)
}

/// Builds the notification message for one record: the urgency label,
/// name, batch number and category in the `name` parameter, the
/// formatted expiry date in the `code` parameter, and the send
/// context's recipients, signature and template.
pub fn build_sms(item: &MedicinalList, notify: &NotifySms, msg_label: &str) -> (r: SmsMessage)
    requires
        item.validity.well_formed(),
    ensures
        r.param.name@ == sms_name_text(msg_label@, item@),
        r.param.code@ == sms_code_text(item@),
        r.phones.deep_view() == notify.phones.deep_view(),
        r.sign_name@ == notify.sign_name@,
        r.template_code@ == notify.template_code@,
        r.out_id matches Some(o) && o@ == "123"@,
{
    let mut name = String::new();
    name.append(msg_label);
    name.append(":");
    name.append(item.name.as_str());
    name.append("-");
    name.append(item.batch_number.as_str());
    name.append("-");
    name.append(item.category.as_str());
    proof {
        assert(name@ =~= sms_name_text(msg_label@, item@));
    }
    let date = item.validity.format_ymd();
    let mut code = String::new();
    code.append("有效期:");
    code.append(date.as_str());
    proof {
        assert(code@ =~= sms_code_text(item@));
    }
    SmsMessage {
        phones: clone_strings(&notify.phones),
        sign_name: notify.sign_name.clone(),
        template_code: notify.template_code.clone(),
        out_id: Some("123".to_owned()),
        param: SmsParam { name, code },
    }
}

/// True when the record's cooldown watermark does not suppress it: the
/// watermark is absent or not in the future.
pub open spec fn cooldown_ok(notify_at: Option<int>, now: int) -> bool {
    match notify_at {
        None => true,
        Some(t) => t <= now,
    }
}

/// The already-expired band: active, expired on or before today, not
/// suppressed by the cooldown watermark.
pub open spec fn expired_pred(v: MedicinalView, today: Date, now: int) -> bool {
    &&& !v.is_del
    &&& v.validity.spec_le(today)
    &&& cooldown_ok(v.notify_at, now)
}

/// The soon-to-expire band: active, expiring after today but within the
/// warning horizon, not suppressed by the cooldown watermark.  A record
/// in the expired band is never in this one.
pub open spec fn soon_pred(v: MedicinalView, today: Date, bound: Date, now: int) -> bool {
    &&& !v.is_del
    &&& today.spec_lt(v.validity)
    &&& v.validity.spec_le(bound)
    &&& cooldown_ok(v.notify_at, now)
}

/// The records of the already-expired band, in order.
pub open spec fn expired_of(rs: Seq<MedicinalView>, today: Date, now: int) -> Seq<MedicinalView> {
    rs.filter(|v: MedicinalView| expired_pred(v, today, now))
}

/// The records of the soon-to-expire band, in order.
pub open spec fn soon_of(
    rs: Seq<MedicinalView>,
    today: Date,
    bound: Date,
    now: int,
) -> Seq<MedicinalView> {
    rs.filter(|v: MedicinalView| soon_pred(v, today, bound, now))
}

/// The two urgency bands are mutually exclusive: no record is both
/// expired and soon-to-expire, whatever the horizon.
pub proof fn lemma_bands_exclusive(v: MedicinalView, today: Date, bound: Date, now: int)
    ensures
        !(expired_pred(v, today, now) && soon_pred(v, today, bound, now)),
{
}

/// Scan cooldown: a record whose watermark lies in the future — for
/// example one whose dispatch ran less than the cooldown ago, leaving
/// the watermark at a time after `now` — is excluded from both bands.
pub proof fn lemma_cooldown_excludes(v: MedicinalView, today: Date, bound: Date, now: int)
    requires
        v.notify_at matches Some(t) && t > now,
    ensures
        !expired_pred(v, today, now),
        !soon_pred(v, today, bound, now),
{
}

/// After a dispatch cycle moves a record's cooldown watermark to
/// `now + RENOTIFY_COOLDOWN`, a scan at `now` excludes that record
/// from both urgency bands: within the cooldown window it stays quiet.
pub proof fn lemma_watermark_quiets_rescan(
    rs: Seq<MedicinalView>,
    ids: Seq<i32>,
    today: Date,
    bound: Date,
    now: int,
    j: int,
)
    requires
        0 <= j < rs.len(),
        crate::store::id_in(ids, rs[j].id),
    ensures
        !expired_pred(mark_seq(rs, ids, now + RENOTIFY_COOLDOWN)[j], today, now),
        !soon_pred(mark_seq(rs, ids, now + RENOTIFY_COOLDOWN)[j], today, bound, now),
{
    let v = mark_seq(rs, ids, now + RENOTIFY_COOLDOWN)[j];
    assert(v.notify_at == Some(now + RENOTIFY_COOLDOWN));
    lemma_cooldown_excludes(v, today, bound, now);
}

/// Scans the records for due notifications: returns the already-expired
/// band and the soon-to-expire band (within `warn_days` of `today`),
/// both limited to active records whose cooldown watermark is absent or
/// not in the future.  The bands are mutually exclusive.
pub fn scan(records: &Vec<MedicinalList>, today: &Date, now_ts: i64, warn_days: u32) -> (r: (
    Vec<MedicinalList>,
    Vec<MedicinalList>,
))
    requires
        today.well_formed(),
        forall|j: int|
            0 <= j < records.deep_view().len() ==> (
            #[trigger] records.deep_view()[j]).validity.well_formed(),
    ensures
        r.0.deep_view() == expired_of(records.deep_view(), *today, now_ts as int),
        r.1.deep_view() == soon_of(
            records.deep_view(),
            *today,
            spec_add_days(*today, warn_days as nat),
            now_ts as int,
        ),
        r.0.deep_view().len() <= records.deep_view().len(),
        r.1.deep_view().len() <= records.deep_view().len(),
        forall|k: int|
            0 <= k < r.0.deep_view().len() ==> (
            #[trigger] r.0.deep_view()[k]).validity.well_formed(),
        forall|k: int|
            0 <= k < r.1.deep_view().len() ==> (
            #[trigger] r.1.deep_view()[k]).validity.well_formed(),
{
    let ghost orig = records.deep_view();
    let bound = add_days(today, warn_days);
    let mut expired: Vec<MedicinalList> = Vec::new();
    let mut soon: Vec<MedicinalList> = Vec::new();
    let n = records.len();
    let mut i: usize = 0;
    proof {
        assert(orig.subrange(0, 0) =~= Seq::<MedicinalView>::empty());
        reveal_with_fuel(Seq::filter, 2);
    }
    while i < n
        invariant
            n == records@.len(),
            n == orig.len(),
            orig == records.deep_view(),
            0 <= i <= n,
            today.well_formed(),
            bound == spec_add_days(*today, warn_days as nat),
            expired.deep_view() == orig.subrange(0, i as int).filter(
                |v: MedicinalView| expired_pred(v, *today, now_ts as int),
            ),
            soon.deep_view() == orig.subrange(0, i as int).filter(
                |v: MedicinalView| soon_pred(v, *today, bound, now_ts as int),
            ),
            expired.deep_view().len() <= i,
            soon.deep_view().len() <= i,
            forall|j: int|
                0 <= j < records.deep_view().len() ==> (
                #[trigger] records.deep_view()[j]).validity.well_formed(),
            forall|k: int|
                0 <= k < expired.deep_view().len() ==> (
                #[trigger] expired.deep_view()[k]).validity.well_formed(),
            forall|k: int|
                0 <= k < soon.deep_view().len() ==> (
                #[trigger] soon.deep_view()[k]).validity.well_formed(),
        decreases n - i,
    {
        let ghost pre = orig.subrange(0, i as int);
        proof {
            assert(records.deep_view()[i as int] == records@[i as int]@);
            assert(orig.subrange(0, i + 1).drop_last() =~= pre);
            assert(orig.subrange(0, i + 1).last() == orig[i as int]);
            reveal_with_fuel(Seq::filter, 2);
        }
        let rec = &records[i];
        let active_due = !rec.is_del && (match rec.notify_at {
            Some(t) => t <= now_ts,
            None => true,
        });
        if active_due && rec.validity.le(today) {
            let ghost p = expired.deep_view();
            expired.push(clone_record(rec));
            proof {
                assert(expired.deep_view() =~= p.push(orig[i as int]));
            }
        } else if active_due && today.lt(&rec.validity) && rec.validity.le(&bound) {
            let ghost p = soon.deep_view();
            soon.push(clone_record(rec));
            proof {
                assert(soon.deep_view() =~= p.push(orig[i as int]));
            }
        }
        i = i + 1;
    }
    proof {
        assert(orig.subrange(0, n as int) =~= orig);
    }
    (expired, soon)
}

/// True when some record of `rs` has the id.
pub open spec fn has_id(rs: Seq<MedicinalView>, id: int) -> bool {
    exists|j: int| 0 <= j < rs.len() && (#[trigger] rs[j]).id == id
}

/// True when every listed id belongs to some record of `rs`.
pub open spec fn ids_within(ids: Seq<i32>, rs: Seq<MedicinalView>) -> bool {
    forall|k: int| 0 <= k < ids.len() ==> has_id(rs, #[trigger] ids[k] as int)
}

/// Builds and enqueues one notification per candidate, returning the
/// ids of the candidates whose message was handed to the send queue
/// (an enqueue can fail only when the queue's receiving half is gone;
/// such candidates are left out, to be retried on a later cycle).
pub fn dispatch(items: &Vec<MedicinalList>, notify: &NotifySms, msg_label: &str) -> (r: Vec<i32>)
    requires
        forall|j: int|
            0 <= j < items.deep_view().len() ==> (#[trigger] items.deep_view()[j]).validity.well_formed(),
    ensures
        r@.len() <= items.deep_view().len(),
        ids_within(r@, items.deep_view()),
{
    let mut sent: Vec<i32> = Vec::new();
    let n = items.len();
    let mut i: usize = 0;
    while i < n
        invariant
            n == items@.len(),
            0 <= i <= n,
            forall|j: int|
                0 <= j < items.deep_view().len() ==> (
                #[trigger] items.deep_view()[j]).validity.well_formed(),
            sent@.len() <= i,
            ids_within(sent@, items.deep_view()),
        decreases n - i,
    {
        proof {
            assert(items.deep_view()[i as int] == items@[i as int]@);
        }
        let msg = build_sms(&items[i], notify, msg_label);
        if queue_send(&notify.tx, msg) {
            sent.push(items[i].id);
            proof {
                assert(has_id(items.deep_view(), items@[i as int].id as int));
            }
        }
        i = i + 1;
    }
    sent
}

/// One scan-and-notify cycle over the store.
///
/// Scans for the two urgency bands, dispatches a notification for every
/// candidate, and pushes the cooldown watermark of each successfully
/// enqueued candidate to `now + RENOTIFY_COOLDOWN`.  Which enqueues
/// succeed depends on the send queue, so the contract says what holds
/// of every outcome: the watermarks moved are exactly those of some
/// subset of each band, and the returned counts are the sizes of those
/// subsets.
pub fn do_work(
    store: &mut MemStore,
    notify: &NotifySms,
    today: &Date,
    now_ts: i64,
    warn_days: u32,
) -> (r: (u32, u32))
    requires
        old(store).wf(),
        today.well_formed(),
        0 <= now_ts < 0x7fff_0000_0000_0000,
        old(store).view_records().len() < 0x1_0000_0000,
    ensures
        final(store).wf(),
        final(store).next_id == old(store).next_id,
        exists|ids1: Seq<i32>, ids2: Seq<i32>|
            {
                &&& #[trigger] ids_within(
                    ids1,
                    expired_of(old(store).view_records(), *today, now_ts as int),
                )
                &&& #[trigger] ids_within(
                    ids2,
                    soon_of(
                        old(store).view_records(),
                        *today,
                        spec_add_days(*today, warn_days as nat),
                        now_ts as int,
                    ),
                )
                &&& r.0 == ids1.len()
                &&& r.1 == ids2.len()
                &&& final(store).view_records() == mark_seq(
                    mark_seq(old(store).view_records(), ids1, now_ts + RENOTIFY_COOLDOWN),
                    ids2,
                    now_ts + RENOTIFY_COOLDOWN,
                )
            },
{
    let ghost rs = store.view_records();
    let (expired, soon) = scan(&store.records, today, now_ts, warn_days);
    let watermark = now_ts + RENOTIFY_COOLDOWN;
    let ids1 = dispatch(&expired, notify, "已经过期药品");
    let n1 = store.update_notify_at(&ids1, watermark);
    let ghost mid = store.view_records();
    let ids2 = dispatch(&soon, notify, "即将过期药品");
    let n2 = store.update_notify_at(&ids2, watermark);
    proof {
        assert(mid == mark_seq(rs, ids1@, watermark as int));
        assert(store.view_records() == mark_seq(mid, ids2@, watermark as int));
        assert(ids_within(ids1@, expired_of(rs, *today, now_ts as int)));
        assert(ids_within(
            ids2@,
            soon_of(rs, *today, spec_add_days(*today, warn_days as nat), now_ts as int),
        ));
    }
    (ids1.len() as u32, ids2.len() as u32)
}

/// The scheduler decision: `None` when the notification configuration
/// is absent or its toggle is off (the scheduler never runs for this
/// process), otherwise the tick interval in seconds, defaulting to
/// `INTERVAL_SCHEDULE_SECONDS`.
pub fn scheduler_plan(cfg: &Option<SmsConfig>) -> (r: Option<u64>)
    ensures
        match cfg {
            None => r is None,
            Some(c) => match c.send_sms_toggle {
                Some(true) => r matches Some(iv) && iv == match c.check_interval {
                    Some(v) => v,
                    None => INTERVAL_SCHEDULE_SECONDS,
                },
                _ => r is None,
            },
        },
{
    match cfg {
        None => None,
        Some(c) => match c.send_sms_toggle {
            Some(true) => match c.check_interval {
                Some(v) => Some(v),
                None => Some(INTERVAL_SCHEDULE_SECONDS),
            },
            _ => None,
        },
    }
}

} // verus!
