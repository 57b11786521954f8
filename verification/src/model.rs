//! Domain records: inventory entries, admin accounts and the fixed
//! expiry-filter menu.

use vstd::prelude::*;

use crate::dates::Date;
use crate::dates::spec_add_days;
use crate::dates::add_days;

verus! {

/// An admin session as stored in the session cache.
#[derive(Clone, Debug)]
pub struct AdminSession {
    pub id: i32,
    pub username: String,
    pub password: String,
    pub is_sys: bool,
    pub dateline: i32,
}

/// An admin account.
#[derive(Clone, Debug)]
pub struct Admin {
    pub id: i32,
    pub username: String,
    pub password: String,
    pub is_sys: bool,
    pub is_del: bool,
}

/// The id of an admin account.
#[derive(Clone, Copy, Debug, PartialEq, Eq, Structural)]
pub struct AdminID {
    pub id: i32,
}

/// An inventory record.
///
/// `notify_at` is the cooldown watermark: the scanner skips a record
/// whose watermark lies in the future, and the dispatcher moves the
/// watermark forward after handing the record's notification off.
#[derive(Clone, Debug, PartialEq)]
pub struct MedicinalList {
    pub id: i32,
    pub category: String,
    pub name: String,
    pub batch_number: String,
    pub spec: String,
    pub count: String,
    pub validity: Date,
    pub is_del: bool,
    pub notify_at: Option<i64>,
}

/// The plain values of an inventory record, for specifications.
pub ghost struct MedicinalView {
    pub id: int,
    pub category: Seq<char>,
    pub name: Seq<char>,
    pub batch_number: Seq<char>,
    pub spec: Seq<char>,
    pub count: Seq<char>,
    pub validity: Date,
    pub is_del: bool,
    pub notify_at: Option<int>,
}

impl DeepView for MedicinalList {
    type V = MedicinalView;

    open spec fn deep_view(&self) -> MedicinalView {
        self.view()
    }
}

impl View for MedicinalList {
    type V = MedicinalView;

    open spec fn view(&self) -> MedicinalView {
        MedicinalView {
            id: self.id as int,
            category: self.category@,
            name: self.name@,
            batch_number: self.batch_number@,
            spec: self.spec@,
            count: self.count@,
            validity: self.validity,
            is_del: self.is_del,
            notify_at: match self.notify_at {
                Some(t) => Some(t as int),
                None => None,
            },
        }
    }
}

impl MedicinalList {
    /// True when the record's validity date is on or before `today`.
    pub fn is_expired(&self, today: &Date) -> (r: bool)
        ensures
            r == self.validity.spec_le(*today),
    {
        self.validity.le(today)
    }

    /// True when the record expires within 30 days of `today`.
    pub fn is_expired_as1(&self, today: &Date) -> (r: bool)
        requires
            today.well_formed(),
        ensures
            r == self.validity.spec_le(spec_add_days(*today, 30)),
    {
        let bound = add_days(today, 30);
        self.validity.le(&bound)
    }

    /// True when the record expires within 91 days of `today`.
    pub fn is_expired_as3(&self, today: &Date) -> (r: bool)
        requires
            today.well_formed(),
        ensures
            r == self.validity.spec_le(spec_add_days(*today, 91)),
    {
        let bound = add_days(today, 91);
        self.validity.le(&bound)
    }

    /// True when the record expires within 180 days of `today`.
    pub fn is_expired_as6(&self, today: &Date) -> (r: bool)
        requires
            today.well_formed(),
        ensures
            r == self.validity.spec_le(spec_add_days(*today, 180)),
    {
        let bound = add_days(today, 180);
        self.validity.le(&bound)
    }
}

/// One entry of the expiry-filter menu.
#[derive(Clone, Debug)]
pub struct ExpiredItem {
    pub name: String,
    pub id: u8,
}

/// The fixed expiry-filter menu: each entry's id is the `expired`
/// query-argument value selecting that band.
pub fn get_expired_str() -> (r: Vec<ExpiredItem>)
    ensures
        r@.len() == 6,
        r@[0].id == 0 && r@[0].name@ == "所有数据"@,
        r@[1].id == 1 && r@[1].name@ == "已经过期"@,
        r@[2].id == 2 && r@[2].name@ == "一个月"@,
        r@[3].id == 4 && r@[3].name@ == "三个月"@,
        r@[4].id == 7 && r@[4].name@ == "六个月"@,
        r@[5].id == 10 && r@[5].name@ == "九个月"@,
{
    let mut r: Vec<ExpiredItem> = Vec::new();
    r.push(ExpiredItem { name: "所有数据".to_owned(), id: 0 });
    r.push(ExpiredItem { name: "已经过期".to_owned(), id: 1 });
    r.push(ExpiredItem { name: "一个月".to_owned(), id: 2 });
    r.push(ExpiredItem { name: "三个月".to_owned(), id: 4 });
    r.push(ExpiredItem { name: "六个月".to_owned(), id: 7 });
    r.push(ExpiredItem { name: "九个月".to_owned(), id: 10 });
    r
}

/// The id of an inventory record.
#[derive(Clone, Copy, Debug, PartialEq, Eq, Structural)]
pub struct MedicinalID {
    pub id: i32,
}

/// A category label, as returned by the distinct-category query.
#[derive(Clone, Debug, PartialEq)]
pub struct Category {
    pub category: String,
}

} // verus!
