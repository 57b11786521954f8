//! The in-memory inventory store: create with duplicate prevention,
//! lookup, paged query, soft delete and recovery, and the bulk
//! cooldown-watermark update the notification dispatcher issues.

use vstd::prelude::*;

use crate::arg::MedicinalBackendQueryArg;
use crate::dates::Date;
use crate::dates::add_days;
use crate::dates::spec_add_days;
use crate::error::AppError;
use crate::error::AppErrorType;
use crate::form::CreateMedicinal;
use crate::form::UpdateMedicinal;
use crate::model::Category;
use crate::model::MedicinalID;
use crate::model::MedicinalList;
use crate::model::MedicinalView;
use crate::pagination::Pagination;
use crate::strings::contains_sub;
use crate::strings::str_contains;
use crate::strings::str_eq;

verus! {

/// Number of records per page of a paged query.
pub const PAGE_SIZE: u8 = 30;

/// The in-memory inventory store.
pub struct MemStore {
    /// The records, in creation order.
    pub records: Vec<MedicinalList>,
    /// The id the next created record receives.
    pub next_id: i32,
}

/// True when an active (not soft-deleted) record with the given
/// (name, category, batch number) triple exists.
pub open spec fn has_active_triple(
    rs: Seq<MedicinalView>,
    name: Seq<char>,
    category: Seq<char>,
    batch_number: Seq<char>,
) -> bool {
    exists|i: int|
        0 <= i < rs.len() && !(#[trigger] rs[i]).is_del && rs[i].name == name && rs[i].category
            == category && rs[i].batch_number == batch_number
}

/// True when a record with the given (name, batch number) pair exists,
/// deleted or not.
pub open spec fn has_name_batch(
    rs: Seq<MedicinalView>,
    name: Seq<char>,
    batch_number: Seq<char>,
) -> bool {
    exists|i: int|
        0 <= i < rs.len() && (#[trigger] rs[i]).name == name && rs[i].batch_number == batch_number
}

/// Index of the record with the given id, if any.
pub open spec fn index_of_id(rs: Seq<MedicinalView>, id: int) -> Option<int>
    decreases rs.len(),
{
    if rs.len() == 0 {
        None
    } else if rs[0].id == id {
        Some(0)
    } else {
        match index_of_id(rs.drop_first(), id) {
            Some(i) => Some(i + 1),
            None => None,
        }
    }
}

proof fn lemma_index_of_id_props(rs: Seq<MedicinalView>, id: int)
    ensures
        match index_of_id(rs, id) {
            Some(i) => 0 <= i < rs.len() && rs[i].id == id && forall|j: int|
                0 <= j < i ==> (#[trigger] rs[j]).id != id,
            None => forall|j: int| 0 <= j < rs.len() ==> (#[trigger] rs[j]).id != id,
        },
    decreases rs.len(),
{
    if rs.len() > 0 && rs[0].id != id {
        lemma_index_of_id_props(rs.drop_first(), id);
        assert forall|j: int| 1 <= j < rs.len() implies #[trigger] rs[j].id
            == rs.drop_first()[j - 1].id by {}
    }
}

/// A record as created from form values: the assigned id, the form's
/// fields, active, never notified.
pub open spec fn created_record(id: int, m: crate::form::CreateMedicinalView) -> MedicinalView {
    MedicinalView {
        id: id,
        category: m.category,
        name: m.name,
        batch_number: m.batch_number,
        spec: m.spec,
        count: m.count,
        validity: m.validity,
        is_del: false,
        notify_at: None,
    }
}

/// Copies a record (field by field, so the copy provably carries the
/// same values).
pub fn clone_record(m: &MedicinalList) -> (r: MedicinalList)
    ensures
        r@ == m@,
{
    MedicinalList {
        id: m.id,
        category: m.category.clone(),
        name: m.name.clone(),
        batch_number: m.batch_number.clone(),
        spec: m.spec.clone(),
        count: m.count.clone(),
        validity: m.validity,
        is_del: m.is_del,
        notify_at: m.notify_at,
    }
}

impl MemStore {
    /// The records as plain values.
    pub open spec fn view_records(&self) -> Seq<MedicinalView> {
        self.records.deep_view()
    }

    /// Well-formedness: ids are unique, below the next id to assign,
    /// and the next id has room to grow.
    pub open spec fn wf(&self) -> bool {
        &&& 1 <= self.next_id
        &&& forall|i: int|
            0 <= i < self.view_records().len() ==> (#[trigger] self.view_records()[i]).id
                < self.next_id
        &&& forall|i: int, j: int|
            0 <= i < j < self.view_records().len() ==> (#[trigger] self.view_records()[i]).id != (
            #[trigger] self.view_records()[j]).id
        &&& forall|i: int|
            0 <= i < self.view_records().len() ==> (
            #[trigger] self.view_records()[i]).validity.well_formed()
    }

    /// An empty store.
    pub fn new() -> (r: MemStore)
        ensures
            r.wf(),
            r.view_records().len() == 0,
    {
        MemStore { records: Vec::new(), next_id: 1 }
    }

    /// True when an active record with the given (name, category,
    /// batch number) triple exists.
    pub fn is_exists_name_category_batch_number(
        &self,
        name: &str,
        category: &str,
        batch_number: &str,
    ) -> (r: bool)
        ensures
            r == has_active_triple(self.view_records(), name@, category@, batch_number@),
    {
        let n = self.records.len();
        let mut i: usize = 0;
        while i < n
            invariant
                n == self.records@.len(),
                0 <= i <= n,
                forall|j: int|
                    0 <= j < i ==> !(!(#[trigger] self.view_records()[j]).is_del
                        && self.view_records()[j].name == name@ && self.view_records()[j].category
                        == category@ && self.view_records()[j].batch_number == batch_number@),
            decreases n - i,
        {
            proof {
                assert(self.view_records()[i as int] == self.records@[i as int]@);
            }
            let rec = &self.records[i];
            if !rec.is_del && str_eq(rec.name.as_str(), name) && str_eq(
                rec.category.as_str(),
                category,
            ) && str_eq(rec.batch_number.as_str(), batch_number) {
                return true;
            }
            i = i + 1;
        }
        false
    }

    /// True when a record with the given (name, batch number) pair
    /// exists.
    pub fn is_exists_name_batch_number(&self, name: &str, batch_number: &str) -> (r: bool)
        ensures
            r == has_name_batch(self.view_records(), name@, batch_number@),
    {
        let n = self.records.len();
        let mut i: usize = 0;
        while i < n
            invariant
                n == self.records@.len(),
                0 <= i <= n,
                forall|j: int|
                    0 <= j < i ==> !((#[trigger] self.view_records()[j]).name == name@
                        && self.view_records()[j].batch_number == batch_number@),
            decreases n - i,
        {
            proof {
                assert(self.view_records()[i as int] == self.records@[i as int]@);
            }
            let rec = &self.records[i];
            if str_eq(rec.name.as_str(), name) && str_eq(rec.batch_number.as_str(), batch_number) {
                return true;
            }
            i = i + 1;
        }
        false
    }

    /// Creates a record from form values.
    ///
    /// Fails with an already-exists error exactly when an active record
    /// with the same (name, category, batch number) triple exists, and
    /// with a store error exactly when the id space is exhausted; on
    /// success the record is appended with the next id, active and
    /// never notified.
    pub fn create(&mut self, m: &CreateMedicinal) -> (r: Result<MedicinalID, AppError>)
        requires
            old(self).wf(),
            m.validity.well_formed(),
        ensures
            final(self).wf(),
            match r {
                Ok(id) => {
                    &&& !has_active_triple(
                        old(self).view_records(),
                        m@.name,
                        m@.category,
                        m@.batch_number,
                    )
                    &&& old(self).next_id < 0x7fff_ffff
                    &&& id.id == old(self).next_id
                    &&& final(self).view_records() == old(self).view_records().push(
                        created_record(old(self).next_id as int, m@),
                    )
                    &&& final(self).next_id == old(self).next_id + 1
                },
                Err(e) => {
                    &&& final(self).view_records() == old(self).view_records()
                    &&& final(self).next_id == old(self).next_id
                    &&& if has_active_triple(
                        old(self).view_records(),
                        m@.name,
                        m@.category,
                        m@.batch_number,
                    ) {
                        e.error_type == AppErrorType::IsExists
                    } else {
                        e.error_type == AppErrorType::DbError && old(self).next_id == 0x7fff_ffff
                    }
                },
            },
    {
        if self.is_exists_name_category_batch_number(
            m.name.as_str(),
            m.category.as_str(),
            m.batch_number.as_str(),
        ) {
            return Err(AppError::is_exists("药品名称或类目或者批号已存在"));
        }
        if self.next_id == 0x7fff_ffff {
            return Err(AppError::db_error_from_str("插入药品失败"));
        }
        let id = self.next_id;
        let rec = MedicinalList {
            id,
            category: m.category.clone(),
            name: m.name.clone(),
            batch_number: m.batch_number.clone(),
            spec: m.spec.clone(),
            count: m.count.clone(),
            validity: m.validity,
            is_del: false,
            notify_at: None,
        };
        let ghost pre = self.records.deep_view();
        self.records.push(rec);
        self.next_id = id + 1;
        proof {
            assert(self.records.deep_view() =~= pre.push(created_record(id as int, m@)));
        }
        Ok(MedicinalID { id })
    }

    /// Looks a record up by id.
    ///
    /// Fails with a not-found error exactly when no record has the id.
    pub fn find(&self, id: i32) -> (r: Result<MedicinalList, AppError>)
        ensures
            match r {
                Ok(m) => {
                    &&& index_of_id(self.view_records(), id as int) matches Some(i)
                        && m@ == self.view_records()[i]
                    &&& m@.id == id
                },
                Err(e) => {
                    &&& index_of_id(self.view_records(), id as int) is None
                    &&& e.error_type == AppErrorType::NotFound
                },
            },
    {
        proof {
            lemma_index_of_id_props(self.view_records(), id as int);
        }
        let n = self.records.len();
        let mut i: usize = 0;
        while i < n
            invariant
                n == self.records@.len(),
                0 <= i <= n,
                forall|j: int| 0 <= j < i ==> (#[trigger] self.view_records()[j]).id != id,
            decreases n - i,
        {
            proof {
                assert(self.view_records()[i as int] == self.records@[i as int]@);
            }
            if self.records[i].id == id {
                proof {
                    lemma_index_of_id_props(self.view_records(), id as int);
                    let k = index_of_id(self.view_records(), id as int);
                    assert(k matches Some(ki) && ki == i);
                }
                return Ok(clone_record(&self.records[i]));
            }
            i = i + 1;
        }
        proof {
            lemma_index_of_id_props(self.view_records(), id as int);
        }
        Err(AppError::not_found("没有找到符合条件的药品"))
    }
}

/// `v` with its soft-delete flag set to `is_del`.
pub open spec fn with_is_del(v: MedicinalView, is_del: bool) -> MedicinalView {
    MedicinalView {
        id: v.id,
        category: v.category,
        name: v.name,
        batch_number: v.batch_number,
        spec: v.spec,
        count: v.count,
        validity: v.validity,
        is_del: is_del,
        notify_at: v.notify_at,
    }
}

/// `v` with the fields of the edit form `med` substituted (the id, the
/// soft-delete flag and the cooldown watermark keep their values).
pub open spec fn edited_record(v: MedicinalView, med: UpdateMedicinal) -> MedicinalView {
    MedicinalView {
        id: v.id,
        category: med.category@,
        name: med.name@,
        batch_number: med.batch_number@,
        spec: med.spec@,
        count: med.count@,
        validity: med.validity,
        is_del: v.is_del,
        notify_at: v.notify_at,
    }
}

/// True when `id` occurs in `ids`.
pub open spec fn id_in(ids: Seq<i32>, id: int) -> bool {
    exists|k: int| 0 <= k < ids.len() && ids[k] == id
}

/// `v` with its cooldown watermark set to `ts` when its id is listed,
/// unchanged otherwise.
pub open spec fn mark_one(v: MedicinalView, ids: Seq<i32>, ts: int) -> MedicinalView {
    if id_in(ids, v.id) {
        MedicinalView {
            id: v.id,
            category: v.category,
            name: v.name,
            batch_number: v.batch_number,
            spec: v.spec,
            count: v.count,
            validity: v.validity,
            is_del: v.is_del,
            notify_at: Some(ts),
        }
    } else {
        v
    }
}

/// `rs` with the cooldown watermark set to `ts` on every record whose
/// id is listed in `ids`.
pub open spec fn mark_seq(rs: Seq<MedicinalView>, ids: Seq<i32>, ts: int) -> Seq<MedicinalView> {
    Seq::new(rs.len(), |j: int| mark_one(rs[j], ids, ts))
}

/// Number of records of `rs` whose id is listed in `ids`.
pub open spec fn count_marked(rs: Seq<MedicinalView>, ids: Seq<i32>) -> nat
    decreases rs.len(),
{
    if rs.len() == 0 {
        0
    } else {
        count_marked(rs.drop_last(), ids) + if id_in(ids, rs.last().id) {
            1nat
        } else {
            0nat
        }
    }
}

/// The active (not soft-deleted) records of `rs`, in order.
pub open spec fn active_records(rs: Seq<MedicinalView>) -> Seq<MedicinalView> {
    rs.filter(|v: MedicinalView| !v.is_del)
}

/// The distinct category labels of the first `n` records, in first-use
/// order.
pub open spec fn cats_upto(rs: Seq<MedicinalView>, n: int) -> Seq<Seq<char>>
    decreases n,
{
    if n <= 0 {
        Seq::empty()
    } else {
        let pre = cats_upto(rs, n - 1);
        if pre.contains(rs[n - 1].category) {
            pre
        } else {
            pre.push(rs[n - 1].category)
        }
    }
}

/// The distinct category labels of the store, in first-use order.
pub open spec fn distinct_categories(rs: Seq<MedicinalView>) -> Seq<Seq<char>> {
    cats_upto(rs, rs.len() as int)
}

/// The filter of the paged query: the record has the requested
/// soft-delete flag, its name contains the keyword, its category
/// contains the category filter, and its validity date lies in the
/// requested expiry band (none, already expired, or within
/// `(selector - 1) * 30` days of today).
pub open spec fn select_pred(v: MedicinalView, args: MedicinalBackendQueryArg, today: Date) -> bool {
    &&& v.is_del == args.spec_is_del()
    &&& contains_sub(v.name, args.spec_keyword())
    &&& contains_sub(v.category, args.spec_category())
    &&& if args.spec_expired() == 0 {
        true
    } else if args.spec_expired() == 1 {
        v.validity.spec_le(today)
    } else {
        today.spec_le(v.validity) && v.validity.spec_le(
            spec_add_days(today, ((args.spec_expired() - 1) * 30) as nat),
        )
    }
}

/// The records matching the paged query's filter, in creation order.
pub open spec fn select_filter(
    rs: Seq<MedicinalView>,
    args: MedicinalBackendQueryArg,
    today: Date,
) -> Seq<MedicinalView> {
    rs.filter(|v: MedicinalView| select_pred(v, args, today))
}

/// Page `page` of `f` at `ps` records per page (empty past the end).
pub open spec fn page_slice(f: Seq<MedicinalView>, page: int, ps: int) -> Seq<MedicinalView> {
    let start = if page * ps >= f.len() {
        f.len() as int
    } else {
        page * ps
    };
    let end = if start + ps >= f.len() {
        f.len() as int
    } else {
        start + ps
    };
    f.subrange(start, end)
}

/// True when `x` occurs in `ids`.
fn id_contains(ids: &Vec<i32>, x: i32) -> (r: bool)
    ensures
        r == id_in(ids@, x as int),
{
    let mut k: usize = 0;
    while k < ids.len()
        invariant
            0 <= k <= ids@.len(),
            forall|t: int| 0 <= t < k ==> ids@[t] != x,
        decreases ids@.len() - k,
    {
        if ids[k] == x {
            return true;
        }
        k = k + 1;
    }
    false
}

impl MemStore {
    /// Sets the soft-delete flag of the record with the given id,
    /// returning whether such a record existed.
    fn del_or_recover(&mut self, id: i32, is_del: bool) -> (r: bool)
        requires
            old(self).wf(),
        ensures
            final(self).wf(),
            final(self).next_id == old(self).next_id,
            match index_of_id(old(self).view_records(), id as int) {
                Some(i) => r == true && final(self).view_records() == old(
                    self,
                ).view_records().update(i, with_is_del(old(self).view_records()[i], is_del)),
                None => r == false && final(self).view_records() == old(self).view_records(),
            },
    {
        proof {
            lemma_index_of_id_props(self.view_records(), id as int);
        }
        let ghost orig = self.view_records();
        let n = self.records.len();
        let mut i: usize = 0;
        while i < n
            invariant
                n == self.records@.len(),
                0 <= i <= n,
                old(self).wf(),
                orig == old(self).view_records(),
                self.view_records() == orig,
                self.next_id == old(self).next_id,
                forall|j: int| 0 <= j < i ==> (#[trigger] orig[j]).id != id,
            decreases n - i,
        {
            proof {
                assert(self.view_records()[i as int] == self.records@[i as int]@);
            }
            if self.records[i].id == id {
                let rec = &self.records[i];
                let updated = MedicinalList {
                    id: rec.id,
                    category: rec.category.clone(),
                    name: rec.name.clone(),
                    batch_number: rec.batch_number.clone(),
                    spec: rec.spec.clone(),
                    count: rec.count.clone(),
                    validity: rec.validity,
                    is_del: is_del,
                    notify_at: rec.notify_at,
                };
                self.records[i] = updated;
                proof {
                    lemma_index_of_id_props(orig, id as int);
                    assert(index_of_id(orig, id as int) matches Some(k) && k == i);
                    assert(self.records.deep_view() =~= orig.update(
                        i as int,
                        with_is_del(orig[i as int], is_del),
                    ));
                    assert forall|a: int|
                        0 <= a < self.view_records().len() implies (
                        #[trigger] self.view_records()[a]).id == orig[a].id && (
                        #[trigger] self.view_records()[a]).validity == orig[a].validity by {
                        assert(self.view_records()[a] == orig.update(
                            i as int,
                            with_is_del(orig[i as int], is_del),
                        )[a]);
                    }
                    assert(self.wf());
                }
                return true;
            }
            i = i + 1;
        }
        proof {
            lemma_index_of_id_props(orig, id as int);
        }
        false
    }

    /// Soft-deletes the record with the given id, returning whether it
    /// existed.
    pub fn delete(&mut self, id: i32) -> (r: bool)
        requires
            old(self).wf(),
        ensures
            final(self).wf(),
            final(self).next_id == old(self).next_id,
            match index_of_id(old(self).view_records(), id as int) {
                Some(i) => r == true && final(self).view_records() == old(
                    self,
                ).view_records().update(i, with_is_del(old(self).view_records()[i], true)),
                None => r == false && final(self).view_records() == old(self).view_records(),
            },
    {
        self.del_or_recover(id, true)
    }

    /// Recovers the record with the given id, returning whether it
    /// existed.
    pub fn recover(&mut self, id: i32) -> (r: bool)
        requires
            old(self).wf(),
        ensures
            final(self).wf(),
            final(self).next_id == old(self).next_id,
            match index_of_id(old(self).view_records(), id as int) {
                Some(i) => r == true && final(self).view_records() == old(
                    self,
                ).view_records().update(i, with_is_del(old(self).view_records()[i], false)),
                None => r == false && final(self).view_records() == old(self).view_records(),
            },
    {
        self.del_or_recover(id, false)
    }

    /// Replaces the fields of the record with the edit form's id,
    /// returning whether it existed.
    pub fn update(&mut self, med: &UpdateMedicinal) -> (r: bool)
        requires
            old(self).wf(),
            med.validity.well_formed(),
        ensures
            final(self).wf(),
            final(self).next_id == old(self).next_id,
            match index_of_id(old(self).view_records(), med.id as int) {
                Some(i) => r == true && final(self).view_records() == old(
                    self,
                ).view_records().update(i, edited_record(old(self).view_records()[i], *med)),
                None => r == false && final(self).view_records() == old(self).view_records(),
            },
    {
        proof {
            lemma_index_of_id_props(self.view_records(), med.id as int);
        }
        let ghost orig = self.view_records();
        let n = self.records.len();
        let mut i: usize = 0;
        while i < n
            invariant
                n == self.records@.len(),
                0 <= i <= n,
                old(self).wf(),
                med.validity.well_formed(),
                orig == old(self).view_records(),
                self.view_records() == orig,
                self.next_id == old(self).next_id,
                forall|j: int| 0 <= j < i ==> (#[trigger] orig[j]).id != med.id,
            decreases n - i,
        {
            proof {
                assert(self.view_records()[i as int] == self.records@[i as int]@);
            }
            if self.records[i].id == med.id {
                let rec = &self.records[i];
                let updated = MedicinalList {
                    id: rec.id,
                    category: med.category.clone(),
                    name: med.name.clone(),
                    batch_number: med.batch_number.clone(),
                    spec: med.spec.clone(),
                    count: med.count.clone(),
                    validity: med.validity,
                    is_del: rec.is_del,
                    notify_at: rec.notify_at,
                };
                self.records[i] = updated;
                proof {
                    lemma_index_of_id_props(orig, med.id as int);
                    assert(index_of_id(orig, med.id as int) matches Some(k) && k == i);
                    assert(self.records.deep_view() =~= orig.update(
                        i as int,
                        edited_record(orig[i as int], *med),
                    ));
                    assert forall|a: int|
                        0 <= a < self.view_records().len() implies (
                        #[trigger] self.view_records()[a]).id == orig[a].id && (
                        #[trigger] self.view_records()[a]).validity.well_formed() by {
                        assert(self.view_records()[a] == orig.update(
                            i as int,
                            edited_record(orig[i as int], *med),
                        )[a]);
                    }
                    assert(self.wf());
                }
                return true;
            }
            i = i + 1;
        }
        proof {
            lemma_index_of_id_props(orig, med.id as int);
        }
        false
    }

    /// The bulk cooldown-watermark update: sets `notify_at` to the
    /// given timestamp on every record whose id is listed, returning
    /// how many records that was.
    pub fn update_notify_at(&mut self, ids: &Vec<i32>, notify_at: i64) -> (r: u64)
        requires
            old(self).wf(),
            old(self).view_records().len() < 0xffff_ffff_ffff_ffff,
        ensures
            final(self).wf(),
            final(self).next_id == old(self).next_id,
            final(self).view_records().len() == old(self).view_records().len(),
            final(self).view_records() == mark_seq(
                old(self).view_records(),
                ids@,
                notify_at as int,
            ),
            forall|j: int|
                0 <= j < old(self).view_records().len() ==> final(self).view_records()[j]
                    == mark_one(#[trigger] old(self).view_records()[j], ids@, notify_at as int),
            r == count_marked(old(self).view_records(), ids@),
    {
        let ghost orig = self.view_records();
        let n = self.records.len();
        let mut count: u64 = 0;
        let mut i: usize = 0;
        while i < n
            invariant
                n == self.records@.len(),
                n == orig.len(),
                n < 0xffff_ffff_ffff_ffff,
                0 <= i <= n,
                self.next_id == old(self).next_id,
                count == count_marked(orig.subrange(0, i as int), ids@),
                count <= i,
                forall|j: int|
                    0 <= j < i ==> self.view_records()[j] == mark_one(
                        #[trigger] orig[j],
                        ids@,
                        notify_at as int,
                    ),
                forall|j: int| i <= j < n ==> self.view_records()[j] == orig[j],
            decreases n - i,
        {
            proof {
                assert(self.view_records()[i as int] == self.records@[i as int]@);
                assert(orig.subrange(0, i + 1).drop_last() =~= orig.subrange(0, i as int));
                assert(orig.subrange(0, i + 1).last() == orig[i as int]);
            }
            if id_contains(ids, self.records[i].id) {
                let rec = &self.records[i];
                let updated = MedicinalList {
                    id: rec.id,
                    category: rec.category.clone(),
                    name: rec.name.clone(),
                    batch_number: rec.batch_number.clone(),
                    spec: rec.spec.clone(),
                    count: rec.count.clone(),
                    validity: rec.validity,
                    is_del: rec.is_del,
                    notify_at: Some(notify_at),
                };
                self.records[i] = updated;
                count = count + 1;
            }
            i = i + 1;
        }
        proof {
            assert(orig.subrange(0, n as int) =~= orig);
            assert forall|a: int|
                0 <= a < self.view_records().len() implies (
                #[trigger] self.view_records()[a]).id == orig[a].id && (
                #[trigger] self.view_records()[a]).validity == orig[a].validity by {
                assert(self.view_records()[a] == mark_one(orig[a], ids@, notify_at as int));
            }
            assert(self.wf());
            assert(self.view_records() =~= mark_seq(orig, ids@, notify_at as int));
        }
        count
    }

    /// The active (not soft-deleted) records, in non-decreasing
    /// validity order (ties keep creation order, though the contract
    /// leaves ties open, as the underlying query does).
    pub fn all(&self) -> (r: Vec<MedicinalList>)
        ensures
            r.deep_view().to_multiset() == active_records(self.view_records()).to_multiset(),
            sorted_by_validity(r.deep_view()),
    {
        let ghost orig = self.view_records();
        let mut out: Vec<MedicinalList> = Vec::new();
        let n = self.records.len();
        let mut i: usize = 0;
        proof {
            assert(orig.subrange(0, 0) =~= Seq::<MedicinalView>::empty());
            reveal_with_fuel(Seq::filter, 2);
        }
        while i < n
            invariant
                n == self.records@.len(),
                n == orig.len(),
                orig == self.view_records(),
                0 <= i <= n,
                out.deep_view() == orig.subrange(0, i as int).filter(
                    |v: MedicinalView| !v.is_del,
                ),
            decreases n - i,
        {
            let ghost pre = orig.subrange(0, i as int);
            proof {
                assert(self.view_records()[i as int] == self.records@[i as int]@);
                assert(orig.subrange(0, i + 1).drop_last() =~= pre);
                assert(orig.subrange(0, i + 1).last() == orig[i as int]);
                reveal_with_fuel(Seq::filter, 2);
            }
            if !self.records[i].is_del {
                let ghost out_pre = out.deep_view();
                out.push(clone_record(&self.records[i]));
                proof {
                    assert(out.deep_view() =~= out_pre.push(orig[i as int]));
                }
            }
            i = i + 1;
        }
        proof {
            assert(orig.subrange(0, n as int) =~= orig);
        }
        sort_by_validity(&mut out);
        out
    }

    /// One page of the filtered query: records with the requested
    /// soft-delete flag, whose name and category contain the keyword
    /// and category filters, in the requested expiry band, ordered by
    /// validity ascending and then paged.
    pub fn select(&self, args: &MedicinalBackendQueryArg, today: &Date) -> (r: Pagination<
        Vec<MedicinalList>,
    >)
        requires
            today.well_formed(),
            self.view_records().len() < 0x8000_0000_0000_0000,
        ensures
            ({
                let f = select_filter(self.view_records(), *args, *today);
                &&& r.total_records == f.len()
                &&& r.page == args.spec_page()
                &&& r.page_size == PAGE_SIZE
                &&& r.total_pages == crate::pagination::spec_total_pages(
                    f.len() as int,
                    PAGE_SIZE as int,
                )
                &&& exists|g: Seq<MedicinalView>|
                    {
                        &&& sorted_by_validity(g)
                        &&& #[trigger] g.to_multiset() == f.to_multiset()
                        &&& r.data.deep_view() == page_slice(
                            g,
                            args.spec_page() as int,
                            PAGE_SIZE as int,
                        )
                    }
            }),
    {
        let ghost orig = self.view_records();
        let q_is_del = args.is_del();
        let q_expired = args.expired();
        let band_bound: Date = if q_expired >= 2 {
            add_days(today, (q_expired as u32 - 1) * 30)
        } else {
            *today
        };
        let mut filtered: Vec<MedicinalList> = Vec::new();
        let n = self.records.len();
        let mut i: usize = 0;
        proof {
            assert(orig.subrange(0, 0) =~= Seq::<MedicinalView>::empty());
            reveal_with_fuel(Seq::filter, 2);
        }
        while i < n
            invariant
                n == self.records@.len(),
                n == orig.len(),
                orig == self.view_records(),
                0 <= i <= n,
                today.well_formed(),
                q_is_del == args.spec_is_del(),
                q_expired == args.spec_expired(),
                q_expired >= 2 ==> band_bound == spec_add_days(
                    *today,
                    ((q_expired - 1) * 30) as nat,
                ),
                filtered.deep_view() == orig.subrange(0, i as int).filter(
                    |v: MedicinalView| select_pred(v, *args, *today),
                ),
            decreases n - i,
        {
            let ghost pre = orig.subrange(0, i as int);
            proof {
                assert(self.view_records()[i as int] == self.records@[i as int]@);
                assert(orig.subrange(0, i + 1).drop_last() =~= pre);
                assert(orig.subrange(0, i + 1).last() == orig[i as int]);
                reveal_with_fuel(Seq::filter, 2);
            }
            let rec = &self.records[i];
            let band_ok: bool = if q_expired == 0 {
                true
            } else if q_expired == 1 {
                rec.validity.le(today)
            } else {
                today.le(&rec.validity) && rec.validity.le(&band_bound)
            };
            if rec.is_del == q_is_del && band_ok && str_contains(rec.name.as_str(), args.keyword())
                && str_contains(rec.category.as_str(), args.category()) {
                let ghost out_pre = filtered.deep_view();
                filtered.push(clone_record(rec));
                proof {
                    assert(filtered.deep_view() =~= out_pre.push(orig[i as int]));
                }
            }
            i = i + 1;
        }
        proof {
            assert(orig.subrange(0, n as int) =~= orig);
        }
        let ghost f = select_filter(orig, *args, *today);
        let page = args.page();
        let total = filtered.len();
        sort_by_validity(&mut filtered);
        let ghost g = filtered.deep_view();
        let start64 = page as u64 * PAGE_SIZE as u64;
        let start: usize = if start64 >= total as u64 {
            total
        } else {
            start64 as usize
        };
        let end: usize = if total - start > PAGE_SIZE as usize {
            start + PAGE_SIZE as usize
        } else {
            total
        };
        let mut data: Vec<MedicinalList> = Vec::new();
        let mut j: usize = start;
        while j < end
            invariant
                start <= j <= end <= filtered@.len(),
                filtered.deep_view() == g,
                data.deep_view() == g.subrange(start as int, j as int),
            decreases end - j,
        {
            proof {
                assert(filtered.deep_view()[j as int] == filtered@[j as int]@);
            }
            let ghost dpre = data.deep_view();
            data.push(clone_record(&filtered[j]));
            proof {
                assert(data.deep_view() =~= dpre.push(g[j as int]));
                assert(g.subrange(start as int, j + 1) =~= g.subrange(start as int, j as int).push(
                    g[j as int],
                ));
            }
            j = j + 1;
        }
        proof {
            assert(data.deep_view() =~= page_slice(g, page as int, PAGE_SIZE as int));
            assert(g.to_multiset() == f.to_multiset());
            assert(sorted_by_validity(g));
        }
        Pagination::new(page, PAGE_SIZE, total as i64, data)
    }

    /// The distinct category labels of the store, in first-use order.
    pub fn categories(&self) -> (r: Vec<Category>)
        ensures
            r@.len() == distinct_categories(self.view_records()).len(),
            forall|k: int|
                0 <= k < r@.len() ==> (#[trigger] r@[k]).category@ == distinct_categories(
                    self.view_records(),
                )[k],
    {
        let ghost orig = self.view_records();
        let mut out: Vec<Category> = Vec::new();
        let n = self.records.len();
        let mut i: usize = 0;
        while i < n
            invariant
                n == self.records@.len(),
                n == orig.len(),
                orig == self.view_records(),
                0 <= i <= n,
                out@.len() == cats_upto(orig, i as int).len(),
                forall|k: int|
                    0 <= k < out@.len() ==> (#[trigger] out@[k]).category@ == cats_upto(
                        orig,
                        i as int,
                    )[k],
            decreases n - i,
        {
            proof {
                assert(self.view_records()[i as int] == self.records@[i as int]@);
            }
            let ghost cats = cats_upto(orig, i as int);
            let cell = &self.records[i].category;
            let mut seen = false;
            let mut k: usize = 0;
            while k < out.len()
                invariant
                    0 <= k <= out@.len(),
                    out@.len() == cats.len(),
                    forall|t: int| 0 <= t < out@.len() ==> (#[trigger] out@[t]).category@ == cats[t],
                    cell@ == orig[i as int].category,
                    0 <= i < orig.len(),
                    seen ==> cats.contains(orig[i as int].category),
                    !seen ==> forall|t: int| 0 <= t < k ==> cats[t] != orig[i as int].category,
                decreases out@.len() - k,
            {
                if str_eq(out[k].category.as_str(), cell.as_str()) {
                    seen = true;
                    k = out.len();
                } else {
                    k = k + 1;
                }
            }
            if !seen {
                proof {
                    assert(forall|t: int| 0 <= t < cats.len() ==> cats[t] != orig[i as int].category);
                    assert(!cats.contains(orig[i as int].category));
                }
                out.push(Category { category: cell.clone() });
            }
            i = i + 1;
        }
        out
    }
}

/// The records stand in non-decreasing validity order.
pub open spec fn sorted_by_validity(rs: Seq<MedicinalView>) -> bool {
    forall|i: int, j: int|
        0 <= i < j < rs.len() ==> (#[trigger] rs[i]).validity.spec_le(
            (#[trigger] rs[j]).validity,
        )
}

/// Sorts the records by validity date, ascending and stable
/// (insertion sort): afterwards the vector holds the same records, in
/// non-decreasing validity order.
pub fn sort_by_validity(records: &mut Vec<MedicinalList>)
    ensures
        final(records)@.len() == old(records)@.len(),
        sorted_by_validity(final(records).deep_view()),
        final(records).deep_view().to_multiset() == old(records).deep_view().to_multiset(),
{
    broadcast use vstd::seq_lib::to_multiset_update;
    broadcast use vstd::seq_lib::group_to_multiset_ensures;
    broadcast use vstd::multiset::group_multiset_axioms;

    let ghost orig = records.deep_view();
    let n = records.len();
    if n == 0 {
        return;
    }
    let mut i: usize = 1;
    while i < n
        invariant
            n == records@.len(),
            n == records.deep_view().len(),
            1 <= i <= n,
            forall|a: int, b: int|
                0 <= a < b < i ==> (#[trigger] records.deep_view()[a]).validity.spec_le(
                    (#[trigger] records.deep_view()[b]).validity,
                ),
            records.deep_view().to_multiset() == orig.to_multiset(),
        decreases n - i,
    {
        let mut j: usize = i;
        while j > 0 && !records[j - 1].validity.le(&records[j].validity)
            invariant
                n == records@.len(),
                n == records.deep_view().len(),
                0 <= j <= i < n,
                forall|a: int, b: int|
                    0 <= a < b <= i && b != j ==> (
                    #[trigger] records.deep_view()[a]).validity.spec_le(
                        (#[trigger] records.deep_view()[b]).validity,
                    ),
                forall|b: int|
                    j < b <= i ==> records.deep_view()[j as int].validity.spec_le(
                        (#[trigger] records.deep_view()[b]).validity,
                    ),
                records.deep_view().to_multiset() == orig.to_multiset(),
            decreases j,
        {
            let ghost pre = records.deep_view();
            let left = clone_record(&records[j - 1]);
            let right = clone_record(&records[j]);
            records[j - 1] = right;
            records[j] = left;
            proof {
                let m0 = pre.to_multiset();
                let va = pre[j - 1];
                let vb = pre[j as int];
                let s1 = pre.update(j - 1, vb);
                let s2 = s1.update(j as int, va);
                assert(records.deep_view() =~= s2);
                vstd::seq_lib::to_multiset_update(pre, j - 1, vb);
                vstd::seq_lib::to_multiset_update(s1, j as int, va);
                assert(s1.to_multiset() == m0.insert(vb).remove(va));
                assert(s1[j as int] == vb);
                assert(s2.to_multiset() == s1.to_multiset().insert(va).remove(vb));
                assert(pre.contains(va));
                vstd::seq_lib::to_multiset_contains(pre, va);
                assert(m0.count(va) > 0);
                assert forall|x: MedicinalView| s2.to_multiset().count(x) == m0.count(x) by {}
                assert(s2.to_multiset() =~= m0);
            }
            j = j - 1;
        }
        proof {
            let d = records.deep_view();
            assert forall|a: int, b: int|
                0 <= a < b <= i implies (#[trigger] d[a]).validity.spec_le(
                (#[trigger] d[b]).validity,
            ) by {
                if b == j && j > 0 {
                    // The inner loop stopped, so the element settled at
                    // j is at least its left neighbour; pairs further
                    // left close under transitivity.
                    assert(d[j - 1].validity.spec_le(d[j as int].validity));
                    if a < j - 1 {
                        crate::dates::lemma_le_transitive(
                            d[a].validity,
                            d[j - 1].validity,
                            d[j as int].validity,
                        );
                    }
                }
            }
        }
        i = i + 1;
    }
}

/// The outcome of one create attempt on the given store contents: the
/// new contents, the new next id, and 1 when the record was inserted.
pub open spec fn create_outcome(
    view: Seq<MedicinalView>,
    next_id: int,
    m: crate::form::CreateMedicinalView,
) -> (Seq<MedicinalView>, int, nat) {
    if has_active_triple(view, m.name, m.category, m.batch_number) {
        (view, next_id, 0nat)
    } else if next_id == 0x7fff_ffff {
        (view, next_id, 0nat)
    } else {
        (view.push(created_record(next_id, m)), next_id + 1, 1nat)
    }
}

/// The store contents, next id and insert count after creating each of
/// `recs` in order, with per-record failures skipped.
pub open spec fn upload_fold(
    view: Seq<MedicinalView>,
    next_id: int,
    recs: Seq<crate::form::CreateMedicinalView>,
) -> (Seq<MedicinalView>, int, nat)
    decreases recs.len(),
{
    if recs.len() == 0 {
        (view, next_id, 0nat)
    } else {
        let p = upload_fold(view, next_id, recs.drop_last());
        let o = create_outcome(p.0, p.1, recs.last());
        (o.0, o.1, (p.2 + o.2) as nat)
    }
}

impl MemStore {
    /// Creates each ingested record in order, counting the inserts;
    /// a record whose create fails (a duplicate, or an exhausted id
    /// space) is skipped and the loop continues, as row-level failures
    /// are folded into counters.
    pub fn upload_into_store(&mut self, records: &Vec<CreateMedicinal>) -> (inserted: u32)
        requires
            old(self).wf(),
            forall|j: int|
                0 <= j < records.deep_view().len() ==> (
                #[trigger] records.deep_view()[j]).validity.well_formed(),
            records@.len() < 0x1_0000_0000,
        ensures
            final(self).wf(),
            final(self).view_records() == upload_fold(
                old(self).view_records(),
                old(self).next_id as int,
                records.deep_view(),
            ).0,
            final(self).next_id == upload_fold(
                old(self).view_records(),
                old(self).next_id as int,
                records.deep_view(),
            ).1,
            inserted == upload_fold(
                old(self).view_records(),
                old(self).next_id as int,
                records.deep_view(),
            ).2,
    {
        let ghost oview = self.view_records();
        let ghost onext = self.next_id as int;
        let ghost recs = records.deep_view();
        let mut inserted: u32 = 0;
        let n = records.len();
        let mut i: usize = 0;
        while i < n
            invariant
                n == records@.len(),
                n == recs.len(),
                recs == records.deep_view(),
                n < 0x1_0000_0000,
                0 <= i <= n,
                self.wf(),
                forall|j: int|
                    0 <= j < recs.len() ==> (#[trigger] recs[j]).validity.well_formed(),
                inserted <= i,
                self.view_records() == upload_fold(oview, onext, recs.subrange(0, i as int)).0,
                self.next_id == upload_fold(oview, onext, recs.subrange(0, i as int)).1,
                inserted == upload_fold(oview, onext, recs.subrange(0, i as int)).2,
            decreases n - i,
        {
            proof {
                assert(records.deep_view()[i as int] == records@[i as int]@);
                assert(recs.subrange(0, i + 1).drop_last() =~= recs.subrange(0, i as int));
                assert(recs.subrange(0, i + 1).last() == recs[i as int]);
            }
            match self.create(&records[i]) {
                Ok(_) => {
                    inserted = inserted + 1;
                },
                Err(_) => {
                    // Duplicate or exhausted id space: the row is
                    // counted as a failure and the loop continues.
                },
            }
            i = i + 1;
        }
        proof {
            assert(recs.subrange(0, n as int) =~= recs);
        }
        inserted
    }
}

} // verus!
