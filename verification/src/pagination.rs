//! Paging of query results.

use vstd::prelude::*;

verus! {

/// One page of query results, with the paging bookkeeping.
pub struct Pagination<T> {
    /// Current page number, counted from 0.
    pub page: u32,
    /// Number of records per page.
    pub page_size: u8,
    /// Total number of records matching the query.
    pub total_records: i64,
    /// Total number of pages.
    pub total_pages: i64,
    /// The records of this page.
    pub data: T,
}

/// Number of pages needed for `total` records at `size` per page:
/// `total / size` rounded up.
pub open spec fn spec_total_pages(total: int, size: int) -> int {
    total / size + if total % size > 0 {
        1int
    } else {
        0int
    }
}

impl<T> Pagination<T> {
    /// Builds a page, computing the page count from the record count.
    pub fn new(page: u32, page_size: u8, total_records: i64, data: T) -> (r: Pagination<T>)
        requires
            page_size > 0,
            total_records >= 0,
        ensures
            r.page == page,
            r.page_size == page_size,
            r.total_records == total_records,
            r.total_pages == spec_total_pages(total_records as int, page_size as int),
            r.total_pages >= 0,
            r.data == data,
    {
        let ps = page_size as i64;
        proof {
            // t == ps * (t / ps) + t % ps, so a nonzero remainder puts
            // t / ps strictly below t, and adding the final partial page
            // cannot overflow.
            vstd::arithmetic::div_mod::lemma_fundamental_div_mod(
                total_records as int,
                ps as int,
            );
            assert(total_records % ps > 0 ==> total_records / ps < total_records)
                by (nonlinear_arith)
                requires
                    total_records >= 0,
                    ps >= 1,
            ;
        }
        let total_pages = total_records / ps + if total_records % ps > 0 {
            1
        } else {
            0
        };
        Pagination { page, page_size, total_records, total_pages, data }
    }
}

} // verus!
