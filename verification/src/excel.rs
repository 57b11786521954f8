//! Column-width bookkeeping for the spreadsheet export: the widths the
//! sheet's six columns need, from the fixed headers and the records'
//! text lengths.  The actual sheet writing is outside work.

use vstd::prelude::*;

use vstd::utf8::encode_utf8;

use crate::model::MedicinalList;
use crate::model::MedicinalView;

verus! {

/// The larger of two widths.
pub open spec fn smax(a: int, b: int) -> int {
    if a >= b {
        a
    } else {
        b
    }
}

/// The byte length of a text, which is what the sheet's column widths
/// are measured by.
pub open spec fn bytelen(s: Seq<char>) -> int {
    encode_utf8(s).len() as int
}

/// The export's column order: category, name, batch number, spec,
/// count, then the date column at a fixed width of 11.
pub open spec fn row_widths(w: Seq<int>, v: MedicinalView) -> Seq<int> {
    w.update(0, smax(w[0], bytelen(v.category))).update(1, smax(w[1], bytelen(v.name))).update(
        2,
        smax(w[2], bytelen(v.batch_number)),
    ).update(3, smax(w[3], bytelen(v.spec))).update(4, smax(w[4], bytelen(v.count))).update(
        5,
        smax(w[5], 11),
    )
}

/// The widths after folding every record over the header widths.
pub open spec fn widths_fold(w: Seq<int>, rs: Seq<MedicinalView>) -> Seq<int>
    decreases rs.len(),
{
    if rs.len() == 0 {
        w
    } else {
        row_widths(widths_fold(w, rs.drop_last()), rs.last())
    }
}

/// Folding preserves the width vector's six columns.
proof fn lemma_widths_fold_len(w: Seq<int>, rs: Seq<MedicinalView>)
    requires
        w.len() == 6,
    ensures
        widths_fold(w, rs).len() == 6,
    decreases rs.len(),
{
    if rs.len() > 0 {
        lemma_widths_fold_len(w, rs.drop_last());
        let pre = widths_fold(w, rs.drop_last());
        assert(row_widths(pre, rs.last()).len() == pre.len());
    }
}

/// The byte widths of the six fixed header cells.
pub open spec fn header_widths() -> Seq<int> {
    seq![6, 12, 6, 6, 6, 9]
}

/// Raises the recorded width of a column to `new` when `new` is wider.
pub fn set_new_max_with(col: usize, new: usize, width_map: &mut Vec<usize>)
    requires
        col < old(width_map)@.len(),
    ensures
        final(width_map)@ == old(width_map)@.update(
            col as int,
            smax(old(width_map)@[col as int] as int, new as int) as usize,
        ),
{
    if new > width_map[col] {
        width_map[col] = new;
    } else {
        proof {
            assert(final(width_map)@ =~= old(width_map)@.update(
                col as int,
                smax(old(width_map)@[col as int] as int, new as int) as usize,
            ));
        }
    }
}

/// The width each of the export's six columns needs: the header's
/// width, raised to the byte length of the widest cell of that column
/// (the date column is fixed at 11).
pub fn column_widths(records: &Vec<MedicinalList>) -> (r: Vec<usize>)
    ensures
        r@.len() == 6,
        forall|k: int|
            0 <= k < 6 ==> #[trigger] r@[k] == widths_fold(
                header_widths(),
                records.deep_view(),
            )[k],
{
    let ghost rs = records.deep_view();
    let mut w: Vec<usize> = Vec::new();
    w.push(6);
    w.push(12);
    w.push(6);
    w.push(6);
    w.push(6);
    w.push(9);
    proof {
        assert(rs.subrange(0, 0) =~= Seq::<MedicinalView>::empty());
        assert forall|k: int| 0 <= k < 6 implies #[trigger] w@[k] == widths_fold(
            header_widths(),
            rs.subrange(0, 0),
        )[k] by {
            assert(widths_fold(header_widths(), rs.subrange(0, 0)) == header_widths());
        }
    }
    let n = records.len();
    let mut i: usize = 0;
    while i < n
        invariant
            n == records@.len(),
            n == rs.len(),
            rs == records.deep_view(),
            0 <= i <= n,
            w@.len() == 6,
            forall|k: int|
                0 <= k < 6 ==> #[trigger] w@[k] == widths_fold(
                    header_widths(),
                    rs.subrange(0, i as int),
                )[k],
        decreases n - i,
    {
        proof {
            assert(records.deep_view()[i as int] == records@[i as int]@);
            assert(rs.subrange(0, i + 1).drop_last() =~= rs.subrange(0, i as int));
            assert(rs.subrange(0, i + 1).last() == rs[i as int]);
        }
        let ghost w_pre = w@;
        let rec = &records[i];
        set_new_max_with(0, rec.category.as_str().as_bytes().len(), &mut w);
        set_new_max_with(1, rec.name.as_str().as_bytes().len(), &mut w);
        set_new_max_with(2, rec.batch_number.as_str().as_bytes().len(), &mut w);
        set_new_max_with(3, rec.spec.as_str().as_bytes().len(), &mut w);
        set_new_max_with(4, rec.count.as_str().as_bytes().len(), &mut w);
        set_new_max_with(5, 11, &mut w);
        proof {
            let fp = widths_fold(header_widths(), rs.subrange(0, i as int));
            lemma_widths_fold_len(header_widths(), rs.subrange(0, i as int));
            assert(fp.len() == 6);
            assert(widths_fold(header_widths(), rs.subrange(0, i + 1)) == row_widths(
                fp,
                rs[i as int],
            ));
            assert(w_pre[0] == fp[0] && w_pre[1] == fp[1] && w_pre[2] == fp[2] && w_pre[3] == fp[3]
                && w_pre[4] == fp[4] && w_pre[5] == fp[5]);
            assert forall|k: int| 0 <= k < 6 implies #[trigger] w@[k] == widths_fold(
                header_widths(),
                rs.subrange(0, i + 1),
            )[k] by {
                assert(row_widths(fp, rs[i as int])[k] == smax(fp[k], if k == 0 {
                    bytelen(rs[i as int].category)
                } else if k == 1 {
                    bytelen(rs[i as int].name)
                } else if k == 2 {
                    bytelen(rs[i as int].batch_number)
                } else if k == 3 {
                    bytelen(rs[i as int].spec)
                } else if k == 4 {
                    bytelen(rs[i as int].count)
                } else {
                    11int
                }));
            }
        }
        i = i + 1;
    }
    proof {
        assert(rs.subrange(0, n as int) =~= rs);
    }
    w
}

} // verus!
