//! Tolerant tabular ingestion: locates a category row and a header row in
//! a loosely structured grid of cells, maps header cells to semantic
//! fields by keyword, then turns the remaining rows into candidate
//! inventory records, counting attempted and accepted rows.

use vstd::prelude::*;

use crate::dates::Date;
use crate::error::AppError;
use crate::error::AppErrorType;
use crate::form::CreateMedicinal;
use crate::form::CreateMedicinalView;
use crate::strings::chars_eq;
use crate::strings::chars_to_string;
use crate::strings::clean;
use crate::strings::contains_chars;
use crate::strings::contains_sub;
use crate::strings::is_blank;
use crate::strings::remove_whitespace_chars;
use crate::strings::str_to_chars;
use crate::strings::trim_chars;
use crate::strings::trimmed;

verus! {

/// Keywords whose presence in a header cell marks the name column.
pub open spec fn name_keys() -> Seq<Seq<char>> {
    seq!["药品"@, "名称"@, "药名"@, "项目"@, "型号"@]
}

/// Keywords marking the validity (expiry date) column.
pub open spec fn validity_keys() -> Seq<Seq<char>> {
    seq!["有效期"@, "有效期至"@, "效期"@, "有效"@, "日期"@]
}

/// Keywords marking the count column.
pub open spec fn count_keys() -> Seq<Seq<char>> {
    seq!["数量"@, "基数"@, "数"@]
}

/// Keywords marking the batch-number column.
pub open spec fn batch_number_keys() -> Seq<Seq<char>> {
    seq!["批号"@, "生产日期"@, "生产"@]
}

/// Keywords marking the spec column.
pub open spec fn spec_keys() -> Seq<Seq<char>> {
    seq!["规格"@]
}

/// Keywords that mark a whole row (a signature or footer line) as not
/// being data.
pub open spec fn skip_keys() -> Seq<Seq<char>> {
    seq!["签名"@]
}

/// True when the non-empty cell, stripped of whitespace, contains one of
/// `keys` as a substring.
pub open spec fn cell_matches_keys(cell: Seq<char>, keys: Seq<Seq<char>>) -> bool {
    cell.len() > 0 && exists|k: int| 0 <= k < keys.len() && contains_sub(clean(cell), #[trigger] keys[k])
}

/// Index of the first cell of `row`, at or after `i`, matching `keys`.
pub open spec fn first_match_from(row: Seq<Seq<char>>, keys: Seq<Seq<char>>, i: int) -> Option<
    int,
>
    decreases row.len() - i,
{
    if i < 0 || i >= row.len() {
        None
    } else if cell_matches_keys(row[i], keys) {
        Some(i)
    } else {
        first_match_from(row, keys, i + 1)
    }
}

fn keys_from_strs(keys: &Vec<&str>) -> (r: Vec<Vec<char>>)
    ensures
        r.deep_view() == keys.deep_view(),
{
    let mut r: Vec<Vec<char>> = Vec::new();
    let mut i: usize = 0;
    while i < keys.len()
        invariant
            0 <= i <= keys@.len(),
            r@.len() == i,
            forall|j: int| 0 <= j < i ==> #[trigger] r@[j]@ == keys@[j]@,
        decreases keys@.len() - i,
    {
        r.push(str_to_chars(keys[i]));
        i = i + 1;
    }
    proof {
        assert forall|j: int| 0 <= j < keys@.len() implies r.deep_view()[j] == keys.deep_view()[j]
        by {
            assert(r.deep_view()[j] =~= r@[j]@);
        }
        assert(r.deep_view() =~= keys.deep_view());
    }
    r
}

/// The name-column keywords, as character vectors.
fn name_keys_exec() -> (r: Vec<Vec<char>>)
    ensures
        r.deep_view() == name_keys(),
{
    let mut ks: Vec<&str> = Vec::new();
    ks.push("药品");
    ks.push("名称");
    ks.push("药名");
    ks.push("项目");
    ks.push("型号");
    let r = keys_from_strs(&ks);
    proof {
        assert(r.deep_view() =~= name_keys());
    }
    r
}

/// The validity-column keywords, as character vectors.
fn validity_keys_exec() -> (r: Vec<Vec<char>>)
    ensures
        r.deep_view() == validity_keys(),
{
    let mut ks: Vec<&str> = Vec::new();
    ks.push("有效期");
    ks.push("有效期至");
    ks.push("效期");
    ks.push("有效");
    ks.push("日期");
    let r = keys_from_strs(&ks);
    proof {
        assert(r.deep_view() =~= validity_keys());
    }
    r
}

/// The count-column keywords, as character vectors.
fn count_keys_exec() -> (r: Vec<Vec<char>>)
    ensures
        r.deep_view() == count_keys(),
{
    let mut ks: Vec<&str> = Vec::new();
    ks.push("数量");
    ks.push("基数");
    ks.push("数");
    let r = keys_from_strs(&ks);
    proof {
        assert(r.deep_view() =~= count_keys());
    }
    r
}

/// The batch-number-column keywords, as character vectors.
fn batch_number_keys_exec() -> (r: Vec<Vec<char>>)
    ensures
        r.deep_view() == batch_number_keys(),
{
    let mut ks: Vec<&str> = Vec::new();
    ks.push("批号");
    ks.push("生产日期");
    ks.push("生产");
    let r = keys_from_strs(&ks);
    proof {
        assert(r.deep_view() =~= batch_number_keys());
    }
    r
}

/// The spec-column keywords, as character vectors.
fn spec_keys_exec() -> (r: Vec<Vec<char>>)
    ensures
        r.deep_view() == spec_keys(),
{
    let mut ks: Vec<&str> = Vec::new();
    ks.push("规格");
    let r = keys_from_strs(&ks);
    proof {
        assert(r.deep_view() =~= spec_keys());
    }
    r
}

/// The row-skipping keywords, as character vectors.
fn skip_keys_exec() -> (r: Vec<Vec<char>>)
    ensures
        r.deep_view() == skip_keys(),
{
    let mut ks: Vec<&str> = Vec::new();
    ks.push("签名");
    let r = keys_from_strs(&ks);
    proof {
        assert(r.deep_view() =~= skip_keys());
    }
    r
}

/// True when the non-empty cell, stripped of whitespace, contains one of
/// `keys` as a substring.
fn cell_matches(cell: &String, keys: &Vec<Vec<char>>) -> (r: bool)
    ensures
        r == cell_matches_keys(cell@, keys.deep_view()),
{
    if cell.as_str().is_empty() {
        return false;
    }
    let cs = str_to_chars(cell.as_str());
    let cleaned = remove_whitespace_chars(&cs);
    let mut k: usize = 0;
    while k < keys.len()
        invariant
            0 <= k <= keys@.len(),
            cleaned@ == clean(cell@),
            cell@.len() > 0,
            forall|t: int|
                0 <= t < k ==> !contains_sub(clean(cell@), #[trigger] keys.deep_view()[t]),
        decreases keys@.len() - k,
    {
        if contains_chars(&cleaned, &keys[k]) {
            proof {
                assert(keys.deep_view()[k as int] =~= keys@[k as int]@);
            }
            return true;
        }
        proof {
            assert(keys.deep_view()[k as int] =~= keys@[k as int]@);
        }
        k = k + 1;
    }
    false
}

/// The column map resolved from a header row: for each semantic field,
/// the index of the column holding it, when one was found.
#[derive(Clone, Copy, Debug)]
pub struct ColumnMap {
    pub name: Option<usize>,
    pub validity: Option<usize>,
    pub count: Option<usize>,
    pub batch_number: Option<usize>,
    pub spec: Option<usize>,
}

/// The plain values of a column map, for specifications.
pub ghost struct ColMapView {
    pub name: Option<int>,
    pub validity: Option<int>,
    pub count: Option<int>,
    pub batch_number: Option<int>,
    pub spec: Option<int>,
}

/// `o` as a mathematical option.
pub open spec fn opt_int(o: Option<usize>) -> Option<int> {
    match o {
        Some(i) => Some(i as int),
        None => None,
    }
}

impl View for ColumnMap {
    type V = ColMapView;

    open spec fn view(&self) -> ColMapView {
        ColMapView {
            name: opt_int(self.name),
            validity: opt_int(self.validity),
            count: opt_int(self.count),
            batch_number: opt_int(self.batch_number),
            spec: opt_int(self.spec),
        }
    }
}

/// True when every cell of the row is empty or whitespace-only.
pub open spec fn all_blank(row: Seq<Seq<char>>) -> bool {
    forall|i: int| 0 <= i < row.len() ==> is_blank(#[trigger] row[i])
}

/// True when some cell of the row carries a skip keyword, marking the
/// whole row as a signature or footer line.
pub open spec fn has_skip_key(row: Seq<Seq<char>>) -> bool {
    exists|i: int| 0 <= i < row.len() && cell_matches_keys(#[trigger] row[i], skip_keys())
}

/// True when the row qualifies as the category row: a non-empty first
/// cell and every other cell empty.
pub open spec fn is_category_row(row: Seq<Seq<char>>) -> bool {
    &&& row.len() >= 1
    &&& row[0].len() > 0
    &&& forall|i: int| 1 <= i < row.len() ==> (#[trigger] row[i]).len() == 0
}

/// The column map a row resolves to when read as a header.
pub open spec fn header_map_of(row: Seq<Seq<char>>) -> ColMapView {
    ColMapView {
        name: first_match_from(row, name_keys(), 0),
        validity: first_match_from(row, validity_keys(), 0),
        count: first_match_from(row, count_keys(), 0),
        batch_number: first_match_from(row, batch_number_keys(), 0),
        spec: first_match_from(row, spec_keys(), 0),
    }
}

/// A row is accepted as the header once both name and validity resolve,
/// to different columns.
pub open spec fn header_resolves(row: Seq<Seq<char>>) -> bool {
    let m = header_map_of(row);
    m.name is Some && m.validity is Some && m.name != m.validity
}

/// The cell at `idx`, or the empty cell when the row is too short.
pub open spec fn cell_at(row: Seq<Seq<char>>, idx: int) -> Seq<char> {
    if 0 <= idx < row.len() {
        row[idx]
    } else {
        Seq::<char>::empty()
    }
}

/// The column index of a mapped field, or an out-of-range index (read as
/// the empty cell) when the field is unmapped.
pub open spec fn col_or_neg(o: Option<int>) -> int {
    match o {
        Some(i) => i,
        None => -1,
    }
}

/// The sentinel substituted for missing optional text fields.
pub open spec fn sentinel() -> Seq<char> {
    "Empty"@
}

/// The trimmed cell of a mapped optional field, with the sentinel
/// substituted when the field is unmapped or the trimmed text empty.
pub open spec fn field_or_sentinel(row: Seq<Seq<char>>, o: Option<int>) -> Seq<char> {
    match o {
        Some(i) => {
            let t = trimmed(cell_at(row, i));
            if t.len() == 0 {
                sentinel()
            } else {
                t
            }
        },
        None => sentinel(),
    }
}

/// The fixed far-future date substituted when a validity cell reads
/// "无" (none).
pub open spec fn spec_default_validity() -> Date {
    Date { year: 2099, month: 12, day: 31 }
}

/// The fixed far-future date substituted when a validity cell reads
/// "无" (none).
pub fn default_validity_date() -> (r: Date)
    ensures
        r == spec_default_validity(),
        r.well_formed(),
{
    Date { year: 2099, month: 12, day: 31 }
}

/// The validity date of a data row: the parser's outcome, or the fixed
/// default when parsing failed and the cleaned cell reads "无".
pub open spec fn effective_validity(
    row: Seq<Seq<char>>,
    m: ColMapView,
    parse: Option<Date>,
) -> Option<Date> {
    match parse {
        Some(d) => Some(d),
        None => if clean(cell_at(row, col_or_neg(m.validity))) == "无"@ {
            Some(spec_default_validity())
        } else {
            None
        },
    }
}

/// The classifier and ingestor state after some prefix of the rows:
/// the category found so far, the resolved header, the two counters
/// and the records accepted so far.
pub ghost struct IngestState {
    pub category: Option<Seq<char>>,
    pub header: Option<ColMapView>,
    pub attempted: nat,
    pub accepted: nat,
    pub records: Seq<CreateMedicinalView>,
}

/// The state before any row was seen.
pub open spec fn init_state() -> IngestState {
    IngestState {
        category: None,
        header: None,
        attempted: 0,
        accepted: 0,
        records: Seq::empty(),
    }
}

/// The record a data row yields, given the resolved columns, the
/// category, and the row's validity date.
pub open spec fn record_of(
    row: Seq<Seq<char>>,
    m: ColMapView,
    category: Option<Seq<char>>,
    d: Date,
) -> CreateMedicinalView {
    CreateMedicinalView {
        name: trimmed(cell_at(row, col_or_neg(m.name))),
        category: match category {
            Some(c) => c,
            None => sentinel(),
        },
        batch_number: field_or_sentinel(row, m.batch_number),
        spec: field_or_sentinel(row, m.spec),
        count: field_or_sentinel(row, m.count),
        validity: d,
    }
}

/// One step of the classifier and ingestor: how one row, with the parse
/// outcome of its validity cell, moves the state forward.  Rules are
/// tried in order, first match wins.
pub open spec fn step(st: IngestState, row: Seq<Seq<char>>, parse: Option<Date>) -> IngestState {
    if row.len() < 2 {
        st
    } else if all_blank(row) {
        st
    } else if has_skip_key(row) {
        st
    } else if st.category is None && is_category_row(row) {
        IngestState {
            category: Some(trimmed(row[0])),
            header: st.header,
            attempted: st.attempted,
            accepted: st.accepted,
            records: st.records,
        }
    } else {
        match st.header {
            None => if header_resolves(row) {
                IngestState {
                    category: st.category,
                    header: Some(header_map_of(row)),
                    attempted: st.attempted,
                    accepted: st.accepted,
                    records: st.records,
                }
            } else {
                st
            },
            Some(m) => {
                let name = trimmed(cell_at(row, col_or_neg(m.name)));
                if name.len() == 0 {
                    IngestState {
                        category: st.category,
                        header: st.header,
                        attempted: st.attempted + 1,
                        accepted: st.accepted,
                        records: st.records,
                    }
                } else {
                    match effective_validity(row, m, parse) {
                        None => IngestState {
                            category: st.category,
                            header: st.header,
                            attempted: st.attempted + 1,
                            accepted: st.accepted,
                            records: st.records,
                        },
                        Some(d) => IngestState {
                            category: st.category,
                            header: st.header,
                            attempted: st.attempted + 1,
                            accepted: st.accepted + 1,
                            records: st.records.push(record_of(row, m, st.category, d)),
                        },
                    }
                }
            },
        }
    }
}

/// The classifier and ingestor run over all of `rows`, where `parses[i]`
/// is the outcome of date-parsing row `i`'s cleaned validity cell.
pub open spec fn run(rows: Seq<Seq<Seq<char>>>, parses: Seq<Option<Date>>) -> IngestState
    decreases rows.len(),
{
    if rows.len() == 0 {
        init_state()
    } else {
        step(
            run(rows.drop_last(), parses.drop_last()),
            rows.last(),
            parses[rows.len() - 1],
        )
    }
}

/// Every parse outcome that yields a date yields a well-formed one.
pub open spec fn parses_wf(parses: Seq<Option<Date>>) -> bool {
    forall|i: int|
        0 <= i < parses.len() ==> match #[trigger] parses[i] {
            Some(d) => d.well_formed(),
            None => true,
        }
}

/// Index of the first cell of `row` matching `keys`, if any.
fn find_col(row: &Vec<String>, keys: &Vec<Vec<char>>) -> (r: Option<usize>)
    ensures
        match r {
            Some(i) => first_match_from(row.deep_view(), keys.deep_view(), 0) == Some(i as int),
            None => first_match_from(row.deep_view(), keys.deep_view(), 0) is None,
        },
{
    let mut i: usize = 0;
    while i < row.len()
        invariant
            0 <= i <= row@.len(),
            first_match_from(row.deep_view(), keys.deep_view(), 0) == first_match_from(
                row.deep_view(),
                keys.deep_view(),
                i as int,
            ),
        decreases row@.len() - i,
    {
        if cell_matches(&row[i], keys) {
            proof {
                assert(row.deep_view()[i as int] == row@[i as int]@);
            }
            return Some(i);
        }
        proof {
            assert(row.deep_view()[i as int] == row@[i as int]@);
        }
        i = i + 1;
    }
    None
}

/// True when the cell is empty or whitespace-only.
fn cell_is_blank(c: &String) -> (r: bool)
    ensures
        r == is_blank(c@),
{
    let cs = str_to_chars(c.as_str());
    let cleaned = remove_whitespace_chars(&cs);
    cleaned.len() == 0
}

/// True when every cell of the row is empty or whitespace-only.
fn row_all_blank(row: &Vec<String>) -> (r: bool)
    ensures
        r == all_blank(row.deep_view()),
{
    let mut i: usize = 0;
    while i < row.len()
        invariant
            0 <= i <= row@.len(),
            forall|k: int| 0 <= k < i ==> is_blank(#[trigger] row.deep_view()[k]),
        decreases row@.len() - i,
    {
        proof {
            assert(row.deep_view()[i as int] == row@[i as int]@);
        }
        if !cell_is_blank(&row[i]) {
            return false;
        }
        i = i + 1;
    }
    true
}

/// True when some cell of the row carries a skip keyword.
fn row_has_skip_key(row: &Vec<String>, skip: &Vec<Vec<char>>) -> (r: bool)
    requires
        skip.deep_view() == skip_keys(),
    ensures
        r == has_skip_key(row.deep_view()),
{
    let mut i: usize = 0;
    while i < row.len()
        invariant
            skip.deep_view() == skip_keys(),
            0 <= i <= row@.len(),
            forall|k: int|
                0 <= k < i ==> !cell_matches_keys(#[trigger] row.deep_view()[k], skip_keys()),
        decreases row@.len() - i,
    {
        proof {
            assert(row.deep_view()[i as int] == row@[i as int]@);
        }
        if cell_matches(&row[i], skip) {
            return true;
        }
        i = i + 1;
    }
    false
}

/// True when the row qualifies as the category row.
fn row_is_category(row: &Vec<String>) -> (r: bool)
    requires
        row@.len() >= 1,
    ensures
        r == is_category_row(row.deep_view()),
{
    proof {
        assert(row.deep_view()[0] == row@[0]@);
    }
    if row[0].as_str().is_empty() {
        return false;
    }
    let mut i: usize = 1;
    while i < row.len()
        invariant
            1 <= i <= row@.len(),
            row.deep_view()[0].len() > 0,
            forall|k: int| 1 <= k < i ==> (#[trigger] row.deep_view()[k]).len() == 0,
        decreases row@.len() - i,
    {
        proof {
            assert(row.deep_view()[i as int] == row@[i as int]@);
        }
        if !row[i].as_str().is_empty() {
            return false;
        }
        i = i + 1;
    }
    true
}

/// Resolves the header's column map from a row.
fn resolve_header(
    row: &Vec<String>,
    name_ks: &Vec<Vec<char>>,
    validity_ks: &Vec<Vec<char>>,
    count_ks: &Vec<Vec<char>>,
    batch_ks: &Vec<Vec<char>>,
    spec_ks: &Vec<Vec<char>>,
) -> (r: ColumnMap)
    requires
        name_ks.deep_view() == name_keys(),
        validity_ks.deep_view() == validity_keys(),
        count_ks.deep_view() == count_keys(),
        batch_ks.deep_view() == batch_number_keys(),
        spec_ks.deep_view() == spec_keys(),
    ensures
        r@ == header_map_of(row.deep_view()),
{
    ColumnMap {
        name: find_col(row, name_ks),
        validity: find_col(row, validity_ks),
        count: find_col(row, count_ks),
        batch_number: find_col(row, batch_ks),
        spec: find_col(row, spec_ks),
    }
}

/// The cell at `idx` of the row, or the empty string when the row is
/// shorter (uploads may carry ragged rows).
fn get_cell(row: &Vec<String>, idx: usize) -> (r: String)
    ensures
        r@ == cell_at(row.deep_view(), idx as int),
{
    if idx < row.len() {
        proof {
            assert(row.deep_view()[idx as int] == row@[idx as int]@);
        }
        row[idx].clone()
    } else {
        String::new()
    }
}

/// The trimmed cell of a mapped optional field, with the sentinel
/// substituted when the field is unmapped or the trimmed text empty.
fn field_value(row: &Vec<String>, col: &Option<usize>) -> (r: String)
    ensures
        r@ == field_or_sentinel(row.deep_view(), opt_int(*col)),
{
    match col {
        Some(i) => {
            let cell = get_cell(row, *i);
            let cs = str_to_chars(cell.as_str());
            let t = trim_chars(&cs);
            if t.len() == 0 {
                "Empty".to_owned()
            } else {
                chars_to_string(&t)
            }
        },
        None => "Empty".to_owned(),
    }
}

/// Relies on dateparser (`str::parse::<DateTimeUtc>`), chrono's local
/// time zone conversion and chrono's `Datelike` getters: the permissive
/// parse of a date string, handed back as plain year, month and day in
/// the local calendar.  The outcome may depend on the clock and on the
/// machine's time zone (relative and partial date formats are completed
/// from the current moment), so nothing relates it to the input text;
/// chrono documents month as 1..=12 and day as 1..=31.
#[verifier::external_body]
fn parse_date_cell(s: &str) -> (r: Option<(i64, u32, u32)>)
    ensures
        r matches Some(p) ==> 1 <= p.1 <= 12 && 1 <= p.2 <= 31,
{
    match s.parse::<dateparser::DateTimeUtc>() {
        Ok(dt) => {
            let local = dt.0.with_timezone(&chrono::Local);
            Some((
                chrono::Datelike::year(&local) as i64,
                chrono::Datelike::month(&local),
                chrono::Datelike::day(&local),
            ))
        },
        Err(_) => None,
    }
}

/// Permissively parses a date cell, returning the calendar date or
/// `None` when the text does not parse (or falls outside the four-digit
/// year range this library handles).
pub fn parse_validity(cell: &str) -> (r: Option<Date>)
    ensures
        r matches Some(d) ==> d.well_formed(),
{
    match parse_date_cell(cell) {
        Some((y, m, d)) => crate::dates::date_from_ymd(y, m, d),
        None => None,
    }
}

/// Runs the classifier and ingestor over the rows of one upload,
/// returning the accepted candidate records, the number of data rows
/// attempted, and the number accepted.
///
/// [`run`] pins the whole result down, given the outcomes of
/// date-parsing each row's cleaned validity cell (those outcomes may
/// depend on the clock and the machine's time zone, so they stand as a
/// parameter of the specification).
pub fn process_rows(rows: &Vec<Vec<String>>) -> (r: (Vec<CreateMedicinal>, u32, u32))
    requires
        rows@.len() < 0x1_0000_0000,
    ensures
        exists|parses: Seq<Option<Date>>|
            {
                &&& #[trigger] parses_wf(parses)
                &&& parses.len() == rows@.len()
                &&& r.0.deep_view() == run(rows.deep_view(), parses).records
                &&& r.1 == run(rows.deep_view(), parses).attempted
                &&& r.2 == run(rows.deep_view(), parses).accepted
            },
{
    let name_ks = name_keys_exec();
    let validity_ks = validity_keys_exec();
    let count_ks = count_keys_exec();
    let batch_ks = batch_number_keys_exec();
    let spec_ks = spec_keys_exec();
    let skip_ks = skip_keys_exec();

    let mut category: Option<String> = None;
    let mut colmap: Option<ColumnMap> = None;
    let mut attempted: u32 = 0;
    let mut accepted: u32 = 0;
    let mut out: Vec<CreateMedicinal> = Vec::new();
    let ghost mut parses: Seq<Option<Date>> = Seq::empty();

    let n = rows.len();
    let mut i: usize = 0;
    while i < n
        invariant
            n == rows@.len(),
            n < 0x1_0000_0000,
            0 <= i <= n,
            name_ks.deep_view() == name_keys(),
            validity_ks.deep_view() == validity_keys(),
            count_ks.deep_view() == count_keys(),
            batch_ks.deep_view() == batch_number_keys(),
            spec_ks.deep_view() == spec_keys(),
            skip_ks.deep_view() == skip_keys(),
            parses.len() == i,
            parses_wf(parses),
            ({
                let st = run(rows.deep_view().subrange(0, i as int), parses);
                &&& match (category, st.category) {
                    (Some(c), Some(sc)) => c@ == sc,
                    (None, None) => true,
                    _ => false,
                }
                &&& match (colmap, st.header) {
                    (Some(cm), Some(sm)) => cm@ == sm,
                    (None, None) => true,
                    _ => false,
                }
                &&& attempted == st.attempted
                &&& accepted == st.accepted
                &&& attempted <= i
                &&& accepted <= i
                &&& out.deep_view() == st.records
            }),
        decreases n - i,
    {
        let ghost rows_v = rows.deep_view();
        let ghost st_pre = run(rows_v.subrange(0, i as int), parses);
        let row = &rows[i];
        proof {
            assert(rows_v[i as int] == rows@[i as int].deep_view());
        }
        let ghost rowv = rows_v[i as int];
        let ghost mut parse_i: Option<Date> = None;

        if row.len() < 2 {
            // Too few cells to be data: skipped entirely.
        } else if row_all_blank(row) {
            // Blank line: skipped entirely.
        } else if row_has_skip_key(row, &skip_ks) {
            // Signature or footer line: skipped entirely.
        } else if category.is_none() && row_is_category(row) {
            proof {
                assert(rowv[0] == row@[0]@);
            }
            let cs = str_to_chars(row[0].as_str());
            let t = trim_chars(&cs);
            category = Some(chars_to_string(&t));
        } else {
            match &colmap {
                None => {
                    let m = resolve_header(row, &name_ks, &validity_ks, &count_ks, &batch_ks, &spec_ks);
                    let ok = match (m.name, m.validity) {
                        (Some(a), Some(b)) => a != b,
                        _ => false,
                    };
                    if ok {
                        colmap = Some(m);
                    }
                },
                Some(cm) => {
                    attempted = attempted + 1;
                    let name_cell = match cm.name {
                        Some(ix) => get_cell(row, ix),
                        None => String::new(),
                    };
                    let ncs = str_to_chars(name_cell.as_str());
                    let name_t = trim_chars(&ncs);
                    if name_t.len() == 0 {
                        // Name missing: the row is rejected.
                    } else {
                        let vcell = match cm.validity {
                            Some(ix) => get_cell(row, ix),
                            None => String::new(),
                        };
                        let vcs = str_to_chars(vcell.as_str());
                        let cleaned = remove_whitespace_chars(&vcs);
                        let cleaned_s = chars_to_string(&cleaned);
                        let parsed = parse_validity(cleaned_s.as_str());
                        proof {
                            parse_i = parsed;
                        }
                        let vdate: Option<Date> = match parsed {
                            Some(d) => Some(d),
                            None => {
                                let none_lit = str_to_chars("无");
                                if chars_eq(&cleaned, &none_lit) {
                                    Some(default_validity_date())
                                } else {
                                    None
                                }
                            },
                        };
                        match vdate {
                            None => {
                                // Unparseable validity: the row is rejected.
                            },
                            Some(d) => {
                                accepted = accepted + 1;
                                let cat_s = match &category {
                                    Some(c) => c.clone(),
                                    None => "Empty".to_owned(),
                                };
                                let rec = CreateMedicinal {
                                    name: chars_to_string(&name_t),
                                    category: cat_s,
                                    batch_number: field_value(row, &cm.batch_number),
                                    spec: field_value(row, &cm.spec),
                                    count: field_value(row, &cm.count),
                                    validity: d,
                                };
                                proof {
                                    assert(rec@ == record_of(
                                        rowv,
                                        match colmap {
                                            Some(c) => c@,
                                            None => header_map_of(rowv),
                                        },
                                        st_pre.category,
                                        d,
                                    ));
                                }
                                let ghost out_pre = out.deep_view();
                                out.push(rec);
                                proof {
                                    assert(out.deep_view() =~= out_pre.push(rec@));
                                }
                            },
                        }
                    }
                },
            }
        }

        proof {
            let parses2 = parses.push(parse_i);
            let sub1 = rows_v.subrange(0, i as int);
            let sub2 = rows_v.subrange(0, i + 1);
            assert(sub2.drop_last() =~= sub1);
            assert(parses2.drop_last() =~= parses);
            assert(sub2.last() == rowv);
            assert(parses2[sub2.len() - 1] == parse_i);
            assert(run(sub2, parses2) == step(st_pre, rowv, parse_i));
            parses = parses2;
        }
        i = i + 1;
    }
    proof {
        assert(rows.deep_view().subrange(0, n as int) =~= rows.deep_view());
    }
    (out, attempted, accepted)
}

/// When no row of the upload ever resolves a header (in particular when
/// the name and validity keywords always land on the same column), no
/// data row is classified: zero records, zero attempted, zero accepted.
pub proof fn lemma_no_header_no_records(rows: Seq<Seq<Seq<char>>>, parses: Seq<Option<Date>>)
    requires
        forall|i: int| 0 <= i < rows.len() ==> !header_resolves(#[trigger] rows[i]),
    ensures
        run(rows, parses).header is None,
        run(rows, parses).records.len() == 0,
        run(rows, parses).attempted == 0,
        run(rows, parses).accepted == 0,
    decreases rows.len(),
{
    if rows.len() > 0 {
        lemma_no_header_no_records(rows.drop_last(), parses.drop_last());
        assert(rows[rows.len() - 1] == rows.last());
    }
}

/// When the header row's name and validity keywords resolve to the same
/// column index in every row, zero records are ingested.
pub proof fn lemma_same_column_zero_records(rows: Seq<Seq<Seq<char>>>, parses: Seq<Option<Date>>)
    requires
        forall|i: int|
            0 <= i < rows.len() ==> (#[trigger] header_map_of(rows[i])).name == header_map_of(
                rows[i],
            ).validity,
    ensures
        run(rows, parses).records.len() == 0,
        run(rows, parses).attempted == 0,
        run(rows, parses).accepted == 0,
{
    assert forall|i: int| 0 <= i < rows.len() implies !header_resolves(#[trigger] rows[i]) by {
        assert(header_map_of(rows[i]).name == header_map_of(rows[i]).validity);
    }
    lemma_no_header_no_records(rows, parses);
}

/// True when the row reaches per-row validation: it has at least two
/// cells, is not blank, carries no skip keyword, and is not read as the
/// category row.
pub open spec fn reaches_data(st: IngestState, row: Seq<Seq<char>>) -> bool {
    &&& st.header is Some
    &&& row.len() >= 2
    &&& !all_blank(row)
    &&& !has_skip_key(row)
    &&& !(st.category is None && is_category_row(row))
}

/// A data row whose name cell is empty after trimming increments
/// `attempted` but not `accepted`, and yields no record.
pub proof fn lemma_empty_name_rejected(st: IngestState, row: Seq<Seq<char>>, parse: Option<Date>)
    requires
        reaches_data(st, row),
        st.header matches Some(m) && trimmed(cell_at(row, col_or_neg(m.name))).len() == 0,
    ensures
        step(st, row, parse).attempted == st.attempted + 1,
        step(st, row, parse).accepted == st.accepted,
        step(st, row, parse).records == st.records,
{
}

/// A data row whose validity cell fails date parsing but reads "无"
/// once cleaned is accepted with the fixed default date 2099-12-31.
pub proof fn lemma_none_marker_default_date(
    st: IngestState,
    row: Seq<Seq<char>>,
    m: ColMapView,
)
    requires
        reaches_data(st, row),
        st.header == Some(m),
        trimmed(cell_at(row, col_or_neg(m.name))).len() > 0,
        clean(cell_at(row, col_or_neg(m.validity))) == "无"@,
    ensures
        step(st, row, None).accepted == st.accepted + 1,
        step(st, row, None).records == st.records.push(
            record_of(row, m, st.category, spec_default_validity()),
        ),
        step(st, row, None).records.last().validity == (Date { year: 2099, month: 12, day: 31 }),
{
}

/// The text that decoding a byte stream as GBK (with replacement of
/// malformed sequences) yields; a function of the bytes alone.
pub uninterp spec fn gbk_text_of(bytes: Seq<u8>) -> Seq<char>;

/// The grid of cells that reading a text as comma-separated values
/// yields: the well-formed records in order, each as its fields.  Rows
/// whose field count deviates from the first row's are dropped, as the
/// reader reports them as errors.  A function of the text alone.
pub uninterp spec fn csv_rows_of(text: Seq<char>) -> Seq<Seq<Seq<char>>>;

/// Relies on encoding_rs's GBK decoder: decoding is a pure function of
/// the input bytes, replacing unmappable sequences rather than failing.
#[verifier::external_body]
fn decode_gbk(bytes: &Vec<u8>) -> (r: String)
    ensures
        r@ == gbk_text_of(bytes@),
{
    let (text, _, _) = encoding_rs::GBK.decode(bytes);
    text.into_owned()
}

/// Relies on the csv crate's reader (no headers, comma-delimited, read
/// from an in-memory buffer): parsing is a pure function of the text;
/// records with a deviating field count come back as errors and are
/// dropped.
#[verifier::external_body]
fn csv_parse(text: &str) -> (r: Vec<Vec<String>>)
    ensures
        r.deep_view() == csv_rows_of(text@),
{
    let mut rdr = csv::ReaderBuilder::new().has_headers(false).delimiter(b',').from_reader(
        text.as_bytes(),
    );
    let mut rows: Vec<Vec<String>> = Vec::new();
    for rec in rdr.records() {
        match rec {
            Ok(sr) => rows.push(sr.iter().map(|f| f.to_string()).collect()),
            Err(_) => {},
        }
    }
    rows
}

/// Loads one delimited-text upload: normalizes the legacy GBK encoding
/// to unicode, tokenizes the rows, and runs the classifier and
/// ingestor over them.
///
/// Fails only when the upload holds too many rows for the counters.
pub fn load_csv(data: &Vec<u8>) -> (r: Result<(Vec<CreateMedicinal>, u32, u32), AppError>)
    ensures
        match r {
            Ok(t) => exists|parses: Seq<Option<Date>>|
                {
                    &&& #[trigger] parses_wf(parses)
                    &&& parses.len() == csv_rows_of(gbk_text_of(data@)).len()
                    &&& t.0.deep_view() == run(csv_rows_of(gbk_text_of(data@)), parses).records
                    &&& t.1 == run(csv_rows_of(gbk_text_of(data@)), parses).attempted
                    &&& t.2 == run(csv_rows_of(gbk_text_of(data@)), parses).accepted
                },
            Err(e) => {
                &&& e.error_type == AppErrorType::CSVError
                &&& csv_rows_of(gbk_text_of(data@)).len() >= 0x1_0000_0000
            },
        },
{
    let text = decode_gbk(data);
    let rows = csv_parse(text.as_str());
    proof {
        assert(rows@.len() == rows.deep_view().len());
    }
    if rows.len() as u64 >= 0x1_0000_0000u64 {
        return Err(AppError::from_str("太多行", AppErrorType::CSVError));
    }
    Ok(process_rows(&rows))
}

/// True when the file name carries the `.csv` extension this upload
/// boundary accepts: it ends in `.csv` and is not the bare `.csv`.
pub open spec fn spec_csv_filename(s: Seq<char>) -> bool {
    s.len() >= 5 && s.subrange(s.len() - 4, s.len() as int) == ".csv"@
}

/// Checks that an uploaded file name carries the `.csv` extension;
/// other extensions are rejected before any parsing is attempted.
pub fn upload_filename_ok(filename: &str) -> (r: bool)
    ensures
        r == spec_csv_filename(filename@),
{
    let cs = str_to_chars(filename);
    if cs.len() < 5 {
        return false;
    }
    let ext = str_to_chars(".csv");
    let n = cs.len();
    let mut tail: Vec<char> = Vec::new();
    tail.push(cs[n - 4]);
    tail.push(cs[n - 3]);
    tail.push(cs[n - 2]);
    tail.push(cs[n - 1]);
    proof {
        assert(tail@ =~= filename@.subrange(filename@.len() - 4, filename@.len() as int));
    }
    chars_eq(&tail, &ext)
}

/// Every record the classifier and ingestor emit carries a well-formed
/// validity date, as long as every parse outcome does.
pub proof fn lemma_run_records_wf(rows: Seq<Seq<Seq<char>>>, parses: Seq<Option<Date>>)
    requires
        parses_wf(parses),
        parses.len() == rows.len(),
    ensures
        forall|j: int|
            0 <= j < run(rows, parses).records.len() ==> (
            #[trigger] run(rows, parses).records[j]).validity.well_formed(),
    decreases rows.len(),
{
    if rows.len() > 0 {
        lemma_run_records_wf(rows.drop_last(), parses.drop_last());
        let st = run(rows.drop_last(), parses.drop_last());
        let fin = run(rows, parses);
        assert forall|j: int|
            0 <= j < fin.records.len() implies (#[trigger] fin.records[j]).validity.well_formed() by {
            if j < st.records.len() {
                assert(st.records[j].validity.well_formed());
            }
        }
    }
}

/// The classifier and ingestor keep no state across invocations: the
/// outcome is a function of the rows and of the per-row date-parse
/// outcomes alone, so re-running them on an unchanged row set with the
/// same parse outcomes yields the same record set and counters.
pub proof fn lemma_ingest_idempotent(
    rows1: Seq<Seq<Seq<char>>>,
    parses1: Seq<Option<Date>>,
    rows2: Seq<Seq<Seq<char>>>,
    parses2: Seq<Option<Date>>,
)
    requires
        rows1 == rows2,
        parses1 == parses2,
    ensures
        run(rows1, parses1) == run(rows2, parses2),
{
}

} // verus!
