//! The fixed reads of the destination table, over its rows in table order:
//! the first rows, a soda-frequency threshold, a heart-disease filter and a
//! lookup by ID.
use vstd::prelude::*;
use crate::extract::min;
use crate::schema::{Record, RecordView, records_view};

verus! {

/// How many rows a listing or a filter returns at most.
pub const REPORT_LIMIT: usize = 5;

/// Soda frequencies above this count as frequent.
pub const SODA_THRESHOLD: i32 = 3;

/// The columns of a frequent-soda row.
#[derive(Debug, Clone, Copy, PartialEq, Eq, Structural)]
pub struct SodaRow {
    pub id: i32,
    pub soda: i32,
    pub eggs: i32,
    pub fries: i32,
}

/// The columns of a heart-disease row.
#[derive(Debug, Clone, Copy, PartialEq, Eq, Structural)]
pub struct HeartRow {
    pub id: i32,
    pub eggs: i32,
    pub salad: i32,
    pub fries: i32,
    pub soda: i32,
}

/// The first `REPORT_LIMIT` items of `s`.
pub open spec fn limited<T>(s: Seq<T>) -> Seq<T> {
    s.take(min(s.len() as int, REPORT_LIMIT as int))
}

pub open spec fn soda_row_of(r: RecordView) -> SodaRow {
    SodaRow { id: r.id, soda: r.soda, eggs: r.eggs, fries: r.fries }
}

pub open spec fn heart_row_of(r: RecordView) -> HeartRow {
    HeartRow { id: r.id, eggs: r.eggs, salad: r.salad, fries: r.fries, soda: r.soda }
}

pub open spec fn is_frequent_soda(r: RecordView) -> bool {
    r.soda > SODA_THRESHOLD
}

pub open spec fn has_heart_disease(r: RecordView) -> bool {
    r.heart_disease == "Yes"@
}

/// The soda rows of all the rows of `rows` with a frequent soda value, in order.
pub open spec fn soda_matches(rows: Seq<RecordView>) -> Seq<SodaRow>
    decreases rows.len(),
{
    if rows.len() == 0 {
        Seq::empty()
    } else {
        let p = soda_matches(rows.drop_last());
        if is_frequent_soda(rows.last()) {
            p.push(soda_row_of(rows.last()))
        } else {
            p
        }
    }
}

/// The heart rows of all the rows of `rows` with heart disease, in order.
pub open spec fn heart_matches(rows: Seq<RecordView>) -> Seq<HeartRow>
    decreases rows.len(),
{
    if rows.len() == 0 {
        Seq::empty()
    } else {
        let p = heart_matches(rows.drop_last());
        if has_heart_disease(rows.last()) {
            p.push(heart_row_of(rows.last()))
        } else {
            p
        }
    }
}

/// The first row of `rows` whose ID is `id`.
pub open spec fn lookup(rows: Seq<RecordView>, id: i32) -> Option<RecordView>
    decreases rows.len(),
{
    if rows.len() == 0 {
        None
    } else if rows[0].id == id {
        Some(rows[0])
    } else {
        lookup(rows.drop_first(), id)
    }
}

/// Whether no two rows of `rows` share an ID, as the table's primary key
/// demands.
pub open spec fn ids_unique(rows: Seq<RecordView>) -> bool {
    forall|i: int, j: int| 0 <= i < rows.len() && 0 <= j < rows.len() && i != j ==> rows[i].id != rows[j].id
}

/// Every item of `limited(s)` is an item of `s`, and there are at most
/// `REPORT_LIMIT` of them.
pub proof fn lemma_limited_within<T>(s: Seq<T>)
    ensures
        limited(s).len() <= REPORT_LIMIT,
        forall|i: int| 0 <= i < limited(s).len() ==> #[trigger] limited(s)[i] == s[i],
{
}

/// Whether `x` is the soda row of a row of `rows` with a frequent soda value.
pub open spec fn from_frequent_row(rows: Seq<RecordView>, x: SodaRow) -> bool {
    exists|k: int| 0 <= k < rows.len() && is_frequent_soda(rows[k]) && x == soda_row_of(#[trigger] rows[k])
}

/// Each soda match is the soda row of a row with a frequent soda value.
pub proof fn lemma_soda_matches_frequent(rows: Seq<RecordView>)
    ensures
        forall|i: int| 0 <= i < soda_matches(rows).len() ==> from_frequent_row(rows, #[trigger] soda_matches(rows)[i]),
    decreases rows.len(),
{
    if rows.len() > 0 {
        let p = rows.drop_last();
        lemma_soda_matches_frequent(p);
        assert forall|i: int| 0 <= i < soda_matches(rows).len() implies from_frequent_row(rows, #[trigger] soda_matches(rows)[i]) by {
            if i < soda_matches(p).len() {
                assert(from_frequent_row(p, soda_matches(p)[i]));
                let k = choose|k: int| 0 <= k < p.len() && is_frequent_soda(p[k]) && soda_matches(p)[i] == soda_row_of(#[trigger] p[k]);
                assert(rows[k] == p[k]);
            } else {
                assert(rows[rows.len() - 1] == rows.last());
            }
        }
    }
}

/// The threshold filter returns at most `REPORT_LIMIT` rows, each the soda
/// row of a table row whose soda frequency is above `SODA_THRESHOLD`.
pub proof fn lemma_frequent_soda_bounded(rows: Seq<RecordView>)
    ensures
        limited(soda_matches(rows)).len() <= REPORT_LIMIT,
        forall|i: int| 0 <= i < limited(soda_matches(rows)).len() ==> (#[trigger] limited(soda_matches(rows))[i]).soda > SODA_THRESHOLD,
        forall|i: int| 0 <= i < limited(soda_matches(rows)).len() ==> from_frequent_row(rows, #[trigger] limited(soda_matches(rows))[i]),
{
    lemma_limited_within(soda_matches(rows));
    lemma_soda_matches_frequent(rows);
    assert forall|i: int| 0 <= i < limited(soda_matches(rows)).len() implies (#[trigger] limited(soda_matches(rows))[i]).soda > SODA_THRESHOLD
        && from_frequent_row(rows, limited(soda_matches(rows))[i]) by {
        assert(limited(soda_matches(rows))[i] == soda_matches(rows)[i]);
        assert(from_frequent_row(rows, soda_matches(rows)[i]));
    }
}

/// In a table whose IDs are unique, looking up the ID of a row gives that
/// row back, every value unchanged.
pub proof fn lemma_lookup_round_trip(rows: Seq<RecordView>, k: int)
    requires
        ids_unique(rows),
        0 <= k < rows.len(),
    ensures
        lookup(rows, rows[k].id) == Some(rows[k]),
    decreases rows.len(),
{
    if k > 0 {
        let rest = rows.drop_first();
        assert(rows[0].id != rows[k].id);
        assert(rest[k - 1] == rows[k]);
        assert(ids_unique(rest)) by {
            assert forall|i: int, j: int| 0 <= i < rest.len() && 0 <= j < rest.len() && i != j implies rest[i].id != rest[j].id by {
                assert(rest[i] == rows[i + 1] && rest[j] == rows[j + 1]);
            }
        }
        lemma_lookup_round_trip(rest, k - 1);
    }
}

/// Looking up an ID that no row has finds nothing.
pub proof fn lemma_lookup_absent(rows: Seq<RecordView>, id: i32)
    requires
        forall|k: int| 0 <= k < rows.len() ==> (#[trigger] rows[k]).id != id,
    ensures
        lookup(rows, id) is None,
    decreases rows.len(),
{
    if rows.len() > 0 {
        let rest = rows.drop_first();
        assert(rows[0].id != id);
        assert forall|k: int| 0 <= k < rest.len() implies (#[trigger] rest[k]).id != id by {
            assert(rest[k] == rows[k + 1]);
        }
        lemma_lookup_absent(rest, id);
    }
}

proof fn lemma_limited_push<T>(p: Seq<T>, x: T)
    ensures
        limited(p.push(x)) == if p.len() < REPORT_LIMIT {
            limited(p).push(x)
        } else {
            limited(p)
        },
{
    if p.len() < REPORT_LIMIT {
        assert(limited(p.push(x)) =~= limited(p).push(x));
    } else {
        assert(limited(p.push(x)) =~= limited(p));
    }
}

/// The first `REPORT_LIMIT` rows of the table.
pub fn read_data(rows: &Vec<Record>) -> (r: Vec<Record>)
    ensures
        records_view(r@) == limited(records_view(rows@)),
{
    let mut out: Vec<Record> = Vec::new();
    let mut i: usize = 0;
    while i < rows.len() && i < REPORT_LIMIT
        invariant
            i <= rows.len(),
            i <= REPORT_LIMIT,
            records_view(out@) =~= records_view(rows@).take(i as int),
        decreases rows.len() - i,
    {
        let ghost before = out@;
        let rec = rows[i].duplicate();
        out.push(rec);
        assert(out@ == before.push(rec));
        assert(records_view(out@) =~= records_view(before).push(rec@));
        i += 1;
    }
    assert(records_view(out@) =~= limited(records_view(rows@)));
    out
}

/// ID, soda, eggs and fries of at most `REPORT_LIMIT` rows whose soda
/// frequency is above `SODA_THRESHOLD`, the first such rows in table order.
pub fn query_frequent_soda(rows: &Vec<Record>) -> (r: Vec<SodaRow>)
    ensures
        r@ == limited(soda_matches(records_view(rows@))),
{
    let ghost all = records_view(rows@);
    let mut out: Vec<SodaRow> = Vec::new();
    let mut i: usize = 0;
    while i < rows.len()
        invariant
            i <= rows.len(),
            all == records_view(rows@),
            out@ == limited(soda_matches(all.take(i as int))),
        decreases rows.len() - i,
    {
        let rec = &rows[i];
        assert(all.take(i + 1).drop_last() =~= all.take(i as int));
        assert(all.take(i + 1).last() == rec@);
        proof {
            lemma_limited_push(soda_matches(all.take(i as int)), soda_row_of(rec@));
        }
        if rec.soda > SODA_THRESHOLD && out.len() < REPORT_LIMIT {
            out.push(SodaRow { id: rec.id, soda: rec.soda, eggs: rec.eggs, fries: rec.fries });
        }
        i += 1;
    }
    assert(all.take(rows.len() as int) =~= all);
    out
}

/// ID, eggs, salad, fries and soda of at most `REPORT_LIMIT` rows whose
/// heart-disease value is `Yes`, the first such rows in table order.
pub fn query_heart_disease(rows: &Vec<Record>) -> (r: Vec<HeartRow>)
    ensures
        r@ == limited(heart_matches(records_view(rows@))),
{
    let yes = String::from_str("Yes");
    let ghost all = records_view(rows@);
    let mut out: Vec<HeartRow> = Vec::new();
    let mut i: usize = 0;
    while i < rows.len()
        invariant
            i <= rows.len(),
            all == records_view(rows@),
            yes@ == "Yes"@,
            out@ == limited(heart_matches(all.take(i as int))),
        decreases rows.len() - i,
    {
        let rec = &rows[i];
        assert(all.take(i + 1).drop_last() =~= all.take(i as int));
        assert(all.take(i + 1).last() == rec@);
        proof {
            lemma_limited_push(heart_matches(all.take(i as int)), heart_row_of(rec@));
        }
        if rec.heart_disease == yes && out.len() < REPORT_LIMIT {
            out.push(HeartRow { id: rec.id, eggs: rec.eggs, salad: rec.salad, fries: rec.fries, soda: rec.soda });
        }
        i += 1;
    }
    assert(all.take(rows.len() as int) =~= all);
    out
}

/// The row whose ID is `user_id`, the first one in table order.
pub fn find_user_by_id(rows: &Vec<Record>, user_id: i32) -> (r: Option<Record>)
    ensures
        match r {
            Some(rec) => lookup(records_view(rows@), user_id) == Some(rec@),
            None => lookup(records_view(rows@), user_id) is None,
        },
{
    let ghost all = records_view(rows@);
    assert(all.subrange(0, all.len() as int) =~= all);
    let mut i: usize = 0;
    while i < rows.len()
        invariant
            i <= rows.len(),
            all == records_view(rows@),
            lookup(all, user_id) == lookup(all.subrange(i as int, all.len() as int), user_id),
        decreases rows.len() - i,
    {
        let ghost rest = all.subrange(i as int, all.len() as int);
        assert(rest.drop_first() =~= all.subrange(i + 1, all.len() as int));
        if rows[i].id == user_id {
            return Some(rows[i].duplicate());
        }
        i += 1;
    }
    None
}

/// The two sample rows of the demonstration.
pub open spec fn sample_rows() -> Seq<RecordView> {
    seq![
        RecordView {
            id: 1,
            cancer: "Yes"@,
            diabetes: "No"@,
            heart_disease: "No"@,
            eggs: 2,
            salad: 5,
            fries: 3,
            milk: 4,
            soda: 1,
            coffee: 2,
            cakes: 3,
        },
        RecordView {
            id: 2,
            cancer: "No"@,
            diabetes: "Yes"@,
            heart_disease: "Yes"@,
            eggs: 4,
            salad: 3,
            fries: 2,
            milk: 5,
            soda: 2,
            coffee: 4,
            cakes: 1,
        },
    ]
}

/// The two sample records that the demonstration inserts, IDs 1 and 2.
pub fn insert_data() -> (r: Vec<Record>)
    ensures
        records_view(r@) == sample_rows(),
{
    let r = vec![
        Record {
            id: 1,
            cancer: String::from_str("Yes"),
            diabetes: String::from_str("No"),
            heart_disease: String::from_str("No"),
            eggs: 2,
            salad: 5,
            fries: 3,
            milk: 4,
            soda: 1,
            coffee: 2,
            cakes: 3,
        },
        Record {
            id: 2,
            cancer: String::from_str("No"),
            diabetes: String::from_str("Yes"),
            heart_disease: String::from_str("Yes"),
            eggs: 4,
            salad: 3,
            fries: 2,
            milk: 5,
            soda: 2,
            coffee: 4,
            cakes: 1,
        },
    ];
    assert(records_view(r@) =~= sample_rows());
    r
}

} // verus!
