//! Typed records from the rows of a subset CSV.
use vstd::prelude::*;
use crate::csv_io::{csv_records_of, read_csv};
use crate::extract::cell_at;
use crate::schema::{EtlError, Record, RecordView, records_view};
use crate::text::{i32_of_text, parse_i32};

verus! {

/// The positions of the integer columns of a row.
pub open spec fn is_int_column(c: int) -> bool {
    c == 0 || (4 <= c && c <= 10)
}

/// Whether every integer column of `row` holds decimal text of an `i32`.
pub open spec fn row_is_well_formed(row: Seq<Seq<char>>) -> bool {
    forall|c: int| is_int_column(c) ==> (#[trigger] i32_of_text(cell_at(row, c))) is Some
}

pub open spec fn int_cell(row: Seq<Seq<char>>, c: int) -> i32 {
    i32_of_text(cell_at(row, c))->0
}

/// The record that `row` denotes, field by field in the fixed column order;
/// a missing field reads as the empty text.
pub open spec fn record_of_row(row: Seq<Seq<char>>) -> Option<RecordView> {
    if row_is_well_formed(row) {
        Some(
            RecordView {
                id: int_cell(row, 0),
                cancer: cell_at(row, 1),
                diabetes: cell_at(row, 2),
                heart_disease: cell_at(row, 3),
                eggs: int_cell(row, 4),
                salad: int_cell(row, 5),
                fries: int_cell(row, 6),
                milk: int_cell(row, 7),
                soda: int_cell(row, 8),
                coffee: int_cell(row, 9),
                cakes: int_cell(row, 10),
            },
        )
    } else {
        None
    }
}

/// The records of `rows` past the header row, or `None` where one of them
/// is not well formed.
pub open spec fn records_of_rows(rows: Seq<Seq<Seq<char>>>) -> Option<Seq<RecordView>> {
    if forall|k: int| 1 <= k < rows.len() ==> (#[trigger] record_of_row(rows[k])) is Some {
        Some(Seq::new((if rows.len() > 0 { rows.len() - 1 } else { 0 }) as nat, |k: int| record_of_row(rows[k + 1])->0))
    } else {
        None
    }
}

/// Loading rows that are all well formed past the header gives exactly one
/// record for each of them.
pub proof fn lemma_load_count(rows: Seq<Seq<Seq<char>>>)
    requires
        rows.len() > 0,
        forall|k: int| 1 <= k < rows.len() ==> row_is_well_formed(#[trigger] rows[k]),
    ensures
        records_of_rows(rows) is Some,
        records_of_rows(rows)->0.len() == rows.len() - 1,
{
    assert forall|k: int| 1 <= k < rows.len() implies (#[trigger] record_of_row(rows[k])) is Some by {
        assert(row_is_well_formed(rows[k]));
    }
}

/// A row past the header whose integer column is not decimal text of an
/// `i32` (the empty text, say) makes the whole load fail.
pub proof fn lemma_bad_cell_fails_load(rows: Seq<Seq<Seq<char>>>, k: int, c: int)
    requires
        1 <= k < rows.len(),
        is_int_column(c),
        i32_of_text(cell_at(rows[k], c)) is None,
    ensures
        records_of_rows(rows) is None,
{
    assert(!row_is_well_formed(rows[k]));
    assert(record_of_row(rows[k]) is None);
}

fn text_cell(row: &Vec<String>, c: usize) -> (r: String)
    ensures
        r@ == cell_at(row.deep_view(), c as int),
{
    if c < row.len() {
        assert(row.deep_view()[c as int] == row@[c as int]@);
        row[c].clone()
    } else {
        String::new()
    }
}

fn int_field(row: &Vec<String>, c: usize) -> (r: Option<i32>)
    ensures
        r == i32_of_text(cell_at(row.deep_view(), c as int)),
{
    if c < row.len() {
        assert(row.deep_view()[c as int] == row@[c as int]@);
        parse_i32(row[c].as_str())
    } else {
        let e = String::new();
        parse_i32(e.as_str())
    }
}

/// The record that `row` denotes, or `Parse` where an integer column of it
/// is not decimal text of an `i32`.
pub fn record_from_row(row: &Vec<String>) -> (r: Result<Record, EtlError>)
    ensures
        match record_of_row(row.deep_view()) {
            Some(v) => r is Ok && r->Ok_0@ == v,
            None => r == Err::<Record, EtlError>(EtlError::Parse),
        },
{
    let ghost cells = row.deep_view();
    let mut ints: [i32; 11] = [0; 11];
    let mut c: usize = 0;
    while c < 11
        invariant
            c <= 11,
            cells == row.deep_view(),
            forall|q: int| 0 <= q < c && is_int_column(q) ==> i32_of_text(cell_at(cells, q)) == Some(#[trigger] ints[q]),
            forall|q: int| 0 <= q < c && is_int_column(q) ==> (#[trigger] i32_of_text(cell_at(cells, q))) is Some,
        decreases 11 - c,
    {
        if c == 0 || c >= 4 {
            match int_field(row, c) {
                Some(v) => {
                    ints[c] = v;
                },
                None => {
                    assert(!row_is_well_formed(cells)) by {
                        assert(i32_of_text(cell_at(cells, c as int)) is None);
                    }
                    return Err(EtlError::Parse);
                },
            }
        }
        c += 1;
    }
    assert(row_is_well_formed(cells));
    Ok(
        Record {
            id: ints[0],
            cancer: text_cell(row, 1),
            diabetes: text_cell(row, 2),
            heart_disease: text_cell(row, 3),
            eggs: ints[4],
            salad: ints[5],
            fries: ints[6],
            milk: ints[7],
            soda: ints[8],
            coffee: ints[9],
            cakes: ints[10],
        },
    )
}

/// The records of `rows`, whose first row is the header, or `Parse` where
/// a row past the header is not well formed.
pub fn records_from_rows(rows: &Vec<Vec<String>>) -> (r: Result<Vec<Record>, EtlError>)
    ensures
        match records_of_rows(rows.deep_view()) {
            Some(v) => r is Ok && records_view(r->Ok_0@) == v,
            None => r == Err::<Vec<Record>, EtlError>(EtlError::Parse),
        },
{
    let ghost rs = rows.deep_view();
    let mut out: Vec<Record> = Vec::new();
    let mut k: usize = 1;
    while k < rows.len()
        invariant
            1 <= k,
            rows.len() > 0 ==> k <= rows.len(),
            rows.len() == 0 ==> k == 1,
            rs == rows.deep_view(),
            out@.len() == k - 1,
            forall|q: int| 1 <= q < k ==> (#[trigger] record_of_row(rs[q])) is Some,
            forall|q: int| 0 <= q < k - 1 ==> (#[trigger] out@[q])@ == record_of_row(rs[q + 1])->0,
        decreases rows.len() - k,
    {
        assert(rs[k as int] == rows@[k as int].deep_view());
        match record_from_row(&rows[k]) {
            Ok(rec) => {
                out.push(rec);
            },
            Err(e) => {
                assert(record_of_row(rs[k as int]) is None);
                return Err(e);
            },
        }
        k += 1;
    }
    assert(records_view(out@) =~= records_of_rows(rs)->0);
    Ok(out)
}

/// The records of the subset CSV text `subset`, past its header row.
///
/// Fails with `Csv` where the text cannot be read, and with `Parse` where a
/// cell of an integer column is not decimal text of an `i32`.
pub fn transform_load(subset: &Vec<u8>) -> (r: Result<Vec<Record>, EtlError>)
    ensures
        match csv_records_of(subset@, usize::MAX as nat) {
            None => r == Err::<Vec<Record>, EtlError>(EtlError::Csv),
            Some(rows) => match records_of_rows(rows) {
                None => r == Err::<Vec<Record>, EtlError>(EtlError::Parse),
                Some(v) => r is Ok && records_view(r->Ok_0@) == v,
            },
        },
{
    match read_csv(subset, usize::MAX) {
        Ok(rows) => records_from_rows(&rows),
        Err(_) => Err(EtlError::Csv),
    }
}

} // verus!
