//! The subset of a source CSV: the wanted columns, in their fixed order, of
//! the first rows of the source.
use vstd::prelude::*;
use crate::csv_io::{csv_records_of, csv_text_of, read_csv, write_csv};
use crate::schema::{column_names, wanted_columns, EtlError};

verus! {

/// How many data rows the subset keeps at most.
pub const SUBSET_ROWS: usize = 100;

/// The first position of `name` in `header` at or after `k`.
pub open spec fn position_from(header: Seq<Seq<char>>, name: Seq<char>, k: int) -> Option<int>
    decreases header.len() - k,
{
    if k < 0 || k >= header.len() {
        None
    } else if header[k] == name {
        Some(k)
    } else {
        position_from(header, name, k + 1)
    }
}

/// The first position of `name` in `header`.
pub open spec fn position_of(header: Seq<Seq<char>>, name: Seq<char>) -> Option<int> {
    position_from(header, name, 0)
}

/// The field at `i` of `row`, or the empty text where `row` is shorter.
pub open spec fn cell_at(row: Seq<Seq<char>>, i: int) -> Seq<char> {
    if 0 <= i < row.len() {
        row[i]
    } else {
        Seq::empty()
    }
}

/// The fields of `row` at the positions `idx`, in that order.
pub open spec fn project(row: Seq<Seq<char>>, idx: Seq<usize>) -> Seq<Seq<char>> {
    Seq::new(idx.len(), |j: int| cell_at(row, idx[j] as int))
}

/// Whether every wanted column occurs in `header`.
pub open spec fn has_all_columns(header: Seq<Seq<char>>) -> bool {
    forall|j: int| 0 <= j < column_names().len() ==> (#[trigger] position_of(header, column_names()[j])) is Some
}

/// The positions in `header` of the wanted columns, in their order.
pub open spec fn column_positions(header: Seq<Seq<char>>) -> Seq<usize> {
    Seq::new(column_names().len(), |j: int| position_of(header, column_names()[j])->0 as usize)
}

/// The header row of `records`: its first record, or none at all.
pub open spec fn header_of(records: Seq<Seq<Seq<char>>>) -> Seq<Seq<char>> {
    if records.len() > 0 {
        records[0]
    } else {
        Seq::empty()
    }
}

pub open spec fn min(a: int, b: int) -> int {
    if a < b {
        a
    } else {
        b
    }
}

/// The subset of `records` (a header row, then data rows): the wanted
/// column names, then the wanted columns of at most the first hundred data
/// rows; `None` where the header lacks a wanted column.
pub open spec fn subset_of(records: Seq<Seq<Seq<char>>>) -> Option<Seq<Seq<Seq<char>>>> {
    let header = header_of(records);
    if has_all_columns(header) {
        let n = min(records.len() - 1, SUBSET_ROWS as int);
        Some(seq![column_names()] + Seq::new(
            if n < 0 { 0 } else { n as nat },
            |k: int| project(records[k + 1], column_positions(header)),
        ))
    } else {
        None
    }
}

/// Where the header holds every wanted column, the subset is the wanted
/// column names, verbatim and in order, followed by one row of the wanted
/// width for each of the first hundred data rows: a hundred rows where the
/// source has that many or more, and as many as the source has otherwise.
pub proof fn lemma_subset_shape(records: Seq<Seq<Seq<char>>>)
    requires
        has_all_columns(header_of(records)),
    ensures
        subset_of(records) is Some,
        subset_of(records)->0.len() == 1 + (if records.len() == 0 {
            0
        } else {
            min(records.len() - 1, SUBSET_ROWS as int)
        }),
        subset_of(records)->0[0] == column_names(),
        forall|k: int| 0 <= k < subset_of(records)->0.len() ==> (#[trigger] subset_of(records)->0[k]).len() == column_names().len(),
{
    let t = subset_of(records)->0;
    assert forall|k: int| 0 <= k < t.len() implies (#[trigger] t[k]).len() == column_names().len() by {
        if k > 0 {
            assert(column_positions(header_of(records)).len() == column_names().len());
        }
    }
}

/// The first position of `name` in `header`, if it is there.
pub fn find_column(header: &Vec<String>, name: &String) -> (r: Option<usize>)
    ensures
        match r {
            Some(i) => position_of(header.deep_view(), name@) == Some(i as int),
            None => position_of(header.deep_view(), name@) is None,
        },
{
    let ghost h = header.deep_view();
    let mut i: usize = 0;
    while i < header.len()
        invariant
            i <= header.len(),
            h == header.deep_view(),
            position_of(h, name@) == position_from(h, name@, i as int),
        decreases header.len() - i,
    {
        if header[i] == *name {
            return Some(i);
        }
        i += 1;
    }
    None
}

/// The positions in `header` of the wanted columns, in their order, or
/// `None` where one of them is missing.
pub fn column_indices(header: &Vec<String>) -> (r: Option<Vec<usize>>)
    ensures
        match r {
            Some(idx) => has_all_columns(header.deep_view()) && idx@ == column_positions(header.deep_view()),
            None => !has_all_columns(header.deep_view()),
        },
{
    let names = wanted_columns();
    let ghost h = header.deep_view();
    let mut idx: Vec<usize> = Vec::new();
    let mut j: usize = 0;
    while j < names.len()
        invariant
            j <= names.len(),
            names.deep_view() == column_names(),
            h == header.deep_view(),
            idx@.len() == j,
            forall|k: int| 0 <= k < j ==> (#[trigger] position_of(h, column_names()[k])) is Some,
            forall|k: int| 0 <= k < j ==> idx@[k] == position_of(h, column_names()[k])->0 as usize,
        decreases names.len() - j,
    {
        assert(names.deep_view()[j as int] == names[j as int]@);
        match find_column(header, &names[j]) {
            Some(i) => {
                idx.push(i);
            },
            None => {
                assert(position_of(h, column_names()[j as int]) is None);
                return None;
            },
        }
        j += 1;
    }
    assert(idx@ =~= column_positions(h));
    Some(idx)
}

/// The fields of `row` at the positions `idx`, the empty text for a position
/// past its end.
pub fn project_row(row: &Vec<String>, idx: &Vec<usize>) -> (r: Vec<String>)
    ensures
        r.deep_view() == project(row.deep_view(), idx@),
{
    let mut out: Vec<String> = Vec::new();
    let mut j: usize = 0;
    while j < idx.len()
        invariant
            j <= idx.len(),
            out.deep_view() =~= project(row.deep_view(), idx@).take(j as int),
        decreases idx.len() - j,
    {
        let i = idx[j];
        let ghost before = out.deep_view();
        let cell = if i < row.len() {
            assert(row.deep_view()[i as int] == row@[i as int]@);
            row[i].clone()
        } else {
            String::new()
        };
        assert(cell@ == cell_at(row.deep_view(), i as int));
        out.push(cell);
        assert(out.deep_view() =~= before.push(cell@));
        assert(out.deep_view() =~= project(row.deep_view(), idx@).take(j + 1));
        j += 1;
    }
    assert(project(row.deep_view(), idx@).take(idx.len() as int) =~= project(row.deep_view(), idx@));
    out
}

/// The subset of `records`, whose first record is the header: the wanted
/// column names, then the wanted columns of at most the first hundred data
/// rows. `None` exactly where the header lacks a wanted column.
pub fn subset_table(records: &Vec<Vec<String>>) -> (r: Option<Vec<Vec<String>>>)
    ensures
        match r {
            Some(t) => subset_of(records.deep_view()) == Some(t.deep_view()),
            None => subset_of(records.deep_view()) is None,
        },
{
    let ghost recs = records.deep_view();
    let empty: Vec<String> = Vec::new();
    let header = if records.len() > 0 {
        &records[0]
    } else {
        &empty
    };
    assert(header.deep_view() == header_of(recs));
    let idx = match column_indices(header) {
        Some(idx) => idx,
        None => {
            return None;
        },
    };
    let ghost n = min(recs.len() - 1, SUBSET_ROWS as int);
    let ghost body = Seq::new(
        if n < 0 { 0 } else { n as nat },
        |k: int| project(recs[k + 1], column_positions(header_of(recs))),
    );
    let mut out: Vec<Vec<String>> = Vec::new();
    out.push(wanted_columns());
    let mut k: usize = 1;
    while k < records.len() && k <= SUBSET_ROWS
        invariant
            1 <= k,
            records.len() == 0 ==> k == 1,
            records.len() > 0 ==> k <= records.len(),
            forall|q: int| 0 <= q < body.len() ==> #[trigger] body[q] == project(recs[q + 1], column_positions(header_of(recs))),
            k <= SUBSET_ROWS + 1,
            recs == records.deep_view(),
            idx@ == column_positions(header_of(recs)),
            body.len() == (if n < 0 { 0 } else { n as nat }),
            n == min(recs.len() - 1, SUBSET_ROWS as int),
            out.deep_view() =~= seq![column_names()] + body.take(k - 1),
        decreases records.len() - k,
    {
        let ghost before = out.deep_view();
        assert(records.deep_view()[k as int] == records@[k as int].deep_view());
        let row = project_row(&records[k], &idx);
        out.push(row);
        assert(out.deep_view() =~= before.push(row.deep_view()));
        assert(body[k - 1] == row.deep_view());
        assert(out.deep_view() =~= seq![column_names()] + body.take(k as int));
        k += 1;
    }
    assert(k - 1 == body.len());
    assert(body.take(k - 1) =~= body);
    Some(out)
}

/// The subset CSV text of the source CSV text `raw`.
///
/// Fails with `Csv` where the header or one of the first hundred data rows
/// cannot be read, or the subset cannot be written; with `MissingColumn`
/// where the header lacks a wanted column.
pub fn extract(raw: &Vec<u8>) -> (r: Result<Vec<u8>, EtlError>)
    ensures
        match csv_records_of(raw@, SUBSET_ROWS as nat + 1) {
            None => r == Err::<Vec<u8>, EtlError>(EtlError::Csv),
            Some(recs) => match subset_of(recs) {
                None => r == Err::<Vec<u8>, EtlError>(EtlError::MissingColumn),
                Some(t) => match csv_text_of(t) {
                    None => r == Err::<Vec<u8>, EtlError>(EtlError::Csv),
                    Some(b) => r is Ok && r->Ok_0@ == b,
                },
            },
        },
{
    let records = match read_csv(raw, SUBSET_ROWS + 1) {
        Ok(records) => records,
        Err(_) => {
            return Err(EtlError::Csv);
        },
    };
    let table = match subset_table(&records) {
        Some(t) => t,
        None => {
            return Err(EtlError::MissingColumn);
        },
    };
    match write_csv(&table) {
        Ok(b) => Ok(b),
        Err(_) => Err(EtlError::Csv),
    }
}


/// Whether an HTTP status code reports success.
pub open spec fn is_success_status(code: u16) -> bool {
    200 <= code && code < 300
}

/// `Ok` for a success status (2xx), else the error that carries the code.
pub fn check_status(code: u16) -> (r: Result<(), EtlError>)
    ensures
        is_success_status(code) ==> r is Ok,
        !is_success_status(code) ==> r == Err::<(), EtlError>(EtlError::HttpStatus(code)),
{
    if 200 <= code && code < 300 {
        Ok(())
    } else {
        Err(EtlError::HttpStatus(code))
    }
}

} // verus!
