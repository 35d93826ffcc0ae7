//! The reports as aligned text tables, rendered by prettytable.
use vstd::prelude::*;
use crate::query::{
    HeartRow, SodaRow, lookup, query_frequent_soda, query_heart_disease, read_data,
    find_user_by_id, limited, soda_matches, heart_matches, lemma_limited_within,
};
use crate::schema::{Record, RecordView, records_view};
use crate::text::{decimal, decimal_text, lemma_decimal_text_chars};

verus! {

/// The text of a table with a row for each item of `cells`.
pub uninterp spec fn table_text_of(cells: Seq<Seq<Seq<char>>>) -> Seq<char>;

/// Whether `s` holds no escape character (`ESC`, which opens an ANSI
/// escape sequence).
pub open spec fn free_of_escape(s: Seq<char>) -> bool {
    forall|i: int| 0 <= i < s.len() ==> s[i] != '\u{1b}'
}

/// Whether no cell of `row` holds an escape character.
pub open spec fn row_free_of_escape(row: Seq<Seq<char>>) -> bool {
    forall|j: int| 0 <= j < row.len() ==> free_of_escape(#[trigger] row[j])
}

/// Whether no cell of any row of `cells` holds an escape character.
pub open spec fn cells_free_of_escape(cells: Seq<Seq<Seq<char>>>) -> bool {
    forall|i: int| 0 <= i < cells.len() ==> row_free_of_escape(#[trigger] cells[i])
}

/// Whether the text fields of `r` hold no escape character.
pub open spec fn record_renderable(r: RecordView) -> bool {
    free_of_escape(r.cancer) && free_of_escape(r.diabetes) && free_of_escape(r.heart_disease)
}

/// Whether every row of `rows` can be rendered.
pub open spec fn rows_renderable(rows: Seq<RecordView>) -> bool {
    forall|k: int| 0 <= k < rows.len() ==> record_renderable(#[trigger] rows[k])
}

/// Relies on prettytable's `Table::from`, which makes one row per inner
/// vector and one cell per string with `Cell::new`, and on the table's
/// `to_string`, which renders it in the default format that `printstd`
/// prints: the text depends on the cells alone. With the crate's default
/// features off, lines end in `\n` on every target. `Cell::new` measures each
/// cell and asserts that its width is at least the count of characters it
/// takes as hidden inside an ANSI escape sequence; a cell without `ESC` has
/// none hidden, so the assertion holds.
#[verifier::external_body]
fn render_table(cells: &Vec<Vec<String>>) -> (r: String)
    requires
        cells_free_of_escape(cells.deep_view()),
    ensures
        r@ == table_text_of(cells.deep_view()),
{
    prettytable::Table::from(cells.clone()).to_string()
}

pub open spec fn record_header() -> Seq<Seq<char>> {
    seq![
        "ID"@,
        "Cancer"@,
        "Diabetes"@,
        "Heart Disease"@,
        "Eggs"@,
        "Salad"@,
        "Fries"@,
        "Milk"@,
        "Soda"@,
        "Coffee"@,
        "Cakes"@,
    ]
}

pub open spec fn soda_header() -> Seq<Seq<char>> {
    seq!["ID"@, "Soda Frequency"@, "Eggs Frequency"@, "Fries Frequency"@]
}

pub open spec fn heart_header() -> Seq<Seq<char>> {
    seq!["ID"@, "Eggs Frequency"@, "Salad Frequency"@, "Fries Frequency"@, "Soda Frequency"@]
}

pub open spec fn record_cells(r: RecordView) -> Seq<Seq<char>> {
    seq![
        decimal_text(r.id as int),
        r.cancer,
        r.diabetes,
        r.heart_disease,
        decimal_text(r.eggs as int),
        decimal_text(r.salad as int),
        decimal_text(r.fries as int),
        decimal_text(r.milk as int),
        decimal_text(r.soda as int),
        decimal_text(r.coffee as int),
        decimal_text(r.cakes as int),
    ]
}

pub open spec fn soda_cells(r: SodaRow) -> Seq<Seq<char>> {
    seq![decimal_text(r.id as int), decimal_text(r.soda as int), decimal_text(r.eggs as int), decimal_text(r.fries as int)]
}

pub open spec fn heart_cells(r: HeartRow) -> Seq<Seq<char>> {
    seq![
        decimal_text(r.id as int),
        decimal_text(r.eggs as int),
        decimal_text(r.salad as int),
        decimal_text(r.fries as int),
        decimal_text(r.soda as int),
    ]
}

/// The text of the table of records `rows`, under the column titles.
pub open spec fn records_text(rows: Seq<RecordView>) -> Seq<char> {
    table_text_of(seq![record_header()] + rows.map_values(|r: RecordView| record_cells(r)))
}

/// The message for an ID that no row has.
pub open spec fn not_found_text(user_id: i32) -> Seq<char> {
    "No user found with ID: "@ + decimal_text(user_id as int)
}

proof fn lemma_decimal_free(v: int)
    ensures
        free_of_escape(decimal_text(v)),
{
    lemma_decimal_text_chars(v);
}

proof fn lemma_headers_free()
    ensures
        row_free_of_escape(record_header()),
        row_free_of_escape(soda_header()),
        row_free_of_escape(heart_header()),
{
    reveal_strlit("ID");
    reveal_strlit("Cancer");
    reveal_strlit("Diabetes");
    reveal_strlit("Heart Disease");
    reveal_strlit("Eggs");
    reveal_strlit("Salad");
    reveal_strlit("Fries");
    reveal_strlit("Milk");
    reveal_strlit("Soda");
    reveal_strlit("Coffee");
    reveal_strlit("Cakes");
    reveal_strlit("Soda Frequency");
    reveal_strlit("Eggs Frequency");
    reveal_strlit("Fries Frequency");
    reveal_strlit("Salad Frequency");
}

proof fn lemma_record_cells_free(r: RecordView)
    requires
        record_renderable(r),
    ensures
        row_free_of_escape(record_cells(r)),
{
    lemma_decimal_free(r.id as int);
    lemma_decimal_free(r.eggs as int);
    lemma_decimal_free(r.salad as int);
    lemma_decimal_free(r.fries as int);
    lemma_decimal_free(r.milk as int);
    lemma_decimal_free(r.soda as int);
    lemma_decimal_free(r.coffee as int);
    lemma_decimal_free(r.cakes as int);
}

proof fn lemma_soda_cells_free(r: SodaRow)
    ensures
        row_free_of_escape(soda_cells(r)),
{
    lemma_decimal_free(r.id as int);
    lemma_decimal_free(r.soda as int);
    lemma_decimal_free(r.eggs as int);
    lemma_decimal_free(r.fries as int);
}

proof fn lemma_heart_cells_free(r: HeartRow)
    ensures
        row_free_of_escape(heart_cells(r)),
{
    lemma_decimal_free(r.id as int);
    lemma_decimal_free(r.eggs as int);
    lemma_decimal_free(r.salad as int);
    lemma_decimal_free(r.fries as int);
    lemma_decimal_free(r.soda as int);
}

/// A table of a header and body rows without escape characters has none.
proof fn lemma_table_free(header: Seq<Seq<char>>, body: Seq<Seq<Seq<char>>>)
    requires
        row_free_of_escape(header),
        forall|q: int| 0 <= q < body.len() ==> row_free_of_escape(#[trigger] body[q]),
    ensures
        cells_free_of_escape(seq![header] + body),
{
    let t = seq![header] + body;
    assert forall|i: int| 0 <= i < t.len() implies row_free_of_escape(#[trigger] t[i]) by {
        if i > 0 {
            assert(t[i] == body[i - 1]);
        }
    }
}

/// The row that `lookup` finds is one of the rows.
proof fn lemma_lookup_renderable(rows: Seq<RecordView>, id: i32)
    requires
        rows_renderable(rows),
    ensures
        match lookup(rows, id) {
            Some(v) => record_renderable(v),
            None => true,
        },
    decreases rows.len(),
{
    if rows.len() > 0 && rows[0].id != id {
        let rest = rows.drop_first();
        assert forall|k: int| 0 <= k < rest.len() implies record_renderable(#[trigger] rest[k]) by {
            assert(rest[k] == rows[k + 1]);
        }
        lemma_lookup_renderable(rest, id);
    }
}

/// Whether `s` holds no escape character.
pub fn text_free_of_escape(s: &str) -> (r: bool)
    ensures
        r == free_of_escape(s@),
{
    let n = s.unicode_len();
    let mut i: usize = 0;
    while i < n
        invariant
            i <= n,
            n == s@.len(),
            forall|k: int| 0 <= k < i ==> s@[k] != '\u{1b}',
        decreases n - i,
    {
        if s.get_char(i) == '\u{1b}' {
            return false;
        }
        i += 1;
    }
    true
}

/// Whether every row of `rows` can be rendered: no text field holds an
/// escape character.
pub fn renderable(rows: &Vec<Record>) -> (r: bool)
    ensures
        r == rows_renderable(records_view(rows@)),
{
    let mut i: usize = 0;
    while i < rows.len()
        invariant
            i <= rows.len(),
            forall|k: int| 0 <= k < i ==> record_renderable(#[trigger] records_view(rows@)[k]),
        decreases rows.len() - i,
    {
        let rec = &rows[i];
        if !(text_free_of_escape(rec.cancer.as_str()) && text_free_of_escape(rec.diabetes.as_str())
            && text_free_of_escape(rec.heart_disease.as_str())) {
            assert(!record_renderable(records_view(rows@)[i as int]));
            return false;
        }
        assert(record_renderable(records_view(rows@)[i as int]));
        i += 1;
    }
    true
}

fn record_row(r: &Record) -> (c: Vec<String>)
    ensures
        c.deep_view() == record_cells(r@),
{
    let c = vec![
        decimal(r.id),
        r.cancer.clone(),
        r.diabetes.clone(),
        r.heart_disease.clone(),
        decimal(r.eggs),
        decimal(r.salad),
        decimal(r.fries),
        decimal(r.milk),
        decimal(r.soda),
        decimal(r.coffee),
        decimal(r.cakes),
    ];
    assert(c.deep_view() =~= record_cells(r@));
    c
}

/// The table of `rows` under the record column titles.
pub fn records_table(rows: &Vec<Record>) -> (r: String)
    requires
        rows_renderable(records_view(rows@)),
    ensures
        r@ == records_text(records_view(rows@)),
{
    let header = vec![
        String::from_str("ID"),
        String::from_str("Cancer"),
        String::from_str("Diabetes"),
        String::from_str("Heart Disease"),
        String::from_str("Eggs"),
        String::from_str("Salad"),
        String::from_str("Fries"),
        String::from_str("Milk"),
        String::from_str("Soda"),
        String::from_str("Coffee"),
        String::from_str("Cakes"),
    ];
    assert(header.deep_view() =~= record_header());
    let ghost body = records_view(rows@).map_values(|r: RecordView| record_cells(r));
    let mut cells: Vec<Vec<String>> = vec![header];
    let mut i: usize = 0;
    while i < rows.len()
        invariant
            i <= rows.len(),
            body == records_view(rows@).map_values(|r: RecordView| record_cells(r)),
            cells.deep_view() =~= seq![record_header()] + body.take(i as int),
        decreases rows.len() - i,
    {
        let ghost before = cells.deep_view();
        let row = record_row(&rows[i]);
        cells.push(row);
        assert(cells.deep_view() =~= before.push(row.deep_view()));
        i += 1;
    }
    assert(body.take(rows.len() as int) =~= body);
    proof {
        lemma_headers_free();
        assert forall|q: int| 0 <= q < body.len() implies row_free_of_escape(#[trigger] body[q]) by {
            lemma_record_cells_free(records_view(rows@)[q]);
        }
        lemma_table_free(record_header(), body);
    }
    render_table(&cells)
}

/// The table of frequent-soda rows under their column titles.
pub fn soda_table(rows: &Vec<SodaRow>) -> (r: String)
    ensures
        r@ == table_text_of(seq![soda_header()] + rows@.map_values(|s: SodaRow| soda_cells(s))),
{
    let header = vec![
        String::from_str("ID"),
        String::from_str("Soda Frequency"),
        String::from_str("Eggs Frequency"),
        String::from_str("Fries Frequency"),
    ];
    assert(header.deep_view() =~= soda_header());
    let ghost body = rows@.map_values(|s: SodaRow| soda_cells(s));
    let mut cells: Vec<Vec<String>> = vec![header];
    let mut i: usize = 0;
    while i < rows.len()
        invariant
            i <= rows.len(),
            body == rows@.map_values(|s: SodaRow| soda_cells(s)),
            cells.deep_view() =~= seq![soda_header()] + body.take(i as int),
        decreases rows.len() - i,
    {
        let ghost before = cells.deep_view();
        let s = rows[i];
        let row = vec![decimal(s.id), decimal(s.soda), decimal(s.eggs), decimal(s.fries)];
        assert(row.deep_view() =~= soda_cells(s));
        cells.push(row);
        assert(cells.deep_view() =~= before.push(row.deep_view()));
        i += 1;
    }
    assert(body.take(rows.len() as int) =~= body);
    proof {
        lemma_headers_free();
        assert forall|q: int| 0 <= q < body.len() implies row_free_of_escape(#[trigger] body[q]) by {
            lemma_soda_cells_free(rows@[q]);
        }
        lemma_table_free(soda_header(), body);
    }
    render_table(&cells)
}

/// The table of heart-disease rows under their column titles.
pub fn heart_table(rows: &Vec<HeartRow>) -> (r: String)
    ensures
        r@ == table_text_of(seq![heart_header()] + rows@.map_values(|h: HeartRow| heart_cells(h))),
{
    let header = vec![
        String::from_str("ID"),
        String::from_str("Eggs Frequency"),
        String::from_str("Salad Frequency"),
        String::from_str("Fries Frequency"),
        String::from_str("Soda Frequency"),
    ];
    assert(header.deep_view() =~= heart_header());
    let ghost body = rows@.map_values(|h: HeartRow| heart_cells(h));
    let mut cells: Vec<Vec<String>> = vec![header];
    let mut i: usize = 0;
    while i < rows.len()
        invariant
            i <= rows.len(),
            body == rows@.map_values(|h: HeartRow| heart_cells(h)),
            cells.deep_view() =~= seq![heart_header()] + body.take(i as int),
        decreases rows.len() - i,
    {
        let ghost before = cells.deep_view();
        let h = rows[i];
        let row = vec![decimal(h.id), decimal(h.eggs), decimal(h.salad), decimal(h.fries), decimal(h.soda)];
        assert(row.deep_view() =~= heart_cells(h));
        cells.push(row);
        assert(cells.deep_view() =~= before.push(row.deep_view()));
        i += 1;
    }
    assert(body.take(rows.len() as int) =~= body);
    proof {
        lemma_headers_free();
        assert forall|q: int| 0 <= q < body.len() implies row_free_of_escape(#[trigger] body[q]) by {
            lemma_heart_cells_free(rows@[q]);
        }
        lemma_table_free(heart_header(), body);
    }
    render_table(&cells)
}

/// The listing of the first rows of the table.
pub fn list_report(rows: &Vec<Record>) -> (r: String)
    requires
        rows_renderable(records_view(rows@)),
    ensures
        r@ == records_text(limited(records_view(rows@))),
{
    let first = read_data(rows);
    proof {
        lemma_limited_within(records_view(rows@));
    }
    records_table(&first)
}

/// The table of the frequent-soda rows of the table.
pub fn frequent_soda_report(rows: &Vec<Record>) -> (r: String)
    ensures
        r@ == table_text_of(
            seq![soda_header()] + limited(soda_matches(records_view(rows@))).map_values(|s: SodaRow| soda_cells(s)),
        ),
{
    let found = query_frequent_soda(rows);
    soda_table(&found)
}

/// The table of the heart-disease rows of the table.
pub fn heart_disease_report(rows: &Vec<Record>) -> (r: String)
    ensures
        r@ == table_text_of(
            seq![heart_header()] + limited(heart_matches(records_view(rows@))).map_values(|h: HeartRow| heart_cells(h)),
        ),
{
    let found = query_heart_disease(rows);
    heart_table(&found)
}

/// The table of the row whose ID is `user_id`, or a message naming the ID
/// where no row has it.
pub fn find_user_report(rows: &Vec<Record>, user_id: i32) -> (r: String)
    requires
        rows_renderable(records_view(rows@)),
    ensures
        match lookup(records_view(rows@), user_id) {
            Some(v) => r@ == records_text(seq![v]),
            None => r@ == not_found_text(user_id),
        },
{
    match find_user_by_id(rows, user_id) {
        Some(rec) => {
            let one = vec![rec];
            assert(records_view(one@) =~= seq![one@[0]@]);
            proof {
                lemma_lookup_renderable(records_view(rows@), user_id);
            }
            records_table(&one)
        },
        None => {
            let msg = String::from_str("No user found with ID: ");
            let id = decimal(user_id);
            msg.concat(id.as_str())
        },
    }
}

} // verus!
