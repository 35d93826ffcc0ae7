//! The fixed shape of a nutrition record, and the errors of the workflow.
use vstd::prelude::*;

verus! {

/// The wanted columns, in the order of the subset file and of the table.
pub open spec fn column_names() -> Seq<Seq<char>> {
    seq![
        "ID"@,
        "cancer"@,
        "diabetes"@,
        "heart_disease"@,
        "EGGSFREQ"@,
        "GREENSALADFREQ"@,
        "FRIESFREQ"@,
        "MILKFREQ"@,
        "SODAFREQ"@,
        "COFFEEFREQ"@,
        "CAKESFREQ"@,
    ]
}

/// The wanted column names as strings.
pub fn wanted_columns() -> (r: Vec<String>)
    ensures
        r.deep_view() == column_names(),
{
    let r = vec![
        String::from_str("ID"),
        String::from_str("cancer"),
        String::from_str("diabetes"),
        String::from_str("heart_disease"),
        String::from_str("EGGSFREQ"),
        String::from_str("GREENSALADFREQ"),
        String::from_str("FRIESFREQ"),
        String::from_str("MILKFREQ"),
        String::from_str("SODAFREQ"),
        String::from_str("COFFEEFREQ"),
        String::from_str("CAKESFREQ"),
    ];
    assert(r.deep_view() =~= column_names());
    r
}

/// The failure causes of the workflow, one per kind.
#[derive(Debug, Clone, Copy, PartialEq, Eq, Structural)]
pub enum EtlError {
    /// A file or directory could not be created, read or written.
    Io,
    /// The HTTP request failed in transport.
    Network,
    /// The server answered with a status outside 2xx.
    HttpStatus(u16),
    /// The CSV text was malformed, or could not be written.
    Csv,
    /// A wanted column is missing from the source header.
    MissingColumn,
    /// A cell of an integer column is not decimal text of an `i32`.
    Parse,
    /// The database refused a statement.
    Database,
}

/// One row of the destination table.
pub struct Record {
    pub id: i32,
    pub cancer: String,
    pub diabetes: String,
    pub heart_disease: String,
    pub eggs: i32,
    pub salad: i32,
    pub fries: i32,
    pub milk: i32,
    pub soda: i32,
    pub coffee: i32,
    pub cakes: i32,
}

/// A record as values: its text fields as character sequences.
pub struct RecordView {
    pub id: i32,
    pub cancer: Seq<char>,
    pub diabetes: Seq<char>,
    pub heart_disease: Seq<char>,
    pub eggs: i32,
    pub salad: i32,
    pub fries: i32,
    pub milk: i32,
    pub soda: i32,
    pub coffee: i32,
    pub cakes: i32,
}

impl View for Record {
    type V = RecordView;

    open spec fn view(&self) -> RecordView {
        RecordView {
            id: self.id,
            cancer: self.cancer@,
            diabetes: self.diabetes@,
            heart_disease: self.heart_disease@,
            eggs: self.eggs,
            salad: self.salad,
            fries: self.fries,
            milk: self.milk,
            soda: self.soda,
            coffee: self.coffee,
            cakes: self.cakes,
        }
    }
}

pub open spec fn records_view(rs: Seq<Record>) -> Seq<RecordView> {
    rs.map_values(|r: Record| r@)
}

impl Record {
    /// A copy of this record.
    pub fn duplicate(&self) -> (r: Record)
        ensures
            r@ == self@,
    {
        Record {
            id: self.id,
            cancer: self.cancer.clone(),
            diabetes: self.diabetes.clone(),
            heart_disease: self.heart_disease.clone(),
            eggs: self.eggs,
            salad: self.salad,
            fries: self.fries,
            milk: self.milk,
            soda: self.soda,
            coffee: self.coffee,
            cakes: self.cakes,
        }
    }
}

} // verus!
