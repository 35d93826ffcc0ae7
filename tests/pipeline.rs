use nutrition_etl::extract::{check_status, column_indices, extract, subset_table};
use nutrition_etl::load::{record_from_row, transform_load};
use nutrition_etl::schema::{wanted_columns, EtlError, Record};
use nutrition_etl::text::parse_i32;

fn strings(cells: &[&str]) -> Vec<String> {
    cells.iter().map(|c| c.to_string()).collect()
}

const WANTED: [&str; 11] = [
    "ID",
    "cancer",
    "diabetes",
    "heart_disease",
    "EGGSFREQ",
    "GREENSALADFREQ",
    "FRIESFREQ",
    "MILKFREQ",
    "SODAFREQ",
    "COFFEEFREQ",
    "CAKESFREQ",
];

/// A source CSV with the wanted columns in another order, two extra
/// columns, and `n` data rows.
fn source_csv(n: usize) -> Vec<u8> {
    let mut text = String::from(
        "extra,CAKESFREQ,COFFEEFREQ,SODAFREQ,MILKFREQ,FRIESFREQ,GREENSALADFREQ,EGGSFREQ,heart_disease,diabetes,cancer,ID,other\n",
    );
    for i in 0..n {
        text.push_str(&format!("x{i},{},2,{},4,5,6,7,Yes,No,No,{},y\n", i % 7, i % 9, 1000 + i));
    }
    text.into_bytes()
}

fn lines(bytes: &[u8]) -> Vec<String> {
    String::from_utf8(bytes.to_vec()).unwrap().lines().map(|l| l.to_string()).collect()
}

#[test]
fn parse_accepts_signed_decimal() {
    assert_eq!(parse_i32("42"), Some(42));
    assert_eq!(parse_i32("-7"), Some(-7));
    assert_eq!(parse_i32("+5"), Some(5));
    assert_eq!(parse_i32("007"), Some(7));
    assert_eq!(parse_i32("2147483647"), Some(i32::MAX));
    assert_eq!(parse_i32("-2147483648"), Some(i32::MIN));
}

#[test]
fn parse_rejects_other_text() {
    assert_eq!(parse_i32(""), None);
    assert_eq!(parse_i32("-"), None);
    assert_eq!(parse_i32("+"), None);
    assert_eq!(parse_i32("abc"), None);
    assert_eq!(parse_i32("1 2"), None);
    assert_eq!(parse_i32(" 3"), None);
    assert_eq!(parse_i32("2147483648"), None);
    assert_eq!(parse_i32("-2147483649"), None);
    assert_eq!(parse_i32("99999999999999999999"), None);
}

#[test]
fn parse_agrees_with_std() {
    for s in ["0", "-0", "+0", "12a", "a12", "--1", "+-1", "1e3", "65536", "-40000"] {
        assert_eq!(parse_i32(s), s.parse::<i32>().ok(), "{s}");
    }
}

#[test]
fn wanted_columns_in_order() {
    assert_eq!(wanted_columns(), strings(&WANTED));
}

#[test]
fn column_indices_follow_wanted_order() {
    let header = strings(&["x", "CAKESFREQ", "ID", "cancer", "diabetes", "heart_disease", "EGGSFREQ", "GREENSALADFREQ", "FRIESFREQ", "MILKFREQ", "SODAFREQ", "COFFEEFREQ", "ID"]);
    assert_eq!(column_indices(&header), Some(vec![2, 3, 4, 5, 6, 7, 8, 9, 10, 11, 1]));
    let short = strings(&["ID", "cancer"]);
    assert_eq!(column_indices(&short), None);
}

#[test]
fn subset_table_projects_and_pads() {
    let mut header = strings(&WANTED);
    header.reverse();
    let records = vec![header, strings(&["1", "2", "3", "4", "5", "6", "7", "No", "Yes", "No", "9"])];
    let t = subset_table(&records).unwrap();
    assert_eq!(t.len(), 2);
    assert_eq!(t[0], strings(&WANTED));
    assert_eq!(t[1], strings(&["9", "No", "Yes", "No", "7", "6", "5", "4", "3", "2", "1"]));
}

#[test]
fn subset_of_large_source_has_header_and_hundred_rows() {
    let out = extract(&source_csv(150)).unwrap();
    let l = lines(&out);
    assert_eq!(l.len(), 101);
    assert_eq!(l[0], WANTED.join(","));
    assert_eq!(l[1], "1000,No,No,Yes,7,6,5,4,0,2,0");
    assert_eq!(l[100], format!("1099,No,No,Yes,7,6,5,4,{},2,{}", 99 % 9, 99 % 7));
}

#[test]
fn subset_of_small_source_keeps_every_row() {
    let out = extract(&source_csv(7)).unwrap();
    assert_eq!(lines(&out).len(), 8);
}

#[test]
fn subset_of_exactly_hundred_rows() {
    let out = extract(&source_csv(100)).unwrap();
    assert_eq!(lines(&out).len(), 101);
}

#[test]
fn subset_of_header_only_source() {
    let out = extract(&source_csv(0)).unwrap();
    assert_eq!(lines(&out), vec![WANTED.join(",")]);
}

#[test]
fn extract_is_repeatable() {
    let src = source_csv(30);
    assert_eq!(extract(&src), extract(&src));
}

#[test]
fn extract_missing_column_fails() {
    let src = b"ID,cancer,diabetes\n1,No,No\n".to_vec();
    assert_eq!(extract(&src), Err(EtlError::MissingColumn));
    assert_eq!(extract(&Vec::new()), Err(EtlError::MissingColumn));
}

#[test]
fn extract_malformed_source_fails() {
    let mut src = source_csv(3);
    src.extend_from_slice(b"x,1,2,3,4,5,6,7,\xff,No,No,9,y\n");
    assert_eq!(extract(&src), Err(EtlError::Csv));
}

#[test]
fn extract_short_source_row_gives_empty_cells() {
    let mut src = source_csv(2);
    src.extend_from_slice(b"x9,1,2,3,4\n");
    let out = lines(&extract(&src).unwrap());
    assert_eq!(out.len(), 4);
    assert_eq!(out[3], ",,,,,,,4,3,2,1");
    assert_eq!(transform_load(&extract(&src).unwrap()).err(), Some(EtlError::Parse));
}

#[test]
fn extract_ignores_rows_past_the_subset() {
    let mut src = source_csv(100);
    src.extend_from_slice(b"short,row\n");
    assert_eq!(lines(&extract(&src).unwrap()).len(), 101);
}

#[test]
fn status_outside_success_is_an_error() {
    assert_eq!(check_status(200), Ok(()));
    assert_eq!(check_status(299), Ok(()));
    assert_eq!(check_status(404), Err(EtlError::HttpStatus(404)));
    assert_eq!(check_status(199), Err(EtlError::HttpStatus(199)));
}

fn fields(r: &Record) -> (i32, String, String, String, [i32; 7]) {
    (r.id, r.cancer.clone(), r.diabetes.clone(), r.heart_disease.clone(), [r.eggs, r.salad, r.fries, r.milk, r.soda, r.coffee, r.cakes])
}

#[test]
fn load_reads_every_row() {
    let subset = extract(&source_csv(12)).unwrap();
    let records = transform_load(&subset).unwrap();
    assert_eq!(records.len(), 12);
    assert_eq!(fields(&records[3]), (1003, "No".to_string(), "No".to_string(), "Yes".to_string(), [7, 6, 5, 4, 3, 2, 3]));
    let again = transform_load(&subset).unwrap();
    assert_eq!(again.len(), 12);
    assert_eq!(again.iter().map(fields).collect::<Vec<_>>(), records.iter().map(fields).collect::<Vec<_>>());
}

#[test]
fn load_of_header_only_is_empty() {
    let subset = format!("{}\n", WANTED.join(",")).into_bytes();
    assert_eq!(transform_load(&subset).unwrap().len(), 0);
}

#[test]
fn load_fails_on_empty_integer_cell() {
    let subset = format!("{}\n1,Yes,No,No,2,5,3,4,1,2,3\n2,No,Yes,Yes,,3,2,5,2,4,1\n", WANTED.join(",")).into_bytes();
    assert_eq!(transform_load(&subset).err(), Some(EtlError::Parse));
}

#[test]
fn load_fails_on_text_in_id() {
    let subset = format!("{}\nabc,Yes,No,No,2,5,3,4,1,2,3\n", WANTED.join(",")).into_bytes();
    assert_eq!(transform_load(&subset).err(), Some(EtlError::Parse));
}

#[test]
fn load_fails_on_malformed_csv() {
    let mut subset = format!("{}\n1,Yes,No,No,2,5,3,4,1,2,3\n", WANTED.join(",")).into_bytes();
    subset.extend_from_slice(b"2,\xff,No,No,2,5,3,4,1,2,3\n");
    assert_eq!(transform_load(&subset).err(), Some(EtlError::Csv));
}

#[test]
fn load_fails_on_short_row() {
    let subset = format!("{}\n1,Yes\n", WANTED.join(",")).into_bytes();
    assert_eq!(transform_load(&subset).err(), Some(EtlError::Parse));
}

#[test]
fn short_row_reads_missing_fields_as_empty() {
    let row = strings(&["5", "Yes", "No"]);
    assert_eq!(record_from_row(&row).err(), Some(EtlError::Parse));
    let row = strings(&["5", "Yes", "No", "Maybe", "1", "2", "3", "4", "5", "6", "7"]);
    let r = record_from_row(&row).unwrap();
    assert_eq!(fields(&r), (5, "Yes".to_string(), "No".to_string(), "Maybe".to_string(), [1, 2, 3, 4, 5, 6, 7]));
}
