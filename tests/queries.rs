use nutrition_etl::query::{
    find_user_by_id, insert_data, query_frequent_soda, query_heart_disease, read_data, HeartRow,
    SodaRow,
};
use nutrition_etl::report::{
    find_user_report, frequent_soda_report, heart_disease_report, list_report, records_table, renderable,
    text_free_of_escape,
};
use nutrition_etl::schema::Record;

fn record(id: i32, heart: &str, soda: i32) -> Record {
    Record {
        id,
        cancer: "No".to_string(),
        diabetes: "No".to_string(),
        heart_disease: heart.to_string(),
        eggs: id % 4,
        salad: 1,
        fries: id % 3,
        milk: 2,
        soda,
        coffee: 3,
        cakes: 4,
    }
}

fn mixed_table() -> Vec<Record> {
    let sodas = [5, 1, 3, 4, 9, 3, 2, 7, 8, 6, 0];
    sodas.iter().enumerate().map(|(i, &s)| record(i as i32 + 1, if i % 2 == 0 { "Yes" } else { "No" }, s)).collect()
}

#[test]
fn threshold_filter_keeps_values_above_three() {
    let rows = mixed_table();
    let found = query_frequent_soda(&rows);
    assert_eq!(found.len(), 5);
    assert!(found.iter().all(|r| r.soda > 3));
    assert_eq!(found.iter().map(|r| r.id).collect::<Vec<_>>(), vec![1, 4, 5, 8, 9]);
    assert_eq!(found[1], SodaRow { id: 4, soda: 4, eggs: 0, fries: 1 });
}

#[test]
fn threshold_filter_excludes_equal_to_three() {
    let rows = vec![record(1, "No", 3), record(2, "No", 4), record(3, "No", 2)];
    let found = query_frequent_soda(&rows);
    assert_eq!(found, vec![SodaRow { id: 2, soda: 4, eggs: 2, fries: 2 }]);
}

#[test]
fn heart_filter_on_sample_rows() {
    let rows = insert_data();
    assert_eq!(query_heart_disease(&rows), vec![HeartRow { id: 2, eggs: 4, salad: 3, fries: 2, soda: 2 }]);
}

#[test]
fn heart_filter_limits_to_five() {
    let rows = mixed_table();
    let found = query_heart_disease(&rows);
    assert_eq!(found.iter().map(|r| r.id).collect::<Vec<_>>(), vec![1, 3, 5, 7, 9]);
}

#[test]
fn heart_filter_is_exact_on_text() {
    let rows = vec![record(1, "yes", 1), record(2, "Yes ", 1), record(3, "Yes", 1)];
    assert_eq!(query_heart_disease(&rows).len(), 1);
}

#[test]
fn sample_rows_hold_their_values() {
    let rows = insert_data();
    assert_eq!(rows.len(), 2);
    let r = &rows[0];
    assert_eq!((r.id, r.cancer.as_str(), r.diabetes.as_str(), r.heart_disease.as_str()), (1, "Yes", "No", "No"));
    assert_eq!([r.eggs, r.salad, r.fries, r.milk, r.soda, r.coffee, r.cakes], [2, 5, 3, 4, 1, 2, 3]);
}

#[test]
fn listing_takes_first_five() {
    let rows = mixed_table();
    let first = read_data(&rows);
    assert_eq!(first.iter().map(|r| r.id).collect::<Vec<_>>(), vec![1, 2, 3, 4, 5]);
    assert_eq!(read_data(&insert_data()).len(), 2);
    assert_eq!(read_data(&Vec::new()).len(), 0);
}

#[test]
fn lookup_returns_row_unchanged() {
    let rows = insert_data();
    let r = find_user_by_id(&rows, 2).unwrap();
    assert_eq!((r.id, r.cancer.as_str(), r.diabetes.as_str(), r.heart_disease.as_str()), (2, "No", "Yes", "Yes"));
    assert_eq!([r.eggs, r.salad, r.fries, r.milk, r.soda, r.coffee, r.cakes], [4, 3, 2, 5, 2, 4, 1]);
}

#[test]
fn lookup_of_absent_id_is_none() {
    assert!(find_user_by_id(&insert_data(), 1001).is_none());
    assert!(find_user_by_id(&Vec::new(), 1).is_none());
}

#[test]
fn absent_id_report_names_the_id() {
    assert_eq!(find_user_report(&insert_data(), 1001), "No user found with ID: 1001");
    assert_eq!(find_user_report(&insert_data(), -4), "No user found with ID: -4");
    assert_eq!(find_user_report(&insert_data(), 0), "No user found with ID: 0");
    assert_eq!(find_user_report(&insert_data(), i32::MIN), "No user found with ID: -2147483648");
}

#[test]
fn found_id_report_is_a_table() {
    let text = find_user_report(&insert_data(), 1);
    assert!(text.contains("Heart Disease"));
    assert!(text.contains("| 1 "));
    assert_eq!(text.lines().filter(|l| l.starts_with('|')).count(), 2);
}

#[test]
fn reports_render_cells() {
    let rows = insert_data();
    let heart = heart_disease_report(&rows);
    assert!(heart.contains("Salad Frequency"));
    assert_eq!(heart.lines().filter(|l| l.starts_with('|')).count(), 2);
    assert!(heart.lines().any(|l| l.starts_with("| 2 ")));
    let soda = frequent_soda_report(&rows);
    assert!(soda.contains("Soda Frequency"));
    assert_eq!(soda.lines().filter(|l| l.starts_with('|')).count(), 1);
    let list = list_report(&rows);
    assert_eq!(list.lines().filter(|l| l.starts_with('|')).count(), 3);
    assert_eq!(records_table(&rows), list);
}


#[test]
fn escape_character_is_found_anywhere() {
    assert!(text_free_of_escape("Yes"));
    assert!(text_free_of_escape(""));
    assert!(!text_free_of_escape("\u{1b}[m"));
    assert!(!text_free_of_escape("No\u{1b}"));
}

#[test]
fn rows_with_escape_text_are_not_renderable() {
    assert!(renderable(&insert_data()));
    assert!(renderable(&Vec::new()));
    let mut rows = insert_data();
    rows[1].diabetes = String::from("\u{1b}[\u{5d0}\u{200d}\u{5dc}m");
    assert!(!renderable(&rows));
}
