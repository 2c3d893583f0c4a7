use meal_api::meal::Meal;
use meal_api::store::{get_meal, get_multi_meals, Query, StoreError, StoreReply};

fn meal(idx: i32, date: &str, breakfast: &str) -> Meal {
    Meal {
        idx,
        id: idx + 100,
        date: date.to_string(),
        breakfast: breakfast.to_string(),
        lunch: format!("lunch {}", idx),
        dinner: format!("dinner {}", idx),
    }
}

fn table() -> StoreReply {
    StoreReply::Rows(vec![
        meal(1, "2024-06-21", "toast"),
        meal(2, "2024-06-08", "eggs"),
        meal(3, "2024-06-15", "rice"),
        meal(4, "2024-06-22", "soup"),
        meal(5, "2024-06-09", "fruit"),
        meal(6, "2024-01-15", "oats"),
    ])
}

fn dates(meals: &[Meal]) -> Vec<&str> {
    meals.iter().map(|m| m.date.as_str()).collect()
}

#[test]
fn the_record_of_a_date_is_found() {
    assert_eq!(get_meal(&table(), "2024-01-15"), Ok(meal(6, "2024-01-15", "oats")));
    assert_eq!(get_meal(&table(), "2024-06-21"), Ok(meal(1, "2024-06-21", "toast")));
}

#[test]
fn a_date_without_a_record_is_not_found() {
    assert_eq!(get_meal(&table(), "2024-01-16"), Err(StoreError::RecordNotFound));
    assert_eq!(get_meal(&table(), "2024-01-1"), Err(StoreError::RecordNotFound));
    assert_eq!(get_meal(&table(), ""), Err(StoreError::RecordNotFound));
    assert_eq!(get_meal(&StoreReply::Rows(vec![]), "2024-01-15"), Err(StoreError::RecordNotFound));
}

#[test]
fn a_failure_of_the_store_is_told_from_a_missing_record() {
    assert_eq!(get_meal(&StoreReply::Failure, "2024-01-15"), Err(StoreError::StorageError));
    assert_eq!(
        get_multi_meals(&StoreReply::Failure, "2024-06-09", "2024-06-21"),
        Err(StoreError::StorageError)
    );
}

#[test]
fn of_two_records_of_a_date_the_first_is_found() {
    let reply = StoreReply::Rows(vec![
        meal(1, "2024-01-14", "a"),
        meal(2, "2024-01-15", "b"),
        meal(3, "2024-01-15", "c"),
    ]);
    assert_eq!(get_meal(&reply, "2024-01-15"), Ok(meal(2, "2024-01-15", "b")));
}

#[test]
fn the_records_of_a_range_come_in_ascending_order() {
    let found = get_multi_meals(&table(), "2024-06-09", "2024-06-21").unwrap();
    assert_eq!(dates(&found), vec!["2024-06-09", "2024-06-15", "2024-06-21"]);
    assert_eq!(
        found,
        vec![
            meal(5, "2024-06-09", "fruit"),
            meal(3, "2024-06-15", "rice"),
            meal(1, "2024-06-21", "toast"),
        ]
    );
}

#[test]
fn both_ends_of_a_range_are_included() {
    let found = get_multi_meals(&table(), "2024-06-08", "2024-06-22").unwrap();
    assert_eq!(
        dates(&found),
        vec!["2024-06-08", "2024-06-09", "2024-06-15", "2024-06-21", "2024-06-22"]
    );
    let one = get_multi_meals(&table(), "2024-06-15", "2024-06-15").unwrap();
    assert_eq!(dates(&one), vec!["2024-06-15"]);
}

#[test]
fn a_range_without_records_is_empty() {
    assert_eq!(get_multi_meals(&table(), "2025-01-01", "2025-01-13"), Ok(vec![]));
    assert_eq!(get_multi_meals(&StoreReply::Rows(vec![]), "2024-06-09", "2024-06-21"), Ok(vec![]));
}

#[test]
fn a_range_that_ends_before_it_starts_is_empty() {
    assert_eq!(get_multi_meals(&table(), "2024-06-21", "2024-06-09"), Ok(vec![]));
    assert_eq!(get_multi_meals(&table(), "9999-12-25", "+10000-01-06"), Ok(vec![]));
}

#[test]
fn records_of_one_date_keep_their_order() {
    let reply = StoreReply::Rows(vec![
        meal(1, "2024-06-15", "first"),
        meal(2, "2024-06-10", "early"),
        meal(3, "2024-06-15", "second"),
        meal(4, "2024-06-15", "third"),
    ]);
    let found = get_multi_meals(&reply, "2024-06-09", "2024-06-21").unwrap();
    let order: Vec<i32> = found.iter().map(|m| m.idx).collect();
    assert_eq!(order, vec![2, 1, 3, 4]);
}

#[test]
fn a_table_in_descending_order_is_turned_round() {
    let rows: Vec<Meal> = (1..=9).rev().map(|d| meal(d, &format!("2024-06-0{}", d), "x")).collect();
    let found = get_multi_meals(&StoreReply::Rows(rows), "2024-06-01", "2024-06-09").unwrap();
    let order: Vec<i32> = found.iter().map(|m| m.idx).collect();
    assert_eq!(order, vec![1, 2, 3, 4, 5, 6, 7, 8, 9]);
}

#[test]
fn dates_are_compared_as_texts() {
    let reply = StoreReply::Rows(vec![
        meal(1, "2024-06-1", "short"),
        meal(2, "2024-06-10", "full"),
        meal(3, "banana", "fruit"),
    ]);
    let found = get_multi_meals(&reply, "2024-06-09", "2024-06-21").unwrap();
    assert_eq!(dates(&found), vec!["2024-06-1", "2024-06-10"]);
}

#[test]
fn a_copy_of_a_meal_has_its_contents() {
    let m = meal(7, "2024-06-15", "rice");
    assert_eq!(m.duplicate(), m);
}

#[test]
fn a_query_has_its_statement_and_parameters() {
    let day = Query::Day("2024-01-15".to_string());
    assert_eq!(day.statement(), "SELECT * FROM meals WHERE date=?1");
    assert_eq!(day.parameters(), vec!["2024-01-15".to_string()]);
    let range = Query::Range("2024-06-09".to_string(), "2024-06-21".to_string());
    assert_eq!(range.statement(), "SELECT * FROM meals WHERE date BETWEEN ?1 AND ?2");
    assert_eq!(range.parameters(), vec!["2024-06-09".to_string(), "2024-06-21".to_string()]);
}

/// A table of dates in a jumbled order, some of them twice.
fn jumbled(count: u32) -> Vec<Meal> {
    let mut seed: u32 = 12345;
    let mut rows = vec![];
    for i in 0..count {
        seed = seed.wrapping_mul(1103515245).wrapping_add(12345);
        let day = (seed >> 16) % 28 + 1;
        let month = (seed >> 8) % 3 + 5;
        rows.push(meal(i as i32, &format!("2024-{:02}-{:02}", month, day), "x"));
    }
    rows
}

#[test]
fn a_range_is_what_filtering_and_a_stable_sort_give() {
    for count in [0, 1, 2, 3, 10, 60, 200] {
        let rows = jumbled(count);
        for (start, end) in [
            ("2024-06-09", "2024-06-21"),
            ("2024-05-01", "2024-07-31"),
            ("2024-06-15", "2024-06-15"),
            ("2024-07-01", "2024-06-01"),
            ("", "~"),
        ] {
            let mut expected: Vec<Meal> = rows
                .iter()
                .filter(|m| start <= m.date.as_str() && m.date.as_str() <= end)
                .cloned()
                .collect();
            expected.sort_by(|a, b| a.date.cmp(&b.date));
            assert_eq!(get_multi_meals(&StoreReply::Rows(rows.clone()), start, end), Ok(expected));
        }
    }
}

#[test]
fn a_lookup_is_the_first_row_of_the_date() {
    let rows = jumbled(120);
    for day in 1..=28 {
        let target = format!("2024-06-{:02}", day);
        let expected = rows.iter().find(|m| m.date == target).cloned();
        assert_eq!(
            get_meal(&StoreReply::Rows(rows.clone()), &target),
            expected.ok_or(StoreError::RecordNotFound)
        );
    }
}

#[test]
fn rows_in_ascending_order_stay_as_they_are() {
    let rows: Vec<Meal> = (1..=28).map(|d| meal(d, &format!("2024-06-{:02}", d), "x")).collect();
    assert_eq!(get_multi_meals(&StoreReply::Rows(rows.clone()), "2024-06-01", "2024-06-28"), Ok(rows));
}
