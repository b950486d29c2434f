use chrono::TimeZone;
use tdview::td::{
    cell_text, count_in, in_display_range, row_texts, total_page, CellValue, Precision,
    QueryError, Reply, STable, Status, Table, PAGE_SIZE,
};

fn names(v: &[&str]) -> Vec<String> {
    v.iter().map(|s| s.to_string()).collect()
}

fn local(seconds: i64, nanos: u32) -> String {
    chrono::Local.timestamp_opt(seconds, nanos).unwrap().format("%Y-%m-%d %H:%M:%S").to_string()
}

#[test]
fn new_keeps_the_name() {
    assert_eq!(STable::new("events".to_string()).stable_name, "events");
}

#[test]
fn status_and_table_hold_their_fields() {
    let s = Status { ts: 1_700_000_000_000, status: Some(2), robot_id: None };
    assert_eq!(s.ts, 1_700_000_000_000);
    assert_eq!(s.status, Some(2));
    assert!(s.robot_id.is_none());
    assert_eq!(Table { table_name: "t_1".to_string() }.table_name, "t_1");
}

#[test]
fn get_stables_sorts_by_code_points() {
    let stables = STable::get_stables(names(&["st_b", "st_a", "St_c", "st_a0", "st"]));
    let got: Vec<&str> = stables.iter().map(|s| s.stable_name.as_str()).collect();
    assert_eq!(got, vec!["St_c", "st", "st_a", "st_a0", "st_b"]);
}

#[test]
fn get_stables_keeps_every_name() {
    let stables = STable::get_stables(names(&["x", "x", "a"]));
    let got: Vec<&str> = stables.iter().map(|s| s.stable_name.as_str()).collect();
    assert_eq!(got, vec!["a", "x", "x"]);
    assert!(STable::get_stables(Vec::new()).is_empty());
}

#[test]
fn get_sub_tables_sorts_by_code_points() {
    let tables = STable::get_sub_tables(names(&["robot_9", "robot_10", "robot_1"]));
    let got: Vec<&str> = tables.iter().map(|t| t.table_name.as_str()).collect();
    assert_eq!(got, vec!["robot_1", "robot_10", "robot_9"]);
}

#[test]
fn sub_tables_statement_uses_the_second_part_of_the_name() {
    let sql = STable::new("st_robot_01".to_string()).sub_tables_sql();
    assert_eq!(sql, Ok("show tables like \"robot_%\"".to_string()));
    let sql = STable::new("st_robot".to_string()).sub_tables_sql();
    assert_eq!(sql, Ok("show tables like \"robot_%\"".to_string()));
    let sql = STable::new("st_".to_string()).sub_tables_sql();
    assert_eq!(sql, Ok("show tables like \"_%\"".to_string()));
    let sql = STable::new("_a__b".to_string()).sub_tables_sql();
    assert_eq!(sql, Ok("show tables like \"a_%\"".to_string()));
}

#[test]
fn sub_tables_statement_needs_an_underscore() {
    assert_eq!(STable::new("events".to_string()).sub_tables_sql(), Err(QueryError::NoSegment));
}

#[test]
fn sub_tables_statement_refuses_a_name_that_is_not_plain() {
    let sql = STable::new("st_\" or \"".to_string()).sub_tables_sql();
    assert_eq!(sql, Err(QueryError::UnsafeTable));
    assert_eq!(STable::new(String::new()).sub_tables_sql(), Err(QueryError::UnsafeTable));
}

#[test]
fn statements_without_filter() {
    let s = STable::new("events".to_string()).statements(1, &None).unwrap();
    assert_eq!(s.count, "select count(*) as c from events ");
    assert_eq!(s.page, "select * from events  order by ts desc limit 20 offset 0");
}

#[test]
fn statements_with_filter_and_page() {
    let s = STable::new("events".to_string()).statements(3, &Some("r9".to_string())).unwrap();
    assert_eq!(s.count, "select count(*) as c from events where robot_id like \"%r9%\"");
    assert_eq!(
        s.page,
        "select * from events where robot_id like \"%r9%\" order by ts desc limit 20 offset 40"
    );
}

#[test]
fn statements_offset_is_page_size_times_pages_before() {
    assert_eq!(PAGE_SIZE, 20);
    let table = STable::new("t".to_string());
    assert!(table.statements(2, &None).unwrap().page.ends_with(" limit 20 offset 20"));
    let last = table.statements(i32::MAX, &None).unwrap();
    assert!(last.page.ends_with(" offset 42949672920"));
}

#[test]
fn statements_with_an_empty_filter_text_still_filter() {
    let s = STable::new("t".to_string()).statements(1, &Some(String::new())).unwrap();
    assert_eq!(s.count, "select count(*) as c from t where robot_id like \"%%\"");
}

#[test]
fn statements_refuse_what_could_leave_its_place() {
    let table = STable::new("events".to_string());
    assert_eq!(
        table.statements(1, &Some("x\" or \"1\"=\"1".to_string())).unwrap_err(),
        QueryError::UnsafeFilter
    );
    assert_eq!(
        table.statements(1, &Some("x\\".to_string())).unwrap_err(),
        QueryError::UnsafeFilter
    );
    let bad = STable::new("events; drop table events".to_string());
    assert_eq!(bad.statements(1, &None).unwrap_err(), QueryError::UnsafeTable);
    assert_eq!(STable::new(String::new()).statements(1, &None).unwrap_err(), QueryError::UnsafeTable);
}

#[test]
fn statements_refuse_a_page_below_one() {
    let table = STable::new("events".to_string());
    assert_eq!(table.statements(0, &None).unwrap_err(), QueryError::BadPage);
    assert_eq!(table.statements(-3, &None).unwrap_err(), QueryError::BadPage);
}

#[test]
fn statements_errors_are_tested_in_order() {
    let bad = STable::new("a b".to_string());
    assert_eq!(bad.statements(0, &Some("\"".to_string())).unwrap_err(), QueryError::UnsafeTable);
    let good = STable::new("a_b".to_string());
    assert_eq!(good.statements(0, &Some("\"".to_string())).unwrap_err(), QueryError::UnsafeFilter);
}

#[test]
fn page_count_at_the_boundaries() {
    assert_eq!(total_page(0), 1);
    assert_eq!(total_page(1), 1);
    assert_eq!(total_page(19), 1);
    assert_eq!(total_page(20), 1);
    assert_eq!(total_page(21), 2);
    assert_eq!(total_page(40), 2);
    assert_eq!(total_page(41), 3);
    assert_eq!(total_page(-5), 1);
    assert_eq!(total_page(i64::MAX), 461_168_601_842_738_791);
}

#[test]
fn page_count_is_the_least_that_holds_all_rows() {
    for total in 1..500i64 {
        let pages = total_page(total);
        assert!(pages * 20 >= total);
        assert!((pages - 1) * 20 < total);
    }
}

#[test]
fn cells_show_in_their_natural_form() {
    assert_eq!(cell_text(&CellValue::Null), Some(String::new()));
    assert_eq!(cell_text(&CellValue::Bool(true)), Some("true".to_string()));
    assert_eq!(cell_text(&CellValue::Bool(false)), Some("false".to_string()));
    assert_eq!(cell_text(&CellValue::Int(-7)), Some("-7".to_string()));
    assert_eq!(cell_text(&CellValue::BigInt(i64::MIN)), Some(i64::MIN.to_string()));
    assert_eq!(cell_text(&CellValue::UInt(u64::MAX)), Some(u64::MAX.to_string()));
    assert_eq!(cell_text(&CellValue::Text("r9 \"x\"".to_string())), Some("r9 \"x\"".to_string()));
}

#[test]
fn timestamps_show_as_local_date_and_time() {
    let text = cell_text(&CellValue::Timestamp(1_700_000_000_123, Precision::Millisecond)).unwrap();
    assert_eq!(text, local(1_700_000_000, 123_000_000));
    assert_ne!(text, "1700000000123");
    let text = cell_text(&CellValue::Timestamp(1_700_000_000_123_456, Precision::Microsecond));
    assert_eq!(text.unwrap(), local(1_700_000_000, 123_456_000));
    let text = cell_text(&CellValue::Timestamp(1_700_000_000_123_456_789, Precision::Nanosecond));
    assert_eq!(text.unwrap(), local(1_700_000_000, 123_456_789));
    let text = cell_text(&CellValue::Timestamp(-1, Precision::Millisecond)).unwrap();
    assert_eq!(text, local(-1, 999_000_000));
}

#[test]
fn timestamps_show_minutes_between_hours_and_seconds() {
    // 2023-11-14 22:13:20 at Greenwich: the minute is 13 wherever the zone
    // differs from Greenwich by whole hours, and never the month.
    let text = cell_text(&CellValue::Timestamp(1_700_000_000_000, Precision::Millisecond)).unwrap();
    let minute = chrono::Local.timestamp_opt(1_700_000_000, 0).unwrap().format("%M").to_string();
    assert_eq!(&text[14..16], minute);
    assert_eq!(&text[17..19], "20");
}

#[test]
fn timestamps_have_the_shape_of_date_and_time() {
    for raw in [-62_135_596_800_000i64, 0, 951_782_400_000, 253_370_764_799_999] {
        let text = cell_text(&CellValue::Timestamp(raw, Precision::Millisecond)).unwrap();
        let chars: Vec<char> = text.chars().collect();
        assert_eq!(chars.len(), 19);
        for (i, c) in chars.iter().enumerate() {
            match i {
                4 | 7 => assert_eq!(*c, '-'),
                10 => assert_eq!(*c, ' '),
                13 | 16 => assert_eq!(*c, ':'),
                _ => assert!(c.is_ascii_digit()),
            }
        }
    }
    for raw in [i64::MIN, -1, 0, i64::MAX] {
        let text = cell_text(&CellValue::Timestamp(raw, Precision::Nanosecond)).unwrap();
        assert_eq!(text.chars().count(), 19);
    }
}

#[test]
fn timestamps_too_far_away_are_not_shown() {
    assert_eq!(cell_text(&CellValue::Timestamp(i64::MAX, Precision::Millisecond)), None);
    assert_eq!(cell_text(&CellValue::Timestamp(i64::MIN, Precision::Millisecond)), None);
    assert_eq!(cell_text(&CellValue::Timestamp(253_370_764_800_000, Precision::Millisecond)), None);
    assert_eq!(cell_text(&CellValue::Timestamp(-62_135_596_800_001, Precision::Millisecond)), None);
    assert_eq!(cell_text(&CellValue::Timestamp(i64::MAX, Precision::Microsecond)), None);
    assert!(in_display_range(253_370_764_799_999_999, Precision::Microsecond));
    assert!(!in_display_range(253_370_764_800_000_000, Precision::Microsecond));
    assert!(in_display_range(-62_135_596_800_000_000, Precision::Microsecond));
    assert!(!in_display_range(-62_135_596_800_000_001, Precision::Microsecond));
    assert!(in_display_range(i64::MIN, Precision::Nanosecond));
}

#[test]
fn row_texts_follow_the_cells() {
    let row = vec![CellValue::Int(1), CellValue::Null, CellValue::Text("ok".to_string())];
    assert_eq!(row_texts(&row), Some(names(&["1", "", "ok"])));
    assert_eq!(row_texts(&Vec::new()), Some(Vec::new()));
    let row = vec![CellValue::Int(1), CellValue::Timestamp(i64::MAX, Precision::Millisecond)];
    assert_eq!(row_texts(&row), None);
}

#[test]
fn count_is_the_big_integer_of_the_first_row() {
    assert_eq!(count_in(&Some(vec![CellValue::BigInt(3)])), Some(3));
    assert_eq!(count_in(&Some(vec![CellValue::BigInt(0)])), Some(0));
    assert_eq!(count_in(&None), None);
    assert_eq!(count_in(&Some(Vec::new())), None);
    assert_eq!(count_in(&Some(vec![CellValue::Int(3)])), None);
    assert_eq!(count_in(&Some(vec![CellValue::UInt(3), CellValue::Text("3".to_string())])), None);
    let row = vec![CellValue::BigInt(1), CellValue::Null, CellValue::BigInt(2), CellValue::Int(9)];
    assert_eq!(count_in(&Some(row)), Some(2));
}

#[test]
fn get_rows_puts_the_column_names_first() {
    let reply = Reply {
        count_row: Some(vec![CellValue::BigInt(2)]),
        fields: names(&["ts", "robot_id", "status"]),
        rows: vec![
            vec![
                CellValue::Timestamp(1_700_000_060_000, Precision::Millisecond),
                CellValue::Text("r9".to_string()),
                CellValue::BigInt(1),
            ],
            vec![
                CellValue::Timestamp(1_700_000_000_000, Precision::Millisecond),
                CellValue::Text("r90".to_string()),
                CellValue::Null,
            ],
        ],
    };
    let (list, count) = STable::get_rows(&reply).unwrap();
    assert_eq!(count, Some(2));
    assert_eq!(list.len(), 3);
    assert_eq!(list[0], names(&["ts", "robot_id", "status"]));
    assert_eq!(list[1], vec![local(1_700_000_060, 0), "r9".to_string(), "1".to_string()]);
    assert_eq!(list[2], vec![local(1_700_000_000, 0), "r90".to_string(), String::new()]);
}

#[test]
fn get_rows_of_an_empty_reply_is_the_column_names_alone() {
    let reply = Reply { count_row: None, fields: names(&["ts"]), rows: Vec::new() };
    let (list, count) = STable::get_rows(&reply).unwrap();
    assert_eq!(list, vec![names(&["ts"])]);
    assert_eq!(count, None);
}

#[test]
fn get_rows_fails_on_a_timestamp_that_cannot_be_shown() {
    let reply = Reply {
        count_row: Some(vec![CellValue::BigInt(1)]),
        fields: names(&["ts"]),
        rows: vec![
            vec![CellValue::Timestamp(0, Precision::Millisecond)],
            vec![CellValue::Timestamp(i64::MAX, Precision::Microsecond)],
        ],
    };
    assert_eq!(STable::get_rows(&reply).unwrap_err(), QueryError::TimestampRange);
}
