use attendance_core::model::{AttendanceError, Filters, RecordType};
use attendance_core::store::Db;
use attendance_core::time::{Date, Timestamp};

fn date(year: u16, month: u8, day: u8) -> Date {
    Date { year, month, day }
}

fn ts(year: u16, month: u8, day: u8, hour: u8, minute: u8, second: u8) -> Timestamp {
    Timestamp { date: date(year, month, day), hour, minute, second }
}

fn no_filters() -> Filters {
    Filters { start_date: None, end_date: None, employee_id: None, record_type: None }
}

#[test]
fn create_employee_stores_trimmed_fields() {
    let mut db = Db::new();
    let now = ts(2024, 1, 1, 9, 0, 0);
    assert_eq!(db.create_employee_at("  E1  ".to_string(), "\tAlice \n".to_string(), now), Ok(()));
    let emps = db.get_employees(None);
    assert_eq!(emps.len(), 1);
    assert_eq!(emps[0].id, "E1".to_string());
    assert_eq!(emps[0].name, "Alice".to_string());
    assert!(emps[0].active);
    assert_eq!(emps[0].created_at, now);
    assert_eq!(emps[0].updated_at, now);
}

#[test]
fn create_employee_rejects_blank_fields() {
    let mut db = Db::new();
    let now = ts(2024, 1, 1, 9, 0, 0);
    assert_eq!(
        db.create_employee_at("   ".to_string(), "Alice".to_string(), now),
        Err(AttendanceError::InvalidInput)
    );
    assert_eq!(
        db.create_employee_at("E1".to_string(), "  ".to_string(), now),
        Err(AttendanceError::InvalidInput)
    );
    assert_eq!(db.get_employees(None).len(), 0);
}

#[test]
fn duplicate_employee_id_keeps_first_registration() {
    let mut db = Db::new();
    let now = ts(2024, 1, 1, 9, 0, 0);
    assert_eq!(db.create_employee_at("E1".to_string(), "Alice".to_string(), now), Ok(()));
    assert_eq!(
        db.create_employee_at("E1".to_string(), "Bob".to_string(), now),
        Err(AttendanceError::DuplicateId)
    );
    let emps = db.get_employees(None);
    assert_eq!(emps.len(), 1);
    assert_eq!(emps[0].id, "E1".to_string());
    assert_eq!(emps[0].name, "Alice".to_string());
}

#[test]
fn employees_are_listed_by_name_ascending() {
    let mut db = Db::new();
    let now = ts(2024, 1, 1, 9, 0, 0);
    db.create_employee_at("3".to_string(), "Carol".to_string(), now).unwrap();
    db.create_employee_at("1".to_string(), "Alice".to_string(), now).unwrap();
    db.create_employee_at("2".to_string(), "Bob".to_string(), now).unwrap();
    let names: Vec<String> = db.get_employees(None).iter().map(|e| e.name.clone()).collect();
    assert_eq!(names, vec!["Alice".to_string(), "Bob".to_string(), "Carol".to_string()]);
}

#[test]
fn active_only_listing_filters_inactive_employees() {
    let mut db = Db::new();
    let now = ts(2024, 1, 1, 9, 0, 0);
    db.create_employee_at("E1".to_string(), "Alice".to_string(), now).unwrap();
    db.create_employee_at("E2".to_string(), "Bob".to_string(), now).unwrap();
    db.update_employee_at("E2".to_string(), None, Some(false), now).unwrap();
    assert_eq!(db.get_employees(Some(true)).len(), 1);
    assert_eq!(db.get_employees(Some(true))[0].id, "E1".to_string());
    assert_eq!(db.get_employees(Some(false)).len(), 2);
    assert_eq!(db.get_employees(None).len(), 2);
}

#[test]
fn update_employee_renames_and_refreshes_updated_at() {
    let mut db = Db::new();
    let created = ts(2024, 1, 1, 9, 0, 0);
    let later = ts(2024, 2, 2, 10, 0, 0);
    db.create_employee_at("E1".to_string(), "Alice".to_string(), created).unwrap();
    assert_eq!(
        db.update_employee_at("E1".to_string(), Some(" Alicia ".to_string()), None, later),
        Ok(())
    );
    let emps = db.get_employees(None);
    assert_eq!(emps[0].name, "Alicia".to_string());
    assert!(emps[0].active);
    assert_eq!(emps[0].created_at, created);
    assert_eq!(emps[0].updated_at, later);
}

#[test]
fn update_employee_error_cases() {
    let mut db = Db::new();
    let now = ts(2024, 1, 1, 9, 0, 0);
    db.create_employee_at("E1".to_string(), "Alice".to_string(), now).unwrap();
    assert_eq!(
        db.update_employee_at("E1".to_string(), Some("   ".to_string()), Some(true), now),
        Err(AttendanceError::InvalidInput)
    );
    assert_eq!(
        db.update_employee_at("E1".to_string(), None, None, now),
        Err(AttendanceError::NoFieldsProvided)
    );
    assert_eq!(
        db.update_employee_at("E9".to_string(), None, Some(false), now),
        Err(AttendanceError::NotFound)
    );
}

#[test]
fn delete_employee_keeps_attendance_records() {
    let mut db = Db::new();
    let now = ts(2024, 1, 1, 9, 0, 0);
    db.create_employee_at("E1".to_string(), "Alice".to_string(), now).unwrap();
    db.check_in_at("E1".to_string(), None, ts(2024, 3, 1, 8, 0, 0));
    assert_eq!(db.delete_employee("E1".to_string()), Ok(()));
    assert_eq!(db.get_employees(None).len(), 0);
    let records = db.get_records(&no_filters());
    assert_eq!(records.len(), 1);
    assert_eq!(records[0].employee_id, "E1".to_string());
    assert_eq!(records[0].employee_name, Some("Alice".to_string()));
    assert_eq!(db.delete_employee("E1".to_string()), Err(AttendanceError::NotFound));
}

#[test]
fn daily_stats_counts_and_presence() {
    let mut db = Db::new();
    let d = date(2024, 3, 1);
    db.check_in_at("E1".to_string(), None, ts(2024, 3, 1, 8, 0, 0));
    db.check_out_at("E1".to_string(), None, ts(2024, 3, 1, 12, 0, 0));
    db.check_in_at("E2".to_string(), None, ts(2024, 3, 1, 8, 30, 0));
    db.check_in_at("E3".to_string(), None, ts(2024, 3, 1, 9, 0, 0));
    db.check_out_at("E3".to_string(), None, ts(2024, 3, 1, 10, 0, 0));
    db.check_in_at("E3".to_string(), None, ts(2024, 3, 1, 11, 0, 0));
    let s = db.get_daily_stats_on(d);
    assert_eq!(s.total_entries, 4);
    assert_eq!(s.total_exits, 2);
    // E1 and E3 each have an exit dated `d`, so only E2 counts as present.
    assert_eq!(s.unique_employees_present, 1);
    let last = s.last_activity.expect("a record exists on the date");
    assert_eq!(last.timestamp, ts(2024, 3, 1, 12, 0, 0));
    assert_eq!(last.employee_id, "E1".to_string());
}

#[test]
fn daily_stats_sees_only_the_given_date() {
    let mut db = Db::new();
    db.check_in_at("E1".to_string(), None, ts(2024, 2, 29, 23, 0, 0));
    let s = db.get_daily_stats_on(date(2024, 3, 1));
    assert_eq!(s.total_entries, 0);
    assert_eq!(s.total_exits, 0);
    assert_eq!(s.unique_employees_present, 0);
    assert!(s.last_activity.is_none());
}

#[test]
fn daily_stats_counts_each_present_employee_once() {
    let mut db = Db::new();
    let d = date(2024, 3, 1);
    db.check_in_at("E1".to_string(), None, ts(2024, 3, 1, 8, 0, 0));
    db.check_in_at("E1".to_string(), None, ts(2024, 3, 1, 9, 0, 0));
    let s = db.get_daily_stats_on(d);
    assert_eq!(s.total_entries, 2);
    assert_eq!(s.unique_employees_present, 1);
}

#[test]
fn present_ids_match_presence_rule() {
    let mut db = Db::new();
    let d = date(2024, 3, 1);
    db.check_in_at("E1".to_string(), None, ts(2024, 3, 1, 8, 0, 0));
    db.check_out_at("E1".to_string(), None, ts(2024, 3, 1, 9, 0, 0));
    db.check_in_at("E2".to_string(), None, ts(2024, 3, 1, 8, 0, 0));
    let ids = db.present_employee_ids(d);
    assert_eq!(ids, vec!["E2".to_string()]);
}

#[test]
fn stats_agree_with_listing_of_the_day() {
    let mut db = Db::new();
    let d = date(2024, 3, 1);
    db.check_in_at("E1".to_string(), None, ts(2024, 3, 1, 8, 0, 0));
    db.check_in_at("E2".to_string(), None, ts(2024, 3, 1, 10, 0, 0));
    db.check_in_at("E3".to_string(), None, ts(2024, 2, 29, 10, 0, 0));
    let f = Filters {
        start_date: Some(d),
        end_date: Some(d),
        employee_id: None,
        record_type: None,
    };
    let listed = db.get_records(&f);
    let s = db.get_daily_stats_on(d);
    let last = s.last_activity.expect("records exist");
    assert_eq!(last.id, listed[0].id);
    assert_eq!(s.total_entries as usize, listed.len());
}

#[test]
fn type_filter_distinguishes_entries_and_exits() {
    let mut db = Db::new();
    db.check_in_at("E1".to_string(), None, ts(2024, 3, 1, 8, 0, 0));
    db.check_out_at("E1".to_string(), None, ts(2024, 3, 1, 17, 0, 0));
    let entries = Filters {
        start_date: None,
        end_date: None,
        employee_id: None,
        record_type: Some(RecordType::Entry),
    };
    let exits = Filters {
        start_date: None,
        end_date: None,
        employee_id: None,
        record_type: Some(RecordType::Exit),
    };
    assert_eq!(db.get_records(&entries).len(), 1);
    assert_eq!(db.get_records(&exits).len(), 1);
    assert_eq!(db.get_records(&entries)[0].record_type, RecordType::Entry);
}

#[test]
fn clock_backed_operations_record_well_formed_times() {
    let mut db = Db::new();
    db.init_database();
    db.create_employee("E1".to_string(), "Alice".to_string()).unwrap();
    db.check_in("E1".to_string(), None);
    db.check_out("E1".to_string(), None);
    let records = db.get_records(&no_filters());
    assert_eq!(records.len(), 2);
    for r in &records {
        let t = r.timestamp;
        assert!((1..=12).contains(&t.date.month));
        assert!((1..=31).contains(&t.date.day));
        assert!(t.hour <= 23 && t.minute <= 59 && t.second <= 59);
        assert!(t.date.year >= 2024);
        assert_eq!(r.employee_name, Some("Alice".to_string()));
    }
    let stats = db.get_daily_stats();
    assert_eq!(stats.total_entries, 1);
    assert_eq!(stats.total_exits, 1);
    assert_eq!(stats.unique_employees_present, 0);
}
