use attendance_core::model::{AttendanceError, ConfigEntry, Filters, RecordType};
use attendance_core::store::Db;
use attendance_core::time::{Date, Timestamp};

fn date(year: u16, month: u8, day: u8) -> Date {
    Date { year, month, day }
}

fn ts(year: u16, month: u8, day: u8, hour: u8, minute: u8, second: u8) -> Timestamp {
    Timestamp { date: date(year, month, day), hour, minute, second }
}

fn no_filters() -> Filters {
    Filters { start_date: None, end_date: None, employee_id: None, record_type: None }
}

fn day(d: Date) -> Filters {
    Filters { start_date: Some(d), end_date: Some(d), employee_id: None, record_type: None }
}

#[test]
fn init_seeds_default_password() {
    let mut db = Db::new();
    db.init_database();
    assert_eq!(db.verify_admin_password("0824"), Ok(true));
    assert_eq!(db.verify_admin_password("1234"), Ok(false));
    assert_eq!(db.verify_admin_password("0824 "), Ok(false));
}

#[test]
fn init_is_idempotent() {
    let mut db = Db::new();
    db.init_database();
    let snapshot: Vec<(String, String)> =
        db.config.iter().map(|e| (e.key.clone(), e.value.clone())).collect();
    db.init_database();
    let again: Vec<(String, String)> =
        db.config.iter().map(|e| (e.key.clone(), e.value.clone())).collect();
    assert_eq!(snapshot, again);
    assert_eq!(db.config.len(), 1);
    assert_eq!(db.verify_admin_password("0824"), Ok(true));
}

#[test]
fn init_migrates_legacy_default() {
    let mut db = Db::new();
    db.config.push(ConfigEntry { key: "admin_password".to_string(), value: "1234".to_string() });
    db.init_database();
    assert_eq!(db.config.len(), 1);
    assert_eq!(db.verify_admin_password("0824"), Ok(true));
    assert_eq!(db.verify_admin_password("1234"), Ok(false));
}

#[test]
fn init_keeps_custom_password() {
    let mut db = Db::new();
    db.config.push(ConfigEntry { key: "admin_password".to_string(), value: "secret".to_string() });
    db.init_database();
    assert_eq!(db.verify_admin_password("secret"), Ok(true));
    assert_eq!(db.verify_admin_password("0824"), Ok(false));
}

#[test]
fn verify_password_without_config_row_fails() {
    let db = Db::new();
    assert_eq!(db.verify_admin_password("0824"), Err(AttendanceError::ConfigMissing));
}

#[test]
fn check_in_synthesizes_fallback_name() {
    let mut db = Db::new();
    let id = db.check_in_at("E1".to_string(), None, ts(2024, 3, 1, 8, 0, 0));
    assert_eq!(id, 1);
    let records = db.get_records(&no_filters());
    assert_eq!(records.len(), 1);
    assert_eq!(records[0].employee_name, Some("Employee E1".to_string()));
    assert_eq!(records[0].record_type, RecordType::Entry);
    assert_eq!(records[0].employee_id, "E1".to_string());
}

#[test]
fn check_in_uses_stored_employee_name() {
    let mut db = Db::new();
    db.create_employee_at("E1".to_string(), "Alice".to_string(), ts(2024, 1, 1, 9, 0, 0)).unwrap();
    db.check_in_at("E1".to_string(), None, ts(2024, 3, 1, 8, 0, 0));
    let records = db.get_records(&no_filters());
    assert_eq!(records[0].employee_name, Some("Alice".to_string()));
}

#[test]
fn check_in_prefers_given_name() {
    let mut db = Db::new();
    db.create_employee_at("E1".to_string(), "Alice".to_string(), ts(2024, 1, 1, 9, 0, 0)).unwrap();
    db.check_in_at("E1".to_string(), Some("Bob".to_string()), ts(2024, 3, 1, 8, 0, 0));
    let records = db.get_records(&no_filters());
    assert_eq!(records[0].employee_name, Some("Bob".to_string()));
}

#[test]
fn check_out_records_exit_event() {
    let mut db = Db::new();
    let now = ts(2024, 3, 1, 17, 30, 0);
    db.check_out_at("E1".to_string(), None, now);
    let records = db.get_records(&no_filters());
    assert_eq!(records[0].record_type, RecordType::Exit);
    assert_eq!(records[0].timestamp, now);
    assert_eq!(records[0].created_at, now);
    assert_eq!(records[0].updated_at, now);
    assert_eq!(records[0].notes, None);
}

#[test]
fn records_get_distinct_increasing_ids() {
    let mut db = Db::new();
    let a = db.check_in_at("E1".to_string(), None, ts(2024, 3, 1, 8, 0, 0));
    let b = db.check_out_at("E1".to_string(), None, ts(2024, 3, 1, 17, 0, 0));
    let c = db.check_in_at("E2".to_string(), None, ts(2024, 3, 1, 8, 5, 0));
    assert_eq!((a, b, c), (1, 2, 3));
}

#[test]
fn list_orders_by_timestamp_descending() {
    let mut db = Db::new();
    db.check_in_at("E1".to_string(), None, ts(2024, 3, 1, 8, 0, 0));
    db.check_in_at("E2".to_string(), None, ts(2024, 3, 2, 7, 0, 0));
    db.check_in_at("E3".to_string(), None, ts(2024, 3, 1, 12, 0, 0));
    let records = db.get_records(&no_filters());
    let ids: Vec<&str> = records.iter().map(|r| r.employee_id.as_str()).collect();
    assert_eq!(ids, vec!["E2", "E3", "E1"]);
}

#[test]
fn list_keeps_stored_order_for_equal_timestamps() {
    let mut db = Db::new();
    let same = ts(2024, 3, 1, 8, 0, 0);
    db.check_in_at("first".to_string(), None, same);
    db.check_in_at("second".to_string(), None, same);
    let records = db.get_records(&no_filters());
    assert_eq!(records[0].employee_id, "first".to_string());
    assert_eq!(records[1].employee_id, "second".to_string());
}

#[test]
fn date_filter_is_inclusive_and_ignores_time_of_day() {
    let mut db = Db::new();
    db.check_in_at("early".to_string(), None, ts(2024, 3, 1, 0, 0, 0));
    db.check_in_at("late".to_string(), None, ts(2024, 3, 1, 23, 59, 59));
    db.check_in_at("before".to_string(), None, ts(2024, 2, 29, 12, 0, 0));
    db.check_in_at("after".to_string(), None, ts(2024, 3, 2, 0, 0, 0));
    let records = db.get_records(&day(date(2024, 3, 1)));
    let mut ids: Vec<&str> = records.iter().map(|r| r.employee_id.as_str()).collect();
    ids.sort();
    assert_eq!(ids, vec!["early", "late"]);
}

#[test]
fn date_range_bounds_work_alone() {
    let mut db = Db::new();
    db.check_in_at("a".to_string(), None, ts(2024, 3, 1, 8, 0, 0));
    db.check_in_at("b".to_string(), None, ts(2024, 3, 5, 8, 0, 0));
    db.check_in_at("c".to_string(), None, ts(2024, 3, 9, 8, 0, 0));
    let from = Filters {
        start_date: Some(date(2024, 3, 5)),
        end_date: None,
        employee_id: None,
        record_type: None,
    };
    let upto = Filters {
        start_date: None,
        end_date: Some(date(2024, 3, 5)),
        employee_id: None,
        record_type: None,
    };
    assert_eq!(db.get_records(&from).len(), 2);
    assert_eq!(db.get_records(&upto).len(), 2);
}

#[test]
fn employee_and_type_filters_conjoin() {
    let mut db = Db::new();
    db.check_in_at("E1".to_string(), None, ts(2024, 3, 1, 8, 0, 0));
    db.check_out_at("E1".to_string(), None, ts(2024, 3, 1, 17, 0, 0));
    db.check_in_at("E2".to_string(), None, ts(2024, 3, 1, 8, 30, 0));
    let f = Filters {
        start_date: None,
        end_date: None,
        employee_id: Some("E1".to_string()),
        record_type: Some(RecordType::Entry),
    };
    let records = db.get_records(&f);
    assert_eq!(records.len(), 1);
    assert_eq!(records[0].employee_id, "E1".to_string());
    assert_eq!(records[0].record_type, RecordType::Entry);
}

#[test]
fn export_returns_exactly_what_listing_returns() {
    let mut db = Db::new();
    db.check_in_at("E1".to_string(), None, ts(2024, 3, 1, 8, 0, 0));
    db.check_out_at("E1".to_string(), None, ts(2024, 3, 1, 17, 0, 0));
    db.check_in_at("E2".to_string(), None, ts(2024, 3, 2, 8, 0, 0));
    let f = Filters {
        start_date: Some(date(2024, 3, 1)),
        end_date: Some(date(2024, 3, 2)),
        employee_id: None,
        record_type: None,
    };
    let listed = db.get_records(&f);
    let exported = db.export_records(&f);
    assert_eq!(listed.len(), exported.len());
    for (a, b) in listed.iter().zip(exported.iter()) {
        assert_eq!(a.id, b.id);
        assert_eq!(a.employee_id, b.employee_id);
        assert_eq!(a.employee_name, b.employee_name);
        assert_eq!(a.timestamp, b.timestamp);
        assert_eq!(a.record_type, b.record_type);
        assert_eq!(a.notes, b.notes);
        assert_eq!(a.created_at, b.created_at);
        assert_eq!(a.updated_at, b.updated_at);
    }
}

#[test]
fn update_record_with_notes_changes_only_notes_and_updated_at() {
    let mut db = Db::new();
    let inserted = ts(2024, 3, 1, 8, 0, 0);
    let id = db.check_in_at("E1".to_string(), None, inserted);
    let later = ts(2024, 3, 1, 9, 15, 0);
    let r = db.update_record_at(id, None, None, Some("x".to_string()), later);
    assert_eq!(r, Ok(()));
    let records = db.get_records(&no_filters());
    assert_eq!(records[0].notes, Some("x".to_string()));
    assert_eq!(records[0].timestamp, inserted);
    assert_eq!(records[0].record_type, RecordType::Entry);
    assert_eq!(records[0].created_at, inserted);
    assert_eq!(records[0].updated_at, later);
}

#[test]
fn update_record_replaces_timestamp_and_type() {
    let mut db = Db::new();
    let id = db.check_in_at("E1".to_string(), None, ts(2024, 3, 1, 8, 0, 0));
    let moved = ts(2024, 3, 2, 18, 0, 0);
    let stamped = ts(2024, 3, 2, 18, 5, 0);
    db.update_record_at(id, Some(moved), Some(RecordType::Exit), None, stamped).unwrap();
    let records = db.get_records(&no_filters());
    assert_eq!(records[0].timestamp, moved);
    assert_eq!(records[0].record_type, RecordType::Exit);
    assert_eq!(records[0].notes, None);
    assert_eq!(records[0].updated_at, stamped);
}

#[test]
fn update_record_without_fields_fails() {
    let mut db = Db::new();
    let id = db.check_in_at("E1".to_string(), None, ts(2024, 3, 1, 8, 0, 0));
    let r = db.update_record_at(id, None, None, None, ts(2024, 3, 1, 9, 0, 0));
    assert_eq!(r, Err(AttendanceError::NoFieldsProvided));
}

#[test]
fn update_record_unknown_id_fails() {
    let mut db = Db::new();
    db.check_in_at("E1".to_string(), None, ts(2024, 3, 1, 8, 0, 0));
    let r = db.update_record_at(9999, None, None, Some("x".to_string()), ts(2024, 3, 1, 9, 0, 0));
    assert_eq!(r, Err(AttendanceError::NotFound));
}

#[test]
fn delete_record_unknown_id_fails() {
    let mut db = Db::new();
    assert_eq!(db.delete_record(9999), Err(AttendanceError::NotFound));
}

#[test]
fn delete_record_removes_exactly_one() {
    let mut db = Db::new();
    let a = db.check_in_at("E1".to_string(), None, ts(2024, 3, 1, 8, 0, 0));
    let b = db.check_in_at("E2".to_string(), None, ts(2024, 3, 1, 8, 30, 0));
    assert_eq!(db.delete_record(a), Ok(()));
    let records = db.get_records(&no_filters());
    assert_eq!(records.len(), 1);
    assert_eq!(records[0].id, b);
    assert_eq!(db.delete_record(a), Err(AttendanceError::NotFound));
}

#[test]
fn error_messages_name_each_kind() {
    assert_eq!(AttendanceError::InvalidInput.message(), "a required field is empty");
    assert_eq!(AttendanceError::NoFieldsProvided.message(), "no fields to update");
    assert_eq!(AttendanceError::NotFound.message(), "record not found");
    assert_eq!(
        AttendanceError::DuplicateId.message(),
        "an employee with that id already exists"
    );
    assert_eq!(AttendanceError::ConfigMissing.message(), "the configuration row is missing");
}
