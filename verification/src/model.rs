//! The record types of the ledger: attendance events, employees, the
//! configuration rows, filter sets, daily statistics and the error taxonomy.

use crate::time::{Date, Timestamp};
use vstd::prelude::*;

verus! {

/// The kind of an attendance event.
#[derive(Clone, Copy, PartialEq, Eq, Structural, Debug)]
pub enum RecordType {
    Entry,
    Exit,
}

/// One attendance event. `id` is assigned by the store and never changes;
/// `employee_name` is a snapshot of the display name at event time.
#[derive(Debug)]
pub struct AttendanceRecord {
    pub id: i64,
    pub employee_id: String,
    pub employee_name: Option<String>,
    pub timestamp: Timestamp,
    pub record_type: RecordType,
    pub notes: Option<String>,
    pub created_at: Timestamp,
    pub updated_at: Timestamp,
}

impl Clone for AttendanceRecord {
    fn clone(&self) -> (r: Self)
        ensures
            r == *self,
    {
        AttendanceRecord {
            id: self.id,
            employee_id: self.employee_id.clone(),
            employee_name: match &self.employee_name {
                Some(n) => Some(n.clone()),
                None => None,
            },
            timestamp: self.timestamp,
            record_type: self.record_type,
            notes: match &self.notes {
                Some(n) => Some(n.clone()),
                None => None,
            },
            created_at: self.created_at,
            updated_at: self.updated_at,
        }
    }
}

/// One registered employee; `id` is the primary identity.
#[derive(Debug)]
pub struct Employee {
    pub id: String,
    pub name: String,
    pub active: bool,
    pub created_at: Timestamp,
    pub updated_at: Timestamp,
}

impl Clone for Employee {
    fn clone(&self) -> (r: Self)
        ensures
            r == *self,
    {
        Employee {
            id: self.id.clone(),
            name: self.name.clone(),
            active: self.active,
            created_at: self.created_at,
            updated_at: self.updated_at,
        }
    }
}

/// One key/value configuration row.
#[derive(Debug)]
pub struct ConfigEntry {
    pub key: String,
    pub value: String,
}

impl Clone for ConfigEntry {
    fn clone(&self) -> (r: Self)
        ensures
            r == *self,
    {
        ConfigEntry { key: self.key.clone(), value: self.value.clone() }
    }
}

/// The optional filters shared by record listing and export. Every supplied
/// filter must hold of a record for it to pass; date bounds compare the date
/// component only and are inclusive on both ends.
#[derive(Debug)]
pub struct Filters {
    pub start_date: Option<Date>,
    pub end_date: Option<Date>,
    pub employee_id: Option<String>,
    pub record_type: Option<RecordType>,
}

impl Clone for Filters {
    fn clone(&self) -> (r: Self)
        ensures
            r == *self,
    {
        Filters {
            start_date: self.start_date,
            end_date: self.end_date,
            employee_id: match &self.employee_id {
                Some(e) => Some(e.clone()),
                None => None,
            },
            record_type: self.record_type,
        }
    }
}

/// Statistics over the records of a single calendar date.
#[derive(Debug)]
pub struct DailyStats {
    pub total_entries: u64,
    pub total_exits: u64,
    pub unique_employees_present: u64,
    pub last_activity: Option<AttendanceRecord>,
}

/// The domain errors of the store.
#[derive(Clone, Copy, PartialEq, Eq, Structural, Debug)]
pub enum AttendanceError {
    /// A required field is empty after trimming.
    InvalidInput,
    /// A partial update was asked for with no field supplied.
    NoFieldsProvided,
    /// No row matches the given id.
    NotFound,
    /// An employee with the given id already exists.
    DuplicateId,
    /// The administrative configuration row is absent.
    ConfigMissing,
}

impl AttendanceError {
    /// The human-readable message of this error kind.
    pub fn message(&self) -> (m: &'static str)
        ensures
            match *self {
                AttendanceError::InvalidInput => m@ == "a required field is empty"@,
                AttendanceError::NoFieldsProvided => m@ == "no fields to update"@,
                AttendanceError::NotFound => m@ == "record not found"@,
                AttendanceError::DuplicateId => m@ == "an employee with that id already exists"@,
                AttendanceError::ConfigMissing => m@ == "the configuration row is missing"@,
            },
    {
        match *self {
            AttendanceError::InvalidInput => "a required field is empty",
            AttendanceError::NoFieldsProvided => "no fields to update",
            AttendanceError::NotFound => "record not found",
            AttendanceError::DuplicateId => "an employee with that id already exists",
            AttendanceError::ConfigMissing => "the configuration row is missing",
        }
    }
}

} // verus!
