//! The attendance store: an in-memory ledger of attendance events, employees
//! and configuration rows behind one value, with every operation specified.
//! Callers serialise access (one operation at a time) and persist the store
//! as they see fit.

use crate::filters::{filter_pred, filtered_records, lemma_filter_push, record_matches};
use crate::model::{AttendanceError, AttendanceRecord, ConfigEntry, Employee, Filters, RecordType};
use crate::sort::{sort_records, sort_records_desc};
use crate::time::{clock_now, Timestamp};
use vstd::prelude::*;
use vstd::string::StringExecFns;

verus! {

/// The key of the administrative passphrase row.
pub open spec fn admin_key() -> Seq<char> {
    "admin_password"@
}

/// The passphrase seeded at first initialization.
pub open spec fn default_password() -> Seq<char> {
    "0824"@
}

/// The legacy default that the one-shot migration replaces.
pub open spec fn legacy_password() -> Seq<char> {
    "1234"@
}

/// The configuration rows as plain key/value pairs of characters.
pub open spec fn config_model(cfg: Seq<ConfigEntry>) -> Seq<(Seq<char>, Seq<char>)> {
    cfg.map(|i: int, e: ConfigEntry| (e.key@, e.value@))
}

/// Whether some row of `m` has key `k`.
pub open spec fn model_has_key(m: Seq<(Seq<char>, Seq<char>)>, k: Seq<char>) -> bool {
    exists|i: int| 0 <= i < m.len() && (#[trigger] m[i]).0 == k
}

/// `m` with the administrative row appended if absent.
pub open spec fn seeded_config(m: Seq<(Seq<char>, Seq<char>)>) -> Seq<(Seq<char>, Seq<char>)> {
    if model_has_key(m, admin_key()) {
        m
    } else {
        m.push((admin_key(), default_password()))
    }
}

/// `m` with the legacy administrative default replaced by the current one.
pub open spec fn migrated_config(m: Seq<(Seq<char>, Seq<char>)>) -> Seq<(Seq<char>, Seq<char>)> {
    m.map(
        |i: int, kv: (Seq<char>, Seq<char>)|
            if kv.0 == admin_key() && kv.1 == legacy_password() {
                (kv.0, default_password())
            } else {
                kv
            },
    )
}

/// What initialization does to the configuration rows: seed the
/// administrative row if absent, then migrate the legacy default.
pub open spec fn init_config(m: Seq<(Seq<char>, Seq<char>)>) -> Seq<(Seq<char>, Seq<char>)> {
    migrated_config(seeded_config(m))
}

/// The value of the first row of `cfg` with key `key`, if any.
pub open spec fn config_value_of(cfg: Seq<ConfigEntry>, key: Seq<char>) -> Option<Seq<char>>
    decreases cfg.len(),
{
    if cfg.len() == 0 {
        None
    } else if cfg[0].key@ == key {
        Some(cfg[0].value@)
    } else {
        config_value_of(cfg.drop_first(), key)
    }
}

proof fn lemma_config_value_skip(cfg: Seq<ConfigEntry>, key: Seq<char>, i: int)
    requires
        0 <= i <= cfg.len(),
        forall|k: int| 0 <= k < i ==> (#[trigger] cfg[k]).key@ != key,
    ensures
        config_value_of(cfg, key) == config_value_of(cfg.skip(i), key),
    decreases i,
{
    if i == 0 {
        assert(cfg.skip(0) =~= cfg);
    } else {
        lemma_config_value_skip(cfg.drop_first(), key, i - 1);
        assert(cfg.drop_first().skip(i - 1) =~= cfg.skip(i));
    }
}

/// The name of the first employee of `emps` whose id is `eid`, if any.
pub open spec fn emp_name_for(emps: Seq<Employee>, eid: Seq<char>) -> Option<Seq<char>>
    decreases emps.len(),
{
    if emps.len() == 0 {
        None
    } else if emps[0].id@ == eid {
        Some(emps[0].name@)
    } else {
        emp_name_for(emps.drop_first(), eid)
    }
}

proof fn lemma_emp_name_skip(emps: Seq<Employee>, eid: Seq<char>, i: int)
    requires
        0 <= i <= emps.len(),
        forall|k: int| 0 <= k < i ==> (#[trigger] emps[k]).id@ != eid,
    ensures
        emp_name_for(emps, eid) == emp_name_for(emps.skip(i), eid),
    decreases i,
{
    if i == 0 {
        assert(emps.skip(0) =~= emps);
    } else {
        lemma_emp_name_skip(emps.drop_first(), eid, i - 1);
        assert(emps.drop_first().skip(i - 1) =~= emps.skip(i));
    }
}

/// Whether some employee of `emps` has id `eid`.
pub open spec fn has_employee(emps: Seq<Employee>, eid: Seq<char>) -> bool {
    exists|i: int| 0 <= i < emps.len() && (#[trigger] emps[i]).id@ == eid
}

/// Whether some record of `att` has id `id`.
pub open spec fn has_record(att: Seq<AttendanceRecord>, id: i64) -> bool {
    exists|i: int| 0 <= i < att.len() && (#[trigger] att[i]).id == id
}

/// The display name an event snapshot gets: the caller's, else the stored
/// name of the employee, else a synthesized fallback label.
pub open spec fn resolved_name(
    emps: Seq<Employee>,
    eid: Seq<char>,
    given: Option<Seq<char>>,
) -> Seq<char> {
    match given {
        Some(n) => n,
        None => match emp_name_for(emps, eid) {
            Some(n) => n,
            None => "Employee "@ + eid,
        },
    }
}

/// Records listed for filter set `f`: the passing records, newest first.
pub open spec fn records_view(att: Seq<AttendanceRecord>, f: Filters) -> Seq<AttendanceRecord> {
    sort_records_desc(filtered_records(att, f))
}

/// The attendance ledger. `next_id` is the id the next event will get.
pub struct Db {
    pub attendance: Vec<AttendanceRecord>,
    pub employees: Vec<Employee>,
    pub config: Vec<ConfigEntry>,
    pub next_id: i64,
}

/// What holds of a freshly inserted event: appended at the end, fresh id,
/// resolved display name, both bookkeeping timestamps set to `now`.
pub open spec fn event_inserted(
    pre: Db,
    post: Db,
    eid: Seq<char>,
    given: Option<Seq<char>>,
    rt: RecordType,
    now: Timestamp,
) -> bool {
    &&& post.attendance@.len() == pre.attendance@.len() + 1
    &&& post.attendance@.drop_last() == pre.attendance@
    &&& {
        let r = post.attendance@.last();
        &&& r.id == pre.next_id
        &&& r.employee_id@ == eid
        &&& r.employee_name.deep_view() == Some(resolved_name(pre.employees@, eid, given))
        &&& r.timestamp == now
        &&& r.record_type == rt
        &&& r.notes is None
        &&& r.created_at == now
        &&& r.updated_at == now
    }
    &&& post.employees@ == pre.employees@
    &&& post.config@ == pre.config@
    &&& post.next_id == pre.next_id + 1
}

/// A record after a partial update: the supplied fields replaced, the
/// modification timestamp refreshed, everything else untouched.
pub open spec fn updated_record(
    r: AttendanceRecord,
    timestamp: Option<Timestamp>,
    record_type: Option<RecordType>,
    notes: Option<String>,
    now: Timestamp,
) -> AttendanceRecord {
    AttendanceRecord {
        id: r.id,
        employee_id: r.employee_id,
        employee_name: r.employee_name,
        timestamp: match timestamp {
            Some(t) => t,
            None => r.timestamp,
        },
        record_type: match record_type {
            Some(t) => t,
            None => r.record_type,
        },
        notes: match notes {
            Some(n) => Some(n),
            None => r.notes,
        },
        created_at: r.created_at,
        updated_at: now,
    }
}

impl Db {
    /// Internal invariant: record ids are positive, below `next_id` and
    /// distinct; employee ids and configuration keys are distinct.
    pub open spec fn wf(self) -> bool {
        &&& 1 <= self.next_id
        &&& forall|i: int|
            0 <= i < self.attendance@.len() ==> 1 <= (#[trigger] self.attendance@[i]).id
                < self.next_id
        &&& forall|i: int, j: int|
            0 <= i < j < self.attendance@.len() ==> (#[trigger] self.attendance@[i]).id != (
            #[trigger] self.attendance@[j]).id
        &&& forall|i: int, j: int|
            0 <= i < j < self.employees@.len() ==> (#[trigger] self.employees@[i]).id@ != (
            #[trigger] self.employees@[j]).id@
        &&& forall|i: int, j: int|
            0 <= i < j < self.config@.len() ==> (#[trigger] self.config@[i]).key@ != (
            #[trigger] self.config@[j]).key@
    }

    /// An empty ledger.
    pub fn new() -> (db: Db)
        ensures
            db.wf(),
            db.attendance@.len() == 0,
            db.employees@.len() == 0,
            db.config@.len() == 0,
            db.next_id == 1,
    {
        Db { attendance: Vec::new(), employees: Vec::new(), config: Vec::new(), next_id: 1 }
    }

    /// Idempotent schema initialization: seeds the administrative passphrase
    /// row if it is absent and replaces the legacy default value, leaving
    /// records, employees and every other row untouched. Never fails, and a
    /// repeated invocation changes nothing further.
    pub fn init_database(&mut self)
        requires
            old(self).wf(),
        ensures
            final(self).wf(),
            config_model(final(self).config@) == init_config(config_model(old(self).config@)),
            final(self).attendance@ == old(self).attendance@,
            final(self).employees@ == old(self).employees@,
            final(self).next_id == old(self).next_id,
    {
        let admin: String = "admin_password".to_owned();
        let ghost m0 = config_model(self.config@);

        let mut found = false;
        let mut i: usize = 0;
        while i < self.config.len()
            invariant
                0 <= i <= self.config@.len(),
                found <==> exists|k: int|
                    0 <= k < i && (#[trigger] self.config@[k]).key@ == admin_key(),
                admin@ == admin_key(),
                *self == *old(self),
            decreases self.config@.len() - i,
        {
            if self.config[i].key == admin {
                found = true;
            }
            i += 1;
        }
        proof {
            assert forall|k: int|
                0 <= k < m0.len() implies (#[trigger] m0[k]).0 == self.config@[k].key@ by {}
            if found {
                let k = choose|k: int|
                    0 <= k < self.config@.len() && (#[trigger] self.config@[k]).key@ == admin_key();
                assert(m0[k].0 == admin_key());
                assert(model_has_key(m0, admin_key()));
            } else {
                if model_has_key(m0, admin_key()) {
                    let k = choose|k: int| 0 <= k < m0.len() && (#[trigger] m0[k]).0 == admin_key();
                    assert(self.config@[k].key@ == admin_key());
                }
            }
        }
        if !found {
            let entry = ConfigEntry { key: admin, value: "0824".to_owned() };
            self.config.push(entry);
            proof {
                assert(config_model(self.config@) =~= seeded_config(m0));
                assert forall|a: int, b: int|
                    0 <= a < b < self.config@.len() implies (#[trigger] self.config@[a]).key@ != (
                #[trigger] self.config@[b]).key@ by {
                    if b == self.config@.len() - 1 {
                        assert(old(self).config@[a].key@ != admin_key());
                    }
                }
            }
        } else {
            proof {
                assert(config_model(self.config@) =~= seeded_config(m0));
            }
        }

        let ghost base = self.config@;
        let ghost others = *self;
        let legacy: String = "1234".to_owned();
        let admin2: String = "admin_password".to_owned();
        let mut j: usize = 0;
        while j < self.config.len()
            invariant
                0 <= j <= base.len(),
                self.config@.len() == base.len(),
                forall|k: int| j <= k < base.len() ==> self.config@[k] == base[k],
                forall|k: int|
                    0 <= k < j ==> (#[trigger] self.config@[k]).key@ == base[k].key@
                        && self.config@[k].value@ == (if base[k].key@ == admin_key()
                        && base[k].value@ == legacy_password() {
                        default_password()
                    } else {
                        base[k].value@
                    }),
                legacy@ == legacy_password(),
                admin2@ == admin_key(),
                self.attendance@ == others.attendance@,
                self.employees@ == others.employees@,
                self.next_id == others.next_id,
            decreases base.len() - j,
        {
            if self.config[j].key == admin2 && self.config[j].value == legacy {
                let e = self.config.remove(j);
                let e2 = ConfigEntry { key: e.key, value: "0824".to_owned() };
                self.config.insert(j, e2);
                proof {
                    assert(base.remove(j as int).insert(j as int, e2) =~= base.update(
                        j as int,
                        e2,
                    ));
                }
            }
            j += 1;
        }
        proof {
            assert(config_model(self.config@) =~= migrated_config(config_model(base)));
            assert(config_model(self.config@) =~= init_config(m0));
            assert forall|a: int, b: int|
                0 <= a < b < self.config@.len() implies (#[trigger] self.config@[a]).key@ != (
            #[trigger] self.config@[b]).key@ by {
                assert(self.config@[a].key@ == base[a].key@);
                assert(self.config@[b].key@ == base[b].key@);
            }
        }
    }

    /// The name of the first employee with the given id, if one exists.
    fn find_employee_name(&self, employee_id: &String) -> (r: Option<String>)
        ensures
            r.deep_view() == emp_name_for(self.employees@, employee_id@),
    {
        let mut i: usize = 0;
        while i < self.employees.len()
            invariant
                0 <= i <= self.employees@.len(),
                forall|k: int| 0 <= k < i ==> (#[trigger] self.employees@[k]).id@ != employee_id@,
            decreases self.employees@.len() - i,
        {
            if self.employees[i].id == *employee_id {
                proof {
                    lemma_emp_name_skip(self.employees@, employee_id@, i as int);
                    assert(self.employees@.skip(i as int)[0] == self.employees@[i as int]);
                }
                return Some(self.employees[i].name.clone());
            }
            i += 1;
        }
        proof {
            lemma_emp_name_skip(self.employees@, employee_id@, i as int);
            assert(self.employees@.skip(i as int).len() == 0);
        }
        None
    }

    /// Inserts one attendance event, resolving the display name.
    fn insert_event(
        &mut self,
        employee_id: String,
        employee_name: Option<String>,
        rt: RecordType,
        now: Timestamp,
    ) -> (id: i64)
        requires
            old(self).wf(),
            old(self).next_id < i64::MAX,
        ensures
            final(self).wf(),
            id == old(self).next_id,
            event_inserted(
                *old(self),
                *final(self),
                employee_id@,
                employee_name.deep_view(),
                rt,
                now,
            ),
    {
        let name: String = match employee_name {
            Some(n) => n,
            None => match self.find_employee_name(&employee_id) {
                Some(n) => n,
                None => "Employee ".to_owned().concat(employee_id.as_str()),
            },
        };
        let id = self.next_id;
        let rec = AttendanceRecord {
            id,
            employee_id,
            employee_name: Some(name),
            timestamp: now,
            record_type: rt,
            notes: None,
            created_at: now,
            updated_at: now,
        };
        self.attendance.push(rec);
        self.next_id = self.next_id + 1;
        proof {
            assert(self.attendance@.drop_last() =~= old(self).attendance@);
        }
        id
    }

    /// Registers an entry event at time `now`. The display name falls back to
    /// the stored employee name, then to a synthesized label. Returns the id
    /// the event got.
    pub fn check_in_at(
        &mut self,
        employee_id: String,
        employee_name: Option<String>,
        now: Timestamp,
    ) -> (id: i64)
        requires
            old(self).wf(),
            old(self).next_id < i64::MAX,
        ensures
            final(self).wf(),
            id == old(self).next_id,
            event_inserted(
                *old(self),
                *final(self),
                employee_id@,
                employee_name.deep_view(),
                RecordType::Entry,
                now,
            ),
    {
        self.insert_event(employee_id, employee_name, RecordType::Entry, now)
    }

    /// Registers an exit event at time `now`; otherwise as `check_in_at`.
    pub fn check_out_at(
        &mut self,
        employee_id: String,
        employee_name: Option<String>,
        now: Timestamp,
    ) -> (id: i64)
        requires
            old(self).wf(),
            old(self).next_id < i64::MAX,
        ensures
            final(self).wf(),
            id == old(self).next_id,
            event_inserted(
                *old(self),
                *final(self),
                employee_id@,
                employee_name.deep_view(),
                RecordType::Exit,
                now,
            ),
    {
        self.insert_event(employee_id, employee_name, RecordType::Exit, now)
    }

    /// Registers an entry event at the current local time.
    pub fn check_in(&mut self, employee_id: String, employee_name: Option<String>) -> (id: i64)
        requires
            old(self).wf(),
            old(self).next_id < i64::MAX,
        ensures
            final(self).wf(),
            id == old(self).next_id,
            exists|now: Timestamp|
                now.wf() && event_inserted(
                    *old(self),
                    *final(self),
                    employee_id@,
                    employee_name.deep_view(),
                    RecordType::Entry,
                    now,
                ),
    {
        let now = clock_now();
        self.insert_event(employee_id, employee_name, RecordType::Entry, now)
    }

    /// Registers an exit event at the current local time.
    pub fn check_out(&mut self, employee_id: String, employee_name: Option<String>) -> (id: i64)
        requires
            old(self).wf(),
            old(self).next_id < i64::MAX,
        ensures
            final(self).wf(),
            id == old(self).next_id,
            exists|now: Timestamp|
                now.wf() && event_inserted(
                    *old(self),
                    *final(self),
                    employee_id@,
                    employee_name.deep_view(),
                    RecordType::Exit,
                    now,
                ),
    {
        let now = clock_now();
        self.insert_event(employee_id, employee_name, RecordType::Exit, now)
    }

    /// The records that pass `f`, ordered by timestamp, newest first.
    pub fn get_records(&self, f: &Filters) -> (r: Vec<AttendanceRecord>)
        ensures
            r@ == records_view(self.attendance@, *f),
    {
        let mut kept: Vec<AttendanceRecord> = Vec::new();
        let mut i: usize = 0;
        while i < self.attendance.len()
            invariant
                0 <= i <= self.attendance@.len(),
                kept@ == filtered_records(self.attendance@.take(i as int), *f),
            decreases self.attendance@.len() - i,
        {
            let passes = record_matches(&self.attendance[i], f);
            if passes {
                kept.push(self.attendance[i].clone());
            }
            proof {
                lemma_filter_push(
                    self.attendance@.take(i as int),
                    filter_pred(*f),
                    self.attendance@[i as int],
                );
                assert(self.attendance@.take(i as int).push(self.attendance@[i as int])
                    =~= self.attendance@.take(i + 1));
                if passes {
                    assert(kept@ =~= filtered_records(self.attendance@.take(i as int), *f)
                        + seq![self.attendance@[i as int]]);
                }
            }
            i += 1;
        }
        proof {
            assert(self.attendance@.take(self.attendance@.len() as int) =~= self.attendance@);
        }
        sort_records(kept)
    }

    /// The record set handed to the export collaborator: exactly what
    /// `get_records` returns for the same filter set, in the same order.
    pub fn export_records(&self, f: &Filters) -> (r: Vec<AttendanceRecord>)
        ensures
            r@ == records_view(self.attendance@, *f),
    {
        self.get_records(f)
    }

    /// The index of the record with id `id`, if one exists.
    fn find_record_index(&self, id: i64) -> (r: Option<usize>)
        ensures
            match r {
                Some(j) => j < self.attendance@.len() && self.attendance@[j as int].id == id,
                None => !has_record(self.attendance@, id),
            },
    {
        let mut i: usize = 0;
        while i < self.attendance.len()
            invariant
                0 <= i <= self.attendance@.len(),
                forall|k: int| 0 <= k < i ==> (#[trigger] self.attendance@[k]).id != id,
            decreases self.attendance@.len() - i,
        {
            if self.attendance[i].id == id {
                return Some(i);
            }
            i += 1;
        }
        None
    }

    /// Partial update of one record: only the supplied fields change, and the
    /// modification timestamp is refreshed to `now`. Fails with
    /// `NoFieldsProvided` when no optional field is supplied, and with
    /// `NotFound` when no record has id `id`; either failure leaves the
    /// store unchanged.
    pub fn update_record_at(
        &mut self,
        id: i64,
        timestamp: Option<Timestamp>,
        record_type: Option<RecordType>,
        notes: Option<String>,
        now: Timestamp,
    ) -> (r: Result<(), AttendanceError>)
        requires
            old(self).wf(),
        ensures
            final(self).wf(),
            final(self).employees@ == old(self).employees@,
            final(self).config@ == old(self).config@,
            final(self).next_id == old(self).next_id,
            match r {
                Ok(()) => (timestamp is Some || record_type is Some || notes is Some)
                    && exists|j: int|
                    0 <= j < old(self).attendance@.len() && (#[trigger] old(self).attendance@[j]).id == id && final(self).attendance@ == old(self).attendance@.update(
                        j,
                        updated_record(
                            old(self).attendance@[j],
                            timestamp,
                            record_type,
                            notes,
                            now,
                        ),
                    ),
                Err(AttendanceError::NoFieldsProvided) => timestamp is None && record_type is None
                    && notes is None && final(self).attendance@ == old(self).attendance@,
                Err(AttendanceError::NotFound) => (timestamp is Some || record_type is Some
                    || notes is Some) && !has_record(old(self).attendance@, id) && final(self).attendance@ == old(self).attendance@,
                Err(_) => false,
            },
    {
        if timestamp.is_none() && record_type.is_none() && notes.is_none() {
            return Err(AttendanceError::NoFieldsProvided);
        }
        match self.find_record_index(id) {
            None => Err(AttendanceError::NotFound),
            Some(j) => {
                let prev = self.attendance.remove(j);
                let next = AttendanceRecord {
                    id: prev.id,
                    employee_id: prev.employee_id,
                    employee_name: prev.employee_name,
                    timestamp: match timestamp {
                        Some(t) => t,
                        None => prev.timestamp,
                    },
                    record_type: match record_type {
                        Some(t) => t,
                        None => prev.record_type,
                    },
                    notes: match notes {
                        Some(n) => Some(n),
                        None => prev.notes,
                    },
                    created_at: prev.created_at,
                    updated_at: now,
                };
                self.attendance.insert(j, next);
                proof {
                    let pre = old(self).attendance@;
                    assert(pre.remove(j as int).insert(j as int, next) =~= pre.update(
                        j as int,
                        next,
                    ));
                    assert forall|k: int|
                        0 <= k < final(self).attendance@.len() implies (#[trigger] final(self).attendance@[k]).id == pre[k].id by {}
                }
                Ok(())
            },
        }
    }

    /// Partial update of one record, stamped with the current local time.
    pub fn update_record(
        &mut self,
        id: i64,
        timestamp: Option<Timestamp>,
        record_type: Option<RecordType>,
        notes: Option<String>,
    ) -> (r: Result<(), AttendanceError>)
        requires
            old(self).wf(),
        ensures
            final(self).wf(),
            final(self).employees@ == old(self).employees@,
            final(self).config@ == old(self).config@,
            final(self).next_id == old(self).next_id,
            match r {
                Ok(()) => (timestamp is Some || record_type is Some || notes is Some)
                    && exists|j: int, now: Timestamp|
                    0 <= j < old(self).attendance@.len() && now.wf() && old(
                        self,
                    ).attendance@[j].id == id && final(self).attendance@ == old(
                        self,
                    ).attendance@.update(
                        j,
                        #[trigger] updated_record(
                            old(self).attendance@[j],
                            timestamp,
                            record_type,
                            notes,
                            now,
                        ),
                    ),
                Err(AttendanceError::NoFieldsProvided) => timestamp is None && record_type is None
                    && notes is None && final(self).attendance@ == old(self).attendance@,
                Err(AttendanceError::NotFound) => (timestamp is Some || record_type is Some
                    || notes is Some) && !has_record(old(self).attendance@, id) && final(self).attendance@ == old(self).attendance@,
                Err(_) => false,
            },
    {
        let now = clock_now();
        self.update_record_at(id, timestamp, record_type, notes, now)
    }

    /// Hard-deletes one record. Fails with `NotFound`, leaving the store
    /// unchanged, when no record has id `id`.
    pub fn delete_record(&mut self, id: i64) -> (r: Result<(), AttendanceError>)
        requires
            old(self).wf(),
        ensures
            final(self).wf(),
            final(self).employees@ == old(self).employees@,
            final(self).config@ == old(self).config@,
            final(self).next_id == old(self).next_id,
            match r {
                Ok(()) => exists|j: int|
                    0 <= j < old(self).attendance@.len() && (#[trigger] old(self).attendance@[j]).id == id && final(self).attendance@ == old(self).attendance@.remove(j),
                Err(AttendanceError::NotFound) => !has_record(old(self).attendance@, id) && final(self).attendance@ == old(self).attendance@,
                Err(_) => false,
            },
    {
        match self.find_record_index(id) {
            None => Err(AttendanceError::NotFound),
            Some(j) => {
                self.attendance.remove(j);
                proof {
                    let pre = old(self).attendance@;
                    assert forall|k: int|
                        0 <= k < final(self).attendance@.len() implies (#[trigger] final(self).attendance@[k]).id == pre[if k < j { k } else { k + 1 }].id by {
                        assert(pre.remove(j as int)[k] == pre[if k < j {
                            k
                        } else {
                            k + 1
                        }]);
                    }
                }
                Ok(())
            },
        }
    }

    /// Whether `candidate` equals the stored administrative passphrase,
    /// compared exactly. Fails with `ConfigMissing` when the administrative
    /// row is absent.
    pub fn verify_admin_password(&self, candidate: &str) -> (r: Result<bool, AttendanceError>)
        ensures
            match config_value_of(self.config@, admin_key()) {
                Some(v) => r == Ok::<bool, AttendanceError>(v == candidate@),
                None => r == Err::<bool, AttendanceError>(AttendanceError::ConfigMissing),
            },
    {
        let admin: String = "admin_password".to_owned();
        let cand: String = candidate.to_owned();
        let mut i: usize = 0;
        while i < self.config.len()
            invariant
                0 <= i <= self.config@.len(),
                forall|k: int| 0 <= k < i ==> (#[trigger] self.config@[k]).key@ != admin_key(),
                admin@ == admin_key(),
                cand@ == candidate@,
            decreases self.config@.len() - i,
        {
            if self.config[i].key == admin {
                proof {
                    lemma_config_value_skip(self.config@, admin_key(), i as int);
                    assert(self.config@.skip(i as int)[0] == self.config@[i as int]);
                }
                return Ok(self.config[i].value == cand);
            }
            i += 1;
        }
        proof {
            lemma_config_value_skip(self.config@, admin_key(), i as int);
            assert(self.config@.skip(i as int).len() == 0);
        }
        Err(AttendanceError::ConfigMissing)
    }
}

} // verus!
