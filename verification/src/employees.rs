//! Employee identity management: create, partial update, delete, and listing
//! ordered by name.

use crate::filters::lemma_filter_push;
use crate::model::{AttendanceError, Employee};
use crate::sort::{sort_employees, sort_employees_asc};
use crate::store::{has_employee, Db};
use crate::text::{trim_str, trimmed};
use crate::time::{clock_now, Timestamp};
use vstd::prelude::*;

verus! {

/// The listing predicate: keep only active employees exactly when the caller
/// asked for that.
pub open spec fn employee_pred(active_only: Option<bool>) -> spec_fn(Employee) -> bool {
    |e: Employee|
        match active_only {
            Some(true) => e.active,
            _ => true,
        }
}

/// Employees listed for `active_only`: the kept employees ordered by name,
/// ascending.
pub open spec fn employees_view(emps: Seq<Employee>, active_only: Option<bool>) -> Seq<Employee> {
    sort_employees_asc(emps.filter(employee_pred(active_only)))
}

impl Db {
    /// The employees, ordered by name ascending; restricted to active ones
    /// when `active_only` is `Some(true)`.
    pub fn get_employees(&self, active_only: Option<bool>) -> (r: Vec<Employee>)
        ensures
            r@ == employees_view(self.employees@, active_only),
    {
        let keep_active_only = match active_only {
            Some(true) => true,
            _ => false,
        };
        let mut kept: Vec<Employee> = Vec::new();
        let mut i: usize = 0;
        while i < self.employees.len()
            invariant
                0 <= i <= self.employees@.len(),
                kept@ == self.employees@.take(i as int).filter(employee_pred(active_only)),
                keep_active_only == (active_only == Some(true)),
            decreases self.employees@.len() - i,
        {
            let passes = !keep_active_only || self.employees[i].active;
            if passes {
                kept.push(self.employees[i].clone());
            }
            proof {
                lemma_filter_push(
                    self.employees@.take(i as int),
                    employee_pred(active_only),
                    self.employees@[i as int],
                );
                assert(self.employees@.take(i as int).push(self.employees@[i as int])
                    =~= self.employees@.take(i + 1));
                if passes {
                    assert(kept@ =~= self.employees@.take(i as int).filter(
                        employee_pred(active_only),
                    ) + seq![self.employees@[i as int]]);
                }
            }
            i += 1;
        }
        proof {
            assert(self.employees@.take(self.employees@.len() as int) =~= self.employees@);
        }
        sort_employees(kept)
    }

    /// The index of the first employee whose id is exactly `id`, if any.
    fn find_employee_index(&self, id: &String) -> (r: Option<usize>)
        ensures
            match r {
                Some(j) => j < self.employees@.len() && self.employees@[j as int].id@ == id@,
                None => !has_employee(self.employees@, id@),
            },
    {
        let mut i: usize = 0;
        while i < self.employees.len()
            invariant
                0 <= i <= self.employees@.len(),
                forall|k: int| 0 <= k < i ==> (#[trigger] self.employees@[k]).id@ != id@,
            decreases self.employees@.len() - i,
        {
            if self.employees[i].id == *id {
                return Some(i);
            }
            i += 1;
        }
        None
    }

    /// Registers a new employee at time `now`. Both fields are trimmed; an
    /// empty trimmed field fails with `InvalidInput`, and a trimmed id that
    /// already exists fails with `DuplicateId`. Either failure leaves the
    /// store unchanged, so the employee already stored under that id keeps
    /// its name.
    pub fn create_employee_at(&mut self, id: String, name: String, now: Timestamp) -> (r: Result<
        (),
        AttendanceError,
    >)
        requires
            old(self).wf(),
        ensures
            final(self).wf(),
            final(self).attendance@ == old(self).attendance@,
            final(self).config@ == old(self).config@,
            final(self).next_id == old(self).next_id,
            match r {
                Ok(()) => trimmed(id@).len() > 0 && trimmed(name@).len() > 0 && !has_employee(
                    old(self).employees@,
                    trimmed(id@),
                ) && final(self).employees@.len() == old(self).employees@.len() + 1 && final(self).employees@.drop_last() == old(self).employees@ && {
                    let e = final(self).employees@.last();
                    &&& e.id@ == trimmed(id@)
                    &&& e.name@ == trimmed(name@)
                    &&& e.active == true
                    &&& e.created_at == now
                    &&& e.updated_at == now
                },
                Err(AttendanceError::InvalidInput) => (trimmed(id@).len() == 0 || trimmed(
                    name@,
                ).len() == 0) && final(self).employees@ == old(self).employees@,
                Err(AttendanceError::DuplicateId) => trimmed(id@).len() > 0 && trimmed(
                    name@,
                ).len() > 0 && has_employee(old(self).employees@, trimmed(id@)) && final(self).employees@ == old(self).employees@,
                Err(_) => false,
            },
    {
        let tid = trim_str(id.as_str());
        if tid.as_str().is_empty() {
            return Err(AttendanceError::InvalidInput);
        }
        let tname = trim_str(name.as_str());
        if tname.as_str().is_empty() {
            return Err(AttendanceError::InvalidInput);
        }
        match self.find_employee_index(&tid) {
            Some(_) => Err(AttendanceError::DuplicateId),
            None => {
                let e = Employee {
                    id: tid,
                    name: tname,
                    active: true,
                    created_at: now,
                    updated_at: now,
                };
                self.employees.push(e);
                proof {
                    assert(final(self).employees@.drop_last() =~= old(self).employees@);
                }
                Ok(())
            },
        }
    }

    /// Registers a new employee at the current local time.
    pub fn create_employee(&mut self, id: String, name: String) -> (r: Result<
        (),
        AttendanceError,
    >)
        requires
            old(self).wf(),
        ensures
            final(self).wf(),
            final(self).attendance@ == old(self).attendance@,
            final(self).config@ == old(self).config@,
            final(self).next_id == old(self).next_id,
            match r {
                Ok(()) => trimmed(id@).len() > 0 && trimmed(name@).len() > 0 && !has_employee(
                    old(self).employees@,
                    trimmed(id@),
                ) && final(self).employees@.len() == old(self).employees@.len() + 1 && final(self).employees@.drop_last() == old(self).employees@ && {
                    let e = final(self).employees@.last();
                    &&& e.id@ == trimmed(id@)
                    &&& e.name@ == trimmed(name@)
                    &&& e.active == true
                    &&& e.created_at == e.updated_at
                    &&& e.created_at.wf()
                },
                Err(AttendanceError::InvalidInput) => (trimmed(id@).len() == 0 || trimmed(
                    name@,
                ).len() == 0) && final(self).employees@ == old(self).employees@,
                Err(AttendanceError::DuplicateId) => trimmed(id@).len() > 0 && trimmed(
                    name@,
                ).len() > 0 && has_employee(old(self).employees@, trimmed(id@)) && final(self).employees@ == old(self).employees@,
                Err(_) => false,
            },
    {
        let now = clock_now();
        self.create_employee_at(id, name, now)
    }

    /// Partial update of one employee, matched by its exact (untrimmed) id:
    /// a supplied name is stored trimmed, a supplied activity flag replaces
    /// the old one, and the modification timestamp is refreshed to `now`.
    /// A supplied name that trims to nothing fails with `InvalidInput`; no
    /// supplied field fails with `NoFieldsProvided`; an unknown id fails
    /// with `NotFound`. Every failure leaves the store unchanged.
    pub fn update_employee_at(
        &mut self,
        id: String,
        name: Option<String>,
        active: Option<bool>,
        now: Timestamp,
    ) -> (r: Result<(), AttendanceError>)
        requires
            old(self).wf(),
        ensures
            final(self).wf(),
            final(self).attendance@ == old(self).attendance@,
            final(self).config@ == old(self).config@,
            final(self).next_id == old(self).next_id,
            match r {
                Ok(()) => (name is Some || active is Some) && (name matches Some(n) ==> trimmed(
                    n@,
                ).len() > 0) && exists|j: int|
                    0 <= j < old(self).employees@.len() && (#[trigger] old(self).employees@[j]).id@ == id@ && final(self).employees@.len() == old(self).employees@.len() && (forall|k: int|
                        0 <= k < old(self).employees@.len() && k != j ==> final(self).employees@[k] == old(self).employees@[k]) && {
                        let e0 = old(self).employees@[j];
                        let e1 = final(self).employees@[j];
                        &&& e1.id == e0.id
                        &&& e1.name@ == (match name {
                            Some(n) => trimmed(n@),
                            None => e0.name@,
                        })
                        &&& e1.active == (match active {
                            Some(a) => a,
                            None => e0.active,
                        })
                        &&& e1.created_at == e0.created_at
                        &&& e1.updated_at == now
                    },
                Err(AttendanceError::InvalidInput) => (name matches Some(n) && trimmed(n@).len()
                    == 0) && final(self).employees@ == old(self).employees@,
                Err(AttendanceError::NoFieldsProvided) => name is None && active is None && final(self).employees@ == old(self).employees@,
                Err(AttendanceError::NotFound) => (name is Some || active is Some) && (
                name matches Some(n) ==> trimmed(n@).len() > 0) && !has_employee(
                    old(self).employees@,
                    id@,
                ) && final(self).employees@ == old(self).employees@,
                Err(_) => false,
            },
    {
        let tname: Option<String> = match &name {
            Some(n) => {
                let t = trim_str(n.as_str());
                if t.as_str().is_empty() {
                    return Err(AttendanceError::InvalidInput);
                }
                Some(t)
            },
            None => None,
        };
        if tname.is_none() && active.is_none() {
            return Err(AttendanceError::NoFieldsProvided);
        }
        match self.find_employee_index(&id) {
            None => Err(AttendanceError::NotFound),
            Some(j) => {
                let prev = self.employees.remove(j);
                let next = Employee {
                    id: prev.id,
                    name: match tname {
                        Some(t) => t,
                        None => prev.name,
                    },
                    active: match active {
                        Some(a) => a,
                        None => prev.active,
                    },
                    created_at: prev.created_at,
                    updated_at: now,
                };
                self.employees.insert(j, next);
                proof {
                    let pre = old(self).employees@;
                    assert(pre.remove(j as int).insert(j as int, next) =~= pre.update(
                        j as int,
                        next,
                    ));
                    assert forall|k: int|
                        0 <= k < final(self).employees@.len() implies (#[trigger] final(self).employees@[k]).id@ == pre[k].id@ by {}
                }
                Ok(())
            },
        }
    }

    /// Partial update of one employee, stamped with the current local time.
    pub fn update_employee(&mut self, id: String, name: Option<String>, active: Option<bool>) -> (r:
        Result<(), AttendanceError>)
        requires
            old(self).wf(),
        ensures
            final(self).wf(),
            final(self).attendance@ == old(self).attendance@,
            final(self).config@ == old(self).config@,
            final(self).next_id == old(self).next_id,
            match r {
                Ok(()) => (name is Some || active is Some) && (name matches Some(n) ==> trimmed(
                    n@,
                ).len() > 0) && exists|j: int|
                    0 <= j < old(self).employees@.len() && (#[trigger] old(self).employees@[j]).id@ == id@ && final(self).employees@.len() == old(self).employees@.len() && (forall|k: int|
                        0 <= k < old(self).employees@.len() && k != j ==> final(self).employees@[k] == old(self).employees@[k]) && {
                        let e0 = old(self).employees@[j];
                        let e1 = final(self).employees@[j];
                        &&& e1.id == e0.id
                        &&& e1.name@ == (match name {
                            Some(n) => trimmed(n@),
                            None => e0.name@,
                        })
                        &&& e1.active == (match active {
                            Some(a) => a,
                            None => e0.active,
                        })
                        &&& e1.created_at == e0.created_at
                        &&& e1.updated_at.wf()
                    },
                Err(AttendanceError::InvalidInput) => (name matches Some(n) && trimmed(n@).len()
                    == 0) && final(self).employees@ == old(self).employees@,
                Err(AttendanceError::NoFieldsProvided) => name is None && active is None && final(self).employees@ == old(self).employees@,
                Err(AttendanceError::NotFound) => (name is Some || active is Some) && (
                name matches Some(n) ==> trimmed(n@).len() > 0) && !has_employee(
                    old(self).employees@,
                    id@,
                ) && final(self).employees@ == old(self).employees@,
                Err(_) => false,
            },
    {
        let now = clock_now();
        self.update_employee_at(id, name, active, now)
    }

    /// Hard-deletes one employee, matched by its exact id; attendance records
    /// that reference it are kept untouched. Fails with `NotFound`, leaving
    /// the store unchanged, when no employee has that id.
    pub fn delete_employee(&mut self, id: String) -> (r: Result<(), AttendanceError>)
        requires
            old(self).wf(),
        ensures
            final(self).wf(),
            final(self).attendance@ == old(self).attendance@,
            final(self).config@ == old(self).config@,
            final(self).next_id == old(self).next_id,
            match r {
                Ok(()) => exists|j: int|
                    0 <= j < old(self).employees@.len() && (#[trigger] old(self).employees@[j]).id@ == id@ && final(self).employees@ == old(self).employees@.remove(j),
                Err(AttendanceError::NotFound) => !has_employee(old(self).employees@, id@) && final(self).employees@ == old(self).employees@,
                Err(_) => false,
            },
    {
        match self.find_employee_index(&id) {
            None => Err(AttendanceError::NotFound),
            Some(j) => {
                self.employees.remove(j);
                proof {
                    let pre = old(self).employees@;
                    assert forall|k: int|
                        0 <= k < final(self).employees@.len() implies (#[trigger] final(self).employees@[k]).id@ == pre[if k < j { k } else { k + 1 }].id@ by {
                        assert(pre.remove(j as int)[k] == pre[if k < j {
                            k
                        } else {
                            k + 1
                        }]);
                    }
                }
                Ok(())
            },
        }
    }
}

} // verus!
