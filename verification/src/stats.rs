//! Daily presence statistics, recomputed from scratch over the records of one
//! calendar date: entry and exit counts, the set of employees currently
//! present (an entry today with no exit today), and the most recent record.

use crate::filters::{day_filters, lemma_filter_push};
use crate::model::{AttendanceRecord, DailyStats, Filters, RecordType};
use crate::store::{records_view, Db};
use crate::time::{clock_now, Date};
use vstd::prelude::*;

verus! {

/// Whether the date component of `r`'s timestamp is `d`.
pub open spec fn on_date(r: AttendanceRecord, d: Date) -> bool {
    r.timestamp.date.key() == d.key()
}

/// The predicate keeping events of kind `rt` dated `d`.
pub open spec fn type_pred(rt: RecordType, d: Date) -> spec_fn(AttendanceRecord) -> bool {
    |r: AttendanceRecord| r.record_type == rt && on_date(r, d)
}

/// The predicate keeping the events of kind `rt` for employee `eid` dated `d`.
pub open spec fn employee_event_pred(eid: Seq<char>, rt: RecordType, d: Date) -> spec_fn(
    AttendanceRecord,
) -> bool {
    |r: AttendanceRecord| r.employee_id@ == eid && r.record_type == rt && on_date(r, d)
}

/// Whether `att` holds an entry event for employee `eid` dated `d`.
pub open spec fn has_entry_on(att: Seq<AttendanceRecord>, d: Date, eid: Seq<char>) -> bool {
    exists|i: int|
        0 <= i < att.len() && (#[trigger] att[i]).employee_id@ == eid && att[i].record_type
            == RecordType::Entry && on_date(att[i], d)
}

/// Whether `att` holds an exit event for employee `eid` dated `d`.
pub open spec fn has_exit_on(att: Seq<AttendanceRecord>, d: Date, eid: Seq<char>) -> bool {
    exists|i: int|
        0 <= i < att.len() && (#[trigger] att[i]).employee_id@ == eid && att[i].record_type
            == RecordType::Exit && on_date(att[i], d)
}

/// The employees currently present on date `d`: those with an entry dated `d`
/// and no exit dated `d`.
pub open spec fn present_set(att: Seq<AttendanceRecord>, d: Date) -> Set<Seq<char>> {
    Set::new(|eid: Seq<char>| has_entry_on(att, d, eid) && !has_exit_on(att, d, eid))
}

/// What the daily statistics say about the ledger `att` on date `d`: the two
/// counts, the size of the presence set, and the newest record of the date —
/// the head of what listing the records of `d` returns.
pub open spec fn daily_stats_on(att: Seq<AttendanceRecord>, d: Date, s: DailyStats) -> bool {
    &&& s.total_entries == att.filter(type_pred(RecordType::Entry, d)).len()
    &&& s.total_exits == att.filter(type_pred(RecordType::Exit, d)).len()
    &&& s.unique_employees_present == present_set(att, d).len()
    &&& match s.last_activity {
        None => records_view(att, day_filters(d)).len() == 0,
        Some(r) => records_view(att, day_filters(d)).len() > 0 && r == records_view(
            att,
            day_filters(d),
        )[0],
    }
}

fn vec_contains_id(v: &Vec<String>, x: &String) -> (b: bool)
    ensures
        b == v.deep_view().contains(x@),
{
    let mut i: usize = 0;
    while i < v.len()
        invariant
            0 <= i <= v@.len(),
            forall|k: int| 0 <= k < i ==> (#[trigger] v@[k])@ != x@,
        decreases v@.len() - i,
    {
        if v[i] == *x {
            proof {
                assert(v.deep_view()[i as int] == x@);
            }
            return true;
        }
        i += 1;
    }
    proof {
        if v.deep_view().contains(x@) {
            let k = choose|k: int| 0 <= k < v.deep_view().len() && v.deep_view()[k] == x@;
            assert(v@[k]@ == x@);
        }
    }
    false
}

impl Db {
    fn count_events_on(&self, rt: RecordType, d: Date) -> (n: u64)
        ensures
            n == self.attendance@.filter(type_pred(rt, d)).len(),
    {
        let att = &self.attendance;
        let mut n: u64 = 0;
        let mut i: usize = 0;
        while i < att.len()
            invariant
                0 <= i <= att@.len(),
                n <= i,
                n == att@.take(i as int).filter(type_pred(rt, d)).len(),
            decreases att@.len() - i,
        {
            let hit = att[i].record_type == rt && att[i].timestamp.date.key_u64() == d.key_u64();
            proof {
                lemma_filter_push(att@.take(i as int), type_pred(rt, d), att@[i as int]);
                assert(att@.take(i as int).push(att@[i as int]) =~= att@.take(i + 1));
            }
            if hit {
                n += 1;
            }
            i += 1;
        }
        proof {
            assert(att@.take(att@.len() as int) =~= att@);
        }
        n
    }

    fn has_exit_on_exec(&self, eid: &String, d: Date) -> (b: bool)
        ensures
            b == has_exit_on(self.attendance@, d, eid@),
    {
        let mut i: usize = 0;
        while i < self.attendance.len()
            invariant
                0 <= i <= self.attendance@.len(),
                forall|k: int|
                    0 <= k < i ==> !((#[trigger] self.attendance@[k]).employee_id@ == eid@
                        && self.attendance@[k].record_type == RecordType::Exit && on_date(
                        self.attendance@[k],
                        d,
                    )),
            decreases self.attendance@.len() - i,
        {
            if self.attendance[i].record_type == RecordType::Exit
                && self.attendance[i].timestamp.date.key_u64() == d.key_u64() && self.attendance[i].employee_id
                == *eid {
                return true;
            }
            i += 1;
        }
        false
    }

    /// The ids of the employees present on date `d`: each id once, for
    /// exactly the members of the presence set.
    pub fn present_employee_ids(&self, d: Date) -> (v: Vec<String>)
        ensures
            v.deep_view().no_duplicates(),
            forall|eid: Seq<char>| #![auto]
                v.deep_view().contains(eid) <==> (has_entry_on(self.attendance@, d, eid)
                    && !has_exit_on(self.attendance@, d, eid)),
    {
        let att_len = self.attendance.len();
        let mut out: Vec<String> = Vec::new();
        let mut i: usize = 0;
        while i < att_len
            invariant
                att_len == self.attendance@.len(),
                0 <= i <= att_len,
                out.deep_view().no_duplicates(),
                forall|eid: Seq<char>| #![auto]
                    out.deep_view().contains(eid) <==> (has_entry_on(
                        self.attendance@.take(i as int),
                        d,
                        eid,
                    ) && !has_exit_on(self.attendance@, d, eid)),
            decreases att_len - i,
        {
            let ghost att = self.attendance@;
            let ghost pre = out.deep_view();
            let ghost cur = att[i as int];
            let entry_today = self.attendance[i].record_type == RecordType::Entry
                && self.attendance[i].timestamp.date.key_u64() == d.key_u64();
            proof {
                assert(att.take(i + 1)[i as int] == cur);
                assert forall|eid: Seq<char>| #![auto]
                    has_entry_on(att.take(i + 1), d, eid) == (has_entry_on(
                        att.take(i as int),
                        d,
                        eid,
                    ) || (entry_today && cur.employee_id@ == eid)) by {
                    if has_entry_on(att.take(i + 1), d, eid) {
                        let k = choose|k: int|
                            0 <= k < i + 1 && (#[trigger] att.take(i + 1)[k]).employee_id@ == eid
                                && att.take(i + 1)[k].record_type == RecordType::Entry && on_date(
                                att.take(i + 1)[k],
                                d,
                            );
                        if k < i {
                            assert(att.take(i as int)[k] == att.take(i + 1)[k]);
                            assert(has_entry_on(att.take(i as int), d, eid));
                        }
                    }
                    if has_entry_on(att.take(i as int), d, eid) {
                        let k = choose|k: int|
                            0 <= k < i && (#[trigger] att.take(i as int)[k]).employee_id@ == eid
                                && att.take(i as int)[k].record_type == RecordType::Entry
                                && on_date(att.take(i as int)[k], d);
                        assert(att.take(i + 1)[k] == att.take(i as int)[k]);
                        assert(has_entry_on(att.take(i + 1), d, eid));
                    }
                    if entry_today && cur.employee_id@ == eid {
                        assert(att.take(i + 1)[i as int].employee_id@ == eid);
                        assert(has_entry_on(att.take(i + 1), d, eid));
                    }
                }
            }
            if entry_today {
                let eid = self.attendance[i].employee_id.clone();
                let contained = vec_contains_id(&out, &eid);
                let has_ex = self.has_exit_on_exec(&eid, d);
                if !contained && !has_ex {
                    out.push(eid);
                    proof {
                        let neweid = cur.employee_id@;
                        assert(out.deep_view() =~= pre.push(neweid));
                        assert forall|e: Seq<char>| #![auto]
                            out.deep_view().contains(e) == (pre.contains(e) || e == neweid) by {
                            if out.deep_view().contains(e) {
                                let k = choose|k: int|
                                    0 <= k < out.deep_view().len() && out.deep_view()[k] == e;
                                if k < pre.len() {
                                    assert(pre[k] == e);
                                }
                            }
                            if pre.contains(e) {
                                let k = choose|k: int| 0 <= k < pre.len() && pre[k] == e;
                                assert(out.deep_view()[k] == e);
                            }
                            if e == neweid {
                                assert(out.deep_view()[pre.len() as int] == e);
                            }
                        }
                        assert forall|a: int, b: int|
                            0 <= a < b < out.deep_view().len() implies out.deep_view()[a]
                            != out.deep_view()[b] by {
                            if b < pre.len() {
                            } else {
                                assert(out.deep_view()[a] == pre[a]);
                                assert(pre.contains(pre[a]));
                            }
                        }
                        assert forall|e: Seq<char>| #![auto]
                            out.deep_view().contains(e) == (has_entry_on(att.take(i + 1), d, e)
                                && !has_exit_on(att, d, e)) by {
                            assert(out.deep_view().contains(e) == (pre.contains(e) || e
                                == neweid));
                            assert(pre.contains(e) == (has_entry_on(att.take(i as int), d, e)
                                && !has_exit_on(att, d, e)));
                            assert(has_entry_on(att.take(i + 1), d, e) == (has_entry_on(
                                att.take(i as int),
                                d,
                                e,
                            ) || (entry_today && cur.employee_id@ == e)));
                        }
                    }
                } else {
                    proof {
                        assert forall|e: Seq<char>| #![auto]
                            out.deep_view().contains(e) == (has_entry_on(att.take(i + 1), d, e)
                                && !has_exit_on(att, d, e)) by {
                            assert(pre.contains(e) == (has_entry_on(att.take(i as int), d, e)
                                && !has_exit_on(att, d, e)));
                            assert(has_entry_on(att.take(i + 1), d, e) == (has_entry_on(
                                att.take(i as int),
                                d,
                                e,
                            ) || (entry_today && cur.employee_id@ == e)));
                            if e == cur.employee_id@ {
                                if contained {
                                    assert(pre.contains(e));
                                    assert(!has_exit_on(att, d, e));
                                } else {
                                    assert(has_exit_on(att, d, e));
                                }
                            }
                        }
                    }
                }
            } else {
                proof {
                    assert forall|e: Seq<char>| #![auto]
                        out.deep_view().contains(e) == (has_entry_on(att.take(i + 1), d, e)
                            && !has_exit_on(att, d, e)) by {
                        assert(pre.contains(e) == (has_entry_on(att.take(i as int), d, e)
                            && !has_exit_on(att, d, e)));
                        assert(has_entry_on(att.take(i + 1), d, e) == (has_entry_on(
                            att.take(i as int),
                            d,
                            e,
                        ) || (entry_today && cur.employee_id@ == e)));
                    }
                }
            }
            i += 1;
        }
        proof {
            assert(self.attendance@.take(att_len as int) =~= self.attendance@);
        }
        out
    }

    /// The daily statistics for calendar date `today`, recomputed from
    /// scratch, and consistent with what listing the records of `today`
    /// returns.
    pub fn get_daily_stats_on(&self, today: Date) -> (s: DailyStats)
        ensures
            daily_stats_on(self.attendance@, today, s),
    {
        let total_entries = self.count_events_on(RecordType::Entry, today);
        let total_exits = self.count_events_on(RecordType::Exit, today);
        let ids = self.present_employee_ids(today);
        proof {
            let dv = ids.deep_view();
            assert(dv.to_set() =~= present_set(self.attendance@, today));
            dv.unique_seq_to_set();
        }
        let unique_employees_present = ids.len() as u64;
        let f = Filters {
            start_date: Some(today),
            end_date: Some(today),
            employee_id: None,
            record_type: None,
        };
        let todays = self.get_records(&f);
        proof {
            assert(f == day_filters(today));
        }
        let last_activity = if todays.len() == 0 {
            None
        } else {
            Some(todays[0].clone())
        };
        DailyStats { total_entries, total_exits, unique_employees_present, last_activity }
    }

    /// The daily statistics for the current local calendar date.
    pub fn get_daily_stats(&self) -> (s: DailyStats)
        ensures
            exists|d: Date| d.wf() && daily_stats_on(self.attendance@, d, s),
    {
        let now = clock_now();
        let s = self.get_daily_stats_on(now.date);
        proof {
            assert(now.date.wf() && daily_stats_on(self.attendance@, now.date, s));
        }
        s
    }
}

} // verus!
