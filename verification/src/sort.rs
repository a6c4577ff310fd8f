//! Stable insertion sorts: attendance records by timestamp, newest first, and
//! employees by name, ascending. Records or employees that compare equal keep
//! their stored order.

use crate::model::{AttendanceRecord, Employee};
use crate::text::lex_le;
use vstd::prelude::*;

verus! {

/// `x` placed into the descending-by-timestamp sequence `s`, after any
/// element whose timestamp is not older.
pub open spec fn insert_record_desc(s: Seq<AttendanceRecord>, x: AttendanceRecord) -> Seq<
    AttendanceRecord,
>
    decreases s.len(),
{
    if s.len() == 0 {
        seq![x]
    } else if x.timestamp.key() > s[0].timestamp.key() {
        seq![x] + s
    } else {
        seq![s[0]] + insert_record_desc(s.drop_first(), x)
    }
}

/// `s` sorted by timestamp, newest first, stably.
pub open spec fn sort_records_desc(s: Seq<AttendanceRecord>) -> Seq<AttendanceRecord>
    decreases s.len(),
{
    if s.len() == 0 {
        Seq::empty()
    } else {
        insert_record_desc(sort_records_desc(s.drop_last()), s.last())
    }
}

proof fn lemma_insert_record_at(s: Seq<AttendanceRecord>, x: AttendanceRecord, j: int)
    requires
        0 <= j <= s.len(),
        forall|k: int| 0 <= k < j ==> x.timestamp.key() <= (#[trigger] s[k]).timestamp.key(),
        j == s.len() || x.timestamp.key() > s[j].timestamp.key(),
    ensures
        insert_record_desc(s, x) == s.insert(j, x),
    decreases j,
{
    if j == 0 {
        if s.len() == 0 {
            assert(insert_record_desc(s, x) =~= s.insert(0, x));
        } else {
            assert(seq![x] + s =~= s.insert(0, x));
        }
    } else {
        assert(x.timestamp.key() <= s[0].timestamp.key());
        lemma_insert_record_at(s.drop_first(), x, j - 1);
        assert(seq![s[0]] + s.drop_first().insert(j - 1, x) =~= s.insert(j, x));
    }
}

/// Membership is unchanged by insertion.
proof fn lemma_insert_record_membership(s: Seq<AttendanceRecord>, x: AttendanceRecord, y: AttendanceRecord)
    ensures
        insert_record_desc(s, x).contains(y) <==> (y == x || s.contains(y)),
    decreases s.len(),
{
    let t = insert_record_desc(s, x);
    if s.len() == 0 {
        if y == x {
            assert(t[0] == y);
        }
        if t.contains(y) {
            let i = choose|i: int| 0 <= i < t.len() && t[i] == y;
            assert(i == 0);
        }
    } else if x.timestamp.key() > s[0].timestamp.key() {
        if y == x {
            assert(t[0] == y);
        }
        if s.contains(y) {
            let i = choose|i: int| 0 <= i < s.len() && s[i] == y;
            assert(t[i + 1] == y);
        }
        if t.contains(y) {
            let i = choose|i: int| 0 <= i < t.len() && t[i] == y;
            if i > 0 {
                assert(s[i - 1] == y);
            }
        }
    } else {
        let u = insert_record_desc(s.drop_first(), x);
        lemma_insert_record_membership(s.drop_first(), x, y);
        if y == x {
            let i = choose|i: int| 0 <= i < u.len() && u[i] == y;
            assert(t[i + 1] == y);
        }
        if s.contains(y) {
            let i = choose|i: int| 0 <= i < s.len() && s[i] == y;
            if i == 0 {
                assert(t[0] == y);
            } else {
                assert(s.drop_first()[i - 1] == y);
                assert(s.drop_first().contains(y));
                let k = choose|k: int| 0 <= k < u.len() && u[k] == y;
                assert(t[k + 1] == y);
            }
        }
        if t.contains(y) {
            let i = choose|i: int| 0 <= i < t.len() && t[i] == y;
            if i == 0 {
                assert(s[0] == y);
            } else {
                assert(u[i - 1] == y);
                assert(u.contains(y));
                if y != x {
                    let k = choose|k: int|
                        0 <= k < s.drop_first().len() && s.drop_first()[k] == y;
                    assert(s[k + 1] == y);
                }
            }
        }
    }
}

/// A sequence holds exactly the records of its sorted rearrangement.
pub proof fn lemma_sort_records_membership(s: Seq<AttendanceRecord>, y: AttendanceRecord)
    ensures
        sort_records_desc(s).contains(y) <==> s.contains(y),
    decreases s.len(),
{
    if s.len() > 0 {
        lemma_sort_records_membership(s.drop_last(), y);
        lemma_insert_record_membership(sort_records_desc(s.drop_last()), s.last(), y);
        if y == s.last() {
            assert(s[s.len() - 1] == y);
        }
        if y != s.last() && s.contains(y) {
            let i = choose|i: int| 0 <= i < s.len() && s[i] == y;
            assert(s.drop_last()[i] == y);
        }
        if s.drop_last().contains(y) {
            let i = choose|i: int| 0 <= i < s.drop_last().len() && s.drop_last()[i] == y;
            assert(s[i] == y);
        }
    }
}

/// Whether `s` is ordered by timestamp, newest first.
pub open spec fn records_sorted_desc(s: Seq<AttendanceRecord>) -> bool {
    forall|i: int, j: int|
        0 <= i < j < s.len() ==> (#[trigger] s[i]).timestamp.key() >= (#[trigger] s[j]).timestamp.key()
}

proof fn lemma_insert_record_sorted(s: Seq<AttendanceRecord>, x: AttendanceRecord)
    requires
        records_sorted_desc(s),
    ensures
        records_sorted_desc(insert_record_desc(s, x)),
    decreases s.len(),
{
    if s.len() == 0 {
    } else if x.timestamp.key() > s[0].timestamp.key() {
        let t = seq![x] + s;
        assert forall|i: int, j: int| 0 <= i < j < t.len() implies (#[trigger] t[i]).timestamp.key()
            >= (#[trigger] t[j]).timestamp.key() by {
            if i == 0 {
                assert(t[j] == s[j - 1]);
                if j > 1 {
                    assert(s[0].timestamp.key() >= s[j - 1].timestamp.key());
                }
            } else {
                assert(t[i] == s[i - 1] && t[j] == s[j - 1]);
            }
        }
    } else {
        assert forall|i: int, j: int|
            0 <= i < j < s.drop_first().len() implies (#[trigger] s.drop_first()[i]).timestamp.key()
            >= (#[trigger] s.drop_first()[j]).timestamp.key() by {
            assert(s[i + 1].timestamp.key() >= s[j + 1].timestamp.key());
        }
        lemma_insert_record_sorted(s.drop_first(), x);
        let u = insert_record_desc(s.drop_first(), x);
        let t = seq![s[0]] + u;
        assert forall|i: int, j: int| 0 <= i < j < t.len() implies (#[trigger] t[i]).timestamp.key()
            >= (#[trigger] t[j]).timestamp.key() by {
            if i == 0 {
                assert(u.contains(u[j - 1]));
                lemma_insert_record_membership(s.drop_first(), x, u[j - 1]);
                if u[j - 1] == x {
                } else {
                    let k = choose|k: int|
                        0 <= k < s.drop_first().len() && s.drop_first()[k] == u[j - 1];
                    assert(s[k + 1] == u[j - 1]);
                    assert(s[0].timestamp.key() >= s[k + 1].timestamp.key());
                }
            } else {
                assert(t[i] == u[i - 1] && t[j] == u[j - 1]);
            }
        }
    }
}

/// The sorted rearrangement is ordered by timestamp, newest first.
pub proof fn lemma_sort_records_sorted(s: Seq<AttendanceRecord>)
    ensures
        records_sorted_desc(sort_records_desc(s)),
    decreases s.len(),
{
    if s.len() > 0 {
        lemma_sort_records_sorted(s.drop_last());
        lemma_insert_record_sorted(sort_records_desc(s.drop_last()), s.last());
    }
}

fn insert_sorted_desc(out: &mut Vec<AttendanceRecord>, x: AttendanceRecord)
    ensures
        final(out)@ == insert_record_desc(old(out)@, x),
{
    let xk = x.timestamp.key_u64();
    let mut j: usize = 0;
    while j < out.len() && xk <= out[j].timestamp.key_u64()
        invariant
            0 <= j <= out@.len(),
            xk == x.timestamp.key(),
            forall|k: int| 0 <= k < j ==> x.timestamp.key() <= (#[trigger] out@[k]).timestamp.key(),
        decreases out@.len() - j,
    {
        j += 1;
    }
    proof {
        lemma_insert_record_at(out@, x, j as int);
    }
    out.insert(j, x);
}

/// `v` sorted by timestamp, newest first, stably.
pub fn sort_records(v: Vec<AttendanceRecord>) -> (r: Vec<AttendanceRecord>)
    ensures
        r@ == sort_records_desc(v@),
{
    let mut out: Vec<AttendanceRecord> = Vec::new();
    let mut i: usize = 0;
    while i < v.len()
        invariant
            0 <= i <= v@.len(),
            out@ == sort_records_desc(v@.take(i as int)),
        decreases v@.len() - i,
    {
        let x = v[i].clone();
        insert_sorted_desc(&mut out, x);
        proof {
            assert(v@.take(i + 1).drop_last() =~= v@.take(i as int));
            assert(v@.take(i + 1).last() == v@[i as int]);
        }
        i += 1;
    }
    proof {
        assert(v@.take(v@.len() as int) =~= v@);
    }
    out
}

/// `x` placed into the ascending-by-name sequence `s`, after any element
/// whose name is not greater.
pub open spec fn insert_employee_asc(s: Seq<Employee>, x: Employee) -> Seq<Employee>
    decreases s.len(),
{
    if s.len() == 0 {
        seq![x]
    } else if !lex_le(s[0].name@, x.name@) {
        seq![x] + s
    } else {
        seq![s[0]] + insert_employee_asc(s.drop_first(), x)
    }
}

/// `s` sorted by name, ascending, stably.
pub open spec fn sort_employees_asc(s: Seq<Employee>) -> Seq<Employee>
    decreases s.len(),
{
    if s.len() == 0 {
        Seq::empty()
    } else {
        insert_employee_asc(sort_employees_asc(s.drop_last()), s.last())
    }
}

proof fn lemma_insert_employee_at(s: Seq<Employee>, x: Employee, j: int)
    requires
        0 <= j <= s.len(),
        forall|k: int| 0 <= k < j ==> lex_le((#[trigger] s[k]).name@, x.name@),
        j == s.len() || !lex_le(s[j].name@, x.name@),
    ensures
        insert_employee_asc(s, x) == s.insert(j, x),
    decreases j,
{
    if j == 0 {
        if s.len() == 0 {
            assert(insert_employee_asc(s, x) =~= s.insert(0, x));
        } else {
            assert(seq![x] + s =~= s.insert(0, x));
        }
    } else {
        assert(lex_le(s[0].name@, x.name@));
        lemma_insert_employee_at(s.drop_first(), x, j - 1);
        assert(seq![s[0]] + s.drop_first().insert(j - 1, x) =~= s.insert(j, x));
    }
}

fn insert_sorted_asc(out: &mut Vec<Employee>, x: Employee)
    ensures
        final(out)@ == insert_employee_asc(old(out)@, x),
{
    let mut j: usize = 0;
    while j < out.len() && crate::text::str_lex_le(out[j].name.as_str(), x.name.as_str())
        invariant
            0 <= j <= out@.len(),
            forall|k: int| 0 <= k < j ==> lex_le((#[trigger] out@[k]).name@, x.name@),
        decreases out@.len() - j,
    {
        j += 1;
    }
    proof {
        lemma_insert_employee_at(out@, x, j as int);
    }
    out.insert(j, x);
}

/// `v` sorted by name, ascending, stably.
pub fn sort_employees(v: Vec<Employee>) -> (r: Vec<Employee>)
    ensures
        r@ == sort_employees_asc(v@),
{
    let mut out: Vec<Employee> = Vec::new();
    let mut i: usize = 0;
    while i < v.len()
        invariant
            0 <= i <= v@.len(),
            out@ == sort_employees_asc(v@.take(i as int)),
        decreases v@.len() - i,
    {
        let x = v[i].clone();
        insert_sorted_asc(&mut out, x);
        proof {
            assert(v@.take(i + 1).drop_last() =~= v@.take(i as int));
            assert(v@.take(i + 1).last() == v@[i as int]);
        }
        i += 1;
    }
    proof {
        assert(v@.take(v@.len() as int) =~= v@);
    }
    out
}

} // verus!
