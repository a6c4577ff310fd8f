//! The filter predicate shared by record listing and export: the conjunction
//! of the supplied date-range, employee and type constraints. Date bounds are
//! inclusive and compare the date component only.

use crate::model::{AttendanceRecord, Filters};
use crate::time::Date;
use vstd::prelude::*;

verus! {

/// Whether `r` passes every filter that `f` supplies.
pub open spec fn matches_filters(r: AttendanceRecord, f: Filters) -> bool {
    &&& match f.start_date {
        Some(d) => r.timestamp.date.key() >= d.key(),
        None => true,
    }
    &&& match f.end_date {
        Some(d) => r.timestamp.date.key() <= d.key(),
        None => true,
    }
    &&& match f.employee_id {
        Some(e) => r.employee_id@ == e@,
        None => true,
    }
    &&& match f.record_type {
        Some(t) => r.record_type == t,
        None => true,
    }
}

/// The filter predicate of `f`, as a function value.
pub open spec fn filter_pred(f: Filters) -> spec_fn(AttendanceRecord) -> bool {
    |r: AttendanceRecord| matches_filters(r, f)
}

/// The subsequence of `att` that passes `f`, in stored order.
pub open spec fn filtered_records(att: Seq<AttendanceRecord>, f: Filters) -> Seq<AttendanceRecord> {
    att.filter(filter_pred(f))
}

/// The filter set that keeps exactly the records of date `d`.
pub open spec fn day_filters(d: Date) -> Filters {
    Filters { start_date: Some(d), end_date: Some(d), employee_id: None, record_type: None }
}

/// A filter keeps nothing exactly when nothing passes the predicate.
pub proof fn lemma_filter_empty_iff_none_pass<A>(s: Seq<A>, pred: spec_fn(A) -> bool)
    ensures
        (s.filter(pred).len() == 0) <==> (forall|i: int|
            0 <= i < s.len() ==> !pred(#[trigger] s[i])),
{
    if s.filter(pred).len() > 0 {
        let x = s.filter(pred)[0];
        assert(s.filter(pred).contains(x));
        lemma_filter_sub(s, pred, x);
        let i = choose|i: int| 0 <= i < s.len() && s[i] == x;
        assert(pred(s[i]));
    }
    if exists|i: int| 0 <= i < s.len() && pred(#[trigger] s[i]) {
        let i = choose|i: int| 0 <= i < s.len() && pred(#[trigger] s[i]);
        s.lemma_filter_contains(pred, i);
        assert(s.filter(pred).contains(s[i]));
    }
}

/// Filtering a sequence extended by one element keeps the old result and
/// appends the element exactly when it passes.
pub proof fn lemma_filter_push<A>(s: Seq<A>, pred: spec_fn(A) -> bool, x: A)
    ensures
        s.push(x).filter(pred) == s.filter(pred) + (if pred(x) {
            seq![x]
        } else {
            Seq::<A>::empty()
        }),
{
    assert(s.push(x) =~= s + seq![x]);
    Seq::filter_distributes_over_add(s, seq![x], pred);
    reveal_with_fuel(Seq::filter, 2);
    assert(seq![x].drop_last() =~= Seq::<A>::empty());
    if pred(x) {
        assert(seq![x].filter(pred) =~= seq![x]);
    } else {
        assert(seq![x].filter(pred) =~= Seq::<A>::empty());
    }
}

/// Everything a filter keeps comes from the input and passes the predicate.
pub proof fn lemma_filter_sub<A>(s: Seq<A>, pred: spec_fn(A) -> bool, x: A)
    requires
        s.filter(pred).contains(x),
    ensures
        s.contains(x) && pred(x),
    decreases s.len(),
{
    reveal_with_fuel(Seq::filter, 2);
    if s.len() == 0 {
    } else {
        let rest = s.drop_last().filter(pred);
        if pred(s.last()) && x == s.last() {
            assert(s[s.len() - 1] == x);
        } else {
            if pred(s.last()) {
                let k = choose|k: int|
                    0 <= k < rest.push(s.last()).len() && rest.push(s.last())[k] == x;
                assert(rest[k] == x);
            }
            lemma_filter_sub(s.drop_last(), pred, x);
            let k = choose|k: int| 0 <= k < s.drop_last().len() && s.drop_last()[k] == x;
            assert(s[k] == x);
        }
    }
}

/// Whether `r` passes every filter that `f` supplies.
pub fn record_matches(r: &AttendanceRecord, f: &Filters) -> (p: bool)
    ensures
        p == matches_filters(*r, *f),
{
    let ok_start = match &f.start_date {
        Some(d) => r.timestamp.date.key_u64() >= d.key_u64(),
        None => true,
    };
    let ok_end = match &f.end_date {
        Some(d) => r.timestamp.date.key_u64() <= d.key_u64(),
        None => true,
    };
    let ok_emp = match &f.employee_id {
        Some(e) => r.employee_id == *e,
        None => true,
    };
    let ok_type = match &f.record_type {
        Some(t) => r.record_type == *t,
        None => true,
    };
    ok_start && ok_end && ok_emp && ok_type
}

} // verus!
