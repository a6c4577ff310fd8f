//! The general laws of the library, each proved for all inputs: idempotent
//! initialization, the daily presence criterion, the order and membership of
//! listed (and exported) record sets, date filtering, and what a notes-only
//! partial update leaves untouched.

use crate::filters::{
    day_filters, filter_pred, filtered_records, lemma_filter_empty_iff_none_pass, lemma_filter_sub,
    matches_filters,
};
use crate::model::{AttendanceRecord, Filters, RecordType};
use crate::sort::{
    lemma_sort_records_membership, lemma_sort_records_sorted, records_sorted_desc,
};
use crate::stats::{employee_event_pred, has_entry_on, has_exit_on, present_set};
use crate::store::{
    admin_key, default_password, init_config, legacy_password, migrated_config, model_has_key,
    records_view, seeded_config, updated_record,
};
use crate::time::{Date, Timestamp};
use vstd::prelude::*;

verus! {

/// Initialization is idempotent: running it on an already-initialized set of
/// configuration rows changes nothing, so a second `init_database` leaves the
/// same rows (and, the structure being fixed, the same tables and indexes) as
/// the first.
pub proof fn lemma_init_idempotent(m: Seq<(Seq<char>, Seq<char>)>)
    ensures
        init_config(init_config(m)) == init_config(m),
{
    reveal_strlit("0824");
    reveal_strlit("1234");
    assert(default_password()[0] != legacy_password()[0]);
    let s1 = seeded_config(m);
    let r1 = init_config(m);
    assert(r1 == migrated_config(s1));
    assert(r1.len() == s1.len());
    if model_has_key(m, admin_key()) {
        let k = choose|k: int| 0 <= k < m.len() && (#[trigger] m[k]).0 == admin_key();
        assert(r1[k].0 == admin_key());
        assert(model_has_key(r1, admin_key()));
    } else {
        assert(s1[m.len() as int].0 == admin_key());
        assert(r1[m.len() as int].0 == admin_key());
        assert(model_has_key(r1, admin_key()));
    }
    assert(seeded_config(r1) == r1);
    assert forall|i: int| 0 <= i < r1.len() implies #[trigger] migrated_config(r1)[i] == r1[i] by {
        if s1[i].0 == admin_key() && s1[i].1 == legacy_password() {
            assert(r1[i] == (s1[i].0, default_password()));
        } else {
            assert(r1[i] == s1[i]);
        }
    }
    assert(migrated_config(r1) =~= r1);
}

/// The daily presence criterion: employee `eid` is in the presence set of
/// date `d` exactly when the ledger holds an entry event for `eid` dated `d`
/// and no exit event for `eid` dated `d`.
pub proof fn lemma_present_membership(att: Seq<AttendanceRecord>, d: Date, eid: Seq<char>)
    ensures
        present_set(att, d).contains(eid) <==> (has_entry_on(att, d, eid) && !has_exit_on(
            att,
            d,
            eid,
        )),
{
}

/// The presence criterion in terms of counted events: employee `eid` is
/// present on date `d` exactly when the ledger counts at least one entry and
/// exactly zero exits for `eid` dated `d` — so an employee with more entries
/// than exits but at least one exit is not counted as present.
pub proof fn lemma_present_counts(att: Seq<AttendanceRecord>, d: Date, eid: Seq<char>)
    ensures
        present_set(att, d).contains(eid) <==> (att.filter(
            employee_event_pred(eid, RecordType::Entry, d),
        ).len() > 0 && att.filter(employee_event_pred(eid, RecordType::Exit, d)).len() == 0),
{
    let entry_pred = employee_event_pred(eid, RecordType::Entry, d);
    let exit_pred = employee_event_pred(eid, RecordType::Exit, d);
    lemma_filter_empty_iff_none_pass(att, entry_pred);
    lemma_filter_empty_iff_none_pass(att, exit_pred);
    if has_entry_on(att, d, eid) {
        let i = choose|i: int|
            0 <= i < att.len() && (#[trigger] att[i]).employee_id@ == eid && att[i].record_type
                == RecordType::Entry && crate::stats::on_date(att[i], d);
        assert(entry_pred(att[i]));
    }
    if att.filter(entry_pred).len() > 0 {
        let i = choose|i: int| 0 <= i < att.len() && entry_pred(#[trigger] att[i]);
        assert(has_entry_on(att, d, eid));
    }
    if has_exit_on(att, d, eid) {
        let i = choose|i: int|
            0 <= i < att.len() && (#[trigger] att[i]).employee_id@ == eid && att[i].record_type
                == RecordType::Exit && crate::stats::on_date(att[i], d);
        assert(exit_pred(att[i]));
    }
    if att.filter(exit_pred).len() > 0 {
        let i = choose|i: int| 0 <= i < att.len() && exit_pred(#[trigger] att[i]);
        assert(has_exit_on(att, d, eid));
    }
}

/// Listed record sets hold exactly the stored records that pass the filters:
/// `r` appears in the listing (and so in the export, which returns the same
/// sequence) for filter set `f` exactly when the ledger holds `r` and `r`
/// passes `f`.
pub proof fn lemma_records_view_membership(
    att: Seq<AttendanceRecord>,
    f: Filters,
    r: AttendanceRecord,
)
    ensures
        records_view(att, f).contains(r) <==> (att.contains(r) && matches_filters(r, f)),
{
    lemma_sort_records_membership(filtered_records(att, f), r);
    if filtered_records(att, f).contains(r) {
        lemma_filter_sub(att, filter_pred(f), r);
    }
    if att.contains(r) && matches_filters(r, f) {
        let i = choose|i: int| 0 <= i < att.len() && att[i] == r;
        att.lemma_filter_contains(filter_pred(f), i);
    }
}

/// Listing and export order: the record sequence returned for any filter set
/// is ordered by timestamp, newest first.
pub proof fn lemma_records_view_sorted(att: Seq<AttendanceRecord>, f: Filters)
    ensures
        records_sorted_desc(records_view(att, f)),
{
    lemma_sort_records_sorted(filtered_records(att, f));
}

/// Filtering by one date: with both date bounds set to `d`, every listed
/// record's date component is `d`, whatever its time of day.
pub proof fn lemma_day_filter_dates(att: Seq<AttendanceRecord>, d: Date, r: AttendanceRecord)
    ensures
        records_view(att, day_filters(d)).contains(r) ==> r.timestamp.date.key() == d.key(),
{
    lemma_records_view_membership(att, day_filters(d), r);
}

/// A notes-only partial update changes only the notes and the modification
/// timestamp: the event's own timestamp, its kind, its identity and the
/// employee snapshot all stay as they were.
pub proof fn lemma_update_notes_only(r: AttendanceRecord, n: String, now: Timestamp)
    ensures
        ({
            let u = updated_record(r, None, None, Some(n), now);
            &&& u.timestamp == r.timestamp
            &&& u.record_type == r.record_type
            &&& u.id == r.id
            &&& u.employee_id == r.employee_id
            &&& u.employee_name == r.employee_name
            &&& u.created_at == r.created_at
            &&& u.notes == Some(n)
            &&& u.updated_at == now
        }),
{
}

} // verus!
