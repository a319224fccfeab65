//! Change detection and persistence gating: one pass over a decoded record
//! applies whichever edits are requested, and asks for exactly one
//! write-back when and only when at least one edit actually changed
//! something.

use vstd::prelude::*;
use vstd::utf8::encode_utf8;
use crate::codec::{encode, spec_encode_with};
use crate::record::Fastresume;
use crate::save_path::{
    apply_save_path, column_after_edit, path_after_edit, path_edit_applies, SavePath,
};
use crate::tracker_url::{apply_tracker_url, tiers_contain, tiers_edited, TrackerUrl};

verus! {

/// The new column values for one record that must be persisted.
#[derive(Debug, Clone, PartialEq)]
pub struct RecordUpdate {
    /// Re-encoded resume blob.
    pub resume_data: Vec<u8>,
    /// New relational save-path column; `None` keeps the column null.
    pub target_save_path: Option<String>,
}

/// At least one requested edit applies to the record.
pub open spec fn record_changed(
    rec: Fastresume,
    pe: Option<&SavePath>,
    te: Option<&TrackerUrl>,
) -> bool {
    (match pe {
        Option::Some(e) => path_edit_applies(rec.save_path@, e),
        Option::None => false,
    }) || (match te {
        Option::Some(e) => tiers_contain(rec.trackers.deep_view(), encode_utf8(e.old@)),
        Option::None => false,
    })
}

/// The record's blob save path after the requested edits.
pub open spec fn edited_sp(rec: Fastresume, pe: Option<&SavePath>) -> Seq<u8> {
    match pe {
        Option::Some(e) => if path_edit_applies(rec.save_path@, e) {
            path_after_edit(rec.save_path@, e)
        } else {
            rec.save_path@
        },
        Option::None => rec.save_path@,
    }
}

/// The record's tracker tiers after the requested edits.
pub open spec fn edited_ts(rec: Fastresume, te: Option<&TrackerUrl>) -> Seq<Seq<Seq<char>>> {
    match te {
        Option::Some(e) => tiers_edited(
            rec.trackers.deep_view(),
            encode_utf8(e.old@),
            encode_utf8(e.new@),
        ),
        Option::None => rec.trackers.deep_view(),
    }
}

/// How the returned column must relate to the one that was read.
pub open spec fn column_ok(
    col_in: Option<String>,
    col_out: Option<String>,
    rec: Fastresume,
    pe: Option<&SavePath>,
) -> bool {
    match pe {
        Option::Some(e) => if path_edit_applies(rec.save_path@, e) {
            match col_in {
                Option::None => col_out is None,
                Option::Some(c) => col_out matches Some(c2) && encode_utf8(c2@)
                    == column_after_edit(c@, e),
            }
        } else {
            col_out == col_in
        },
        Option::None => col_out == col_in,
    }
}

/// Applies the requested edits to one decoded record and decides
/// persistence.
///
/// Both edits are applied to the record in one pass; the record is
/// re-encoded and an update is produced exactly when at least one edit
/// applied.  `None` means the record is untouched: no write, no
/// re-encoding.  A record touched by either edit is persisted once, with
/// both edits applied.
#[verifier::rlimit(100)]
pub fn plan_update(
    resume: Fastresume,
    column: Option<String>,
    path_edit: Option<&SavePath>,
    tracker_edit: Option<&TrackerUrl>,
) -> (r: Option<RecordUpdate>)
    ensures
        r is Some <==> record_changed(resume, path_edit, tracker_edit),
        r matches Some(u) ==> u.resume_data@ == spec_encode_with(
            resume,
            edited_sp(resume, path_edit),
            edited_ts(resume, tracker_edit),
        ) && column_ok(column, u.target_save_path, resume, path_edit),
{
    let ghost rec0 = resume;
    let mut work = resume;
    let mut changed = false;
    let mut newcol = column;
    if let Option::Some(e) = path_edit {
        let (c2, ch) = apply_save_path(&mut work, newcol, e);
        newcol = c2;
        changed = ch;
    }
    if let Option::Some(e) = tracker_edit {
        let ch2 = apply_tracker_url(&mut work, e);
        if ch2 {
            changed = true;
        }
    }
    if !changed {
        proof {
            assert(!record_changed(rec0, path_edit, tracker_edit));
        }
        return None;
    }
    let out = encode(&work);
    proof {
        assert(work.save_path@ == edited_sp(rec0, path_edit));
        assert(work.trackers.deep_view() == edited_ts(rec0, tracker_edit));
        assert(spec_encode_with(work, work.save_path@, work.trackers.deep_view())
            == spec_encode_with(rec0, edited_sp(rec0, path_edit), edited_ts(rec0, tracker_edit)));
    }
    let u = RecordUpdate { resume_data: out, target_save_path: newcol };
    proof {
        assert(record_changed(rec0, path_edit, tracker_edit) && u.resume_data@
            == spec_encode_with(
            rec0,
            edited_sp(rec0, path_edit),
            edited_ts(rec0, tracker_edit),
        ) && column_ok(column, u.target_save_path, rec0, path_edit));
    }
    Some(u)
}

} // verus!
