//! Save-path reconciliation: one edit rewrites both copies of the save path,
//! the platform-separator copy inside the resume blob and the
//! forward-slash copy in the relational path column.

use vstd::prelude::*;
use vstd::utf8::{encode_utf8, encode_utf8_valid_utf8, valid_utf8};
use crate::record::{Fastresume, wf_record};
use crate::rewrite::{contains_bytes, replace_bytes, spec_contains, spec_replace};
use crate::text::{lemma_replace_valid_utf8, replace_str, str_eq};

verus! {

/// A save-path edit: the old and new path in both separator conventions,
/// plus the separator the rewritten blob path should use.
#[derive(Debug, Clone, PartialEq)]
pub struct SavePath {
    /// Existing save path substring, forward-slash form.
    pub old_unix: String,
    /// Replacement save path substring, forward-slash form.
    pub new_unix: String,
    /// Existing save path substring, platform form.
    pub old: String,
    /// Replacement save path substring, platform form.
    pub new: String,
    /// Separator the rewritten blob path should use.
    pub separator: String,
}

/// The edit applies to a record exactly when the blob's save path contains
/// the platform-form old substring; the blob is the source of truth.
pub open spec fn path_edit_applies(p: Seq<u8>, e: &SavePath) -> bool {
    spec_contains(p, encode_utf8(e.old@))
}

/// The blob save path after the edit: platform-form substitution, then all
/// separators normalized to the requested one.
pub open spec fn path_after_edit(p: Seq<u8>, e: &SavePath) -> Seq<u8> {
    let replaced = spec_replace(p, encode_utf8(e.old@), encode_utf8(e.new@));
    if e.separator@ == "\\"@ {
        spec_replace(replaced, encode_utf8("/"@), encode_utf8(e.separator@))
    } else {
        spec_replace(replaced, encode_utf8("\\"@), encode_utf8(e.separator@))
    }
}

/// The relational path column after the edit: forward-slash substitution on
/// whatever value the column holds; an absent column stays absent.
pub open spec fn column_after_edit(c: Seq<char>, e: &SavePath) -> Seq<u8> {
    spec_replace(encode_utf8(c), encode_utf8(e.old_unix@), encode_utf8(e.new_unix@))
}

/// Applies a save-path edit to the decoded record and the relational path
/// column as one logical change.
///
/// When the blob path does not contain the old substring, neither
/// representation is touched and the result reports no change.  Otherwise
/// both are rewritten: the blob path by the platform-form substitution plus
/// separator normalization, the column (when present) by the forward-slash
/// substitution; an absent column is never synthesized.
pub fn apply_save_path(resume: &mut Fastresume, column: Option<String>, edit: &SavePath) -> (r: (
    Option<String>,
    bool,
))
    ensures
        r.1 == path_edit_applies(old(resume).save_path@, edit),
        !r.1 ==> *final(resume) == *old(resume) && r.0 == column,
        r.1 ==> *final(resume) == (Fastresume {
            save_path: final(resume).save_path,
            ..*old(resume)
        }) && final(resume).save_path@ == path_after_edit(old(resume).save_path@, edit),
        r.1 ==> match column {
            Option::None => r.0 is None,
            Option::Some(c) => r.0 matches Some(c2) && encode_utf8(c2@) == column_after_edit(
                c@,
                edit,
            ),
        },
        wf_record(*old(resume)) ==> wf_record(*final(resume)),
{
    let applies = contains_bytes(resume.save_path.as_slice(), edit.old.as_str().as_bytes());
    if !applies {
        return (column, false);
    }
    let replaced = replace_bytes(
        resume.save_path.as_slice(),
        edit.old.as_str().as_bytes(),
        edit.new.as_str().as_bytes(),
    );
    let normalized = if str_eq(edit.separator.as_str(), "\\") {
        replace_bytes(replaced.as_slice(), "/".as_bytes(), edit.separator.as_str().as_bytes())
    } else {
        replace_bytes(replaced.as_slice(), "\\".as_bytes(), edit.separator.as_str().as_bytes())
    };
    resume.save_path = normalized;
    proof {
        if wf_record(*old(resume)) {
            encode_utf8_valid_utf8(edit.old@);
            encode_utf8_valid_utf8(edit.new@);
            encode_utf8_valid_utf8(edit.separator@);
            encode_utf8_valid_utf8("/"@);
            encode_utf8_valid_utf8("\\"@);
            lemma_replace_valid_utf8(
                old(resume).save_path@,
                encode_utf8(edit.old@),
                encode_utf8(edit.new@),
            );
            if edit.separator@ == "\\"@ {
                lemma_replace_valid_utf8(
                    replaced@,
                    encode_utf8("/"@),
                    encode_utf8(edit.separator@),
                );
            } else {
                lemma_replace_valid_utf8(
                    replaced@,
                    encode_utf8("\\"@),
                    encode_utf8(edit.separator@),
                );
            }
        }
    }
    let newcol = match column {
        Option::Some(c) => Option::Some(
            replace_str(c.as_str(), edit.old_unix.as_str(), edit.new_unix.as_str()),
        ),
        Option::None => Option::None,
    };
    (newcol, true)
}

} // verus!
