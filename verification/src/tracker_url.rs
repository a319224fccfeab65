//! Tracker-URL rewriting: substring replacement over every URL in the
//! nested tier structure, preserving tier boundaries and order.

use vstd::prelude::*;
use vstd::utf8::{decode_utf8, encode_utf8, encode_utf8_decode_utf8, encode_utf8_valid_utf8};
use crate::record::Fastresume;
use crate::rewrite::{contains_bytes, replace_bytes, spec_contains, spec_replace};
use crate::text::{lemma_replace_valid_utf8, vec_to_string};

verus! {

/// A tracker-URL edit: old and new URL substring.
#[derive(Debug, Clone, PartialEq)]
pub struct TrackerUrl {
    /// Existing tracker URL substring.
    pub old: String,
    /// Replacement tracker URL substring.
    pub new: String,
}

/// One URL after the edit, as characters: the byte-level replacement over
/// its UTF-8 encoding, decoded back.
pub open spec fn url_edited(u: Seq<char>, ob: Seq<u8>, nb: Seq<u8>) -> Seq<char> {
    decode_utf8(spec_replace(encode_utf8(u), ob, nb))
}

/// One tier after the edit.
pub open spec fn tier_edited(t: Seq<Seq<char>>, ob: Seq<u8>, nb: Seq<u8>) -> Seq<Seq<char>> {
    Seq::new(t.len(), |j: int| url_edited(t[j], ob, nb))
}

/// The whole tier structure after the edit.
pub open spec fn tiers_edited(ts: Seq<Seq<Seq<char>>>, ob: Seq<u8>, nb: Seq<u8>) -> Seq<
    Seq<Seq<char>>,
> {
    Seq::new(ts.len(), |i: int| tier_edited(ts[i], ob, nb))
}

/// Some URL in some tier contains the pattern.
pub open spec fn tiers_contain(ts: Seq<Seq<Seq<char>>>, pat: Seq<u8>) -> bool {
    exists|i: int, j: int|
        0 <= i < ts.len() && 0 <= j < ts[i].len() && spec_contains(encode_utf8(ts[i][j]), pat)
}

/// Rewrites one tier, reporting whether any of its URLs contained the old
/// substring.
fn rewrite_tier(tier: &Vec<String>, edit: &TrackerUrl) -> (r: (Vec<String>, bool))
    ensures
        r.0.deep_view() == tier_edited(
            tier.deep_view(),
            encode_utf8(edit.old@),
            encode_utf8(edit.new@),
        ),
        r.1 == exists|j: int|
            0 <= j < tier.deep_view().len() && spec_contains(
                encode_utf8(tier.deep_view()[j]),
                encode_utf8(edit.old@),
            ),
{
    let ghost ob = encode_utf8(edit.old@);
    let ghost nb = encode_utf8(edit.new@);
    let mut out: Vec<String> = Vec::new();
    let mut hit = false;
    let mut j: usize = 0;
    while j < tier.len()
        invariant
            j <= tier@.len(),
            ob == encode_utf8(edit.old@),
            nb == encode_utf8(edit.new@),
            out.deep_view() == tier_edited(tier.deep_view(), ob, nb).take(j as int),
            hit == exists|t: int|
                0 <= t < j && spec_contains(encode_utf8(tier.deep_view()[t]), ob),
        decreases tier@.len() - j,
    {
        let u = &tier[j];
        if contains_bytes(u.as_str().as_bytes(), edit.old.as_str().as_bytes()) {
            hit = true;
        }
        let rb = replace_bytes(
            u.as_str().as_bytes(),
            edit.old.as_str().as_bytes(),
            edit.new.as_str().as_bytes(),
        );
        proof {
            encode_utf8_valid_utf8(u@);
            encode_utf8_valid_utf8(edit.old@);
            encode_utf8_valid_utf8(edit.new@);
            lemma_replace_valid_utf8(encode_utf8(u@), ob, nb);
        }
        let ghost prev = out.deep_view();
        let s = vec_to_string(rb);
        out.push(s);
        proof {
            encode_utf8_decode_utf8(s@);
            assert(s@ == url_edited(tier.deep_view()[j as int], ob, nb));
            assert(out.deep_view() =~= prev.push(s@));
            assert(out.deep_view() =~= tier_edited(tier.deep_view(), ob, nb).take(j + 1));
        }
        j = j + 1;
    }
    proof {
        assert(tier_edited(tier.deep_view(), ob, nb).take(tier@.len() as int) =~= tier_edited(
            tier.deep_view(),
            ob,
            nb,
        ));
    }
    (out, hit)
}

/// Rewrites every tracker URL in the record and reports whether at least one
/// URL contained the old substring.  Tier structure and order are kept; no
/// other field of the record is touched.
pub fn apply_tracker_url(resume: &mut Fastresume, edit: &TrackerUrl) -> (changed: bool)
    ensures
        *final(resume) == (Fastresume { trackers: final(resume).trackers, ..*old(resume) }),
        final(resume).trackers.deep_view() == tiers_edited(
            old(resume).trackers.deep_view(),
            encode_utf8(edit.old@),
            encode_utf8(edit.new@),
        ),
        changed == tiers_contain(old(resume).trackers.deep_view(), encode_utf8(edit.old@)),
{
    let ghost ob = encode_utf8(edit.old@);
    let ghost nb = encode_utf8(edit.new@);
    let ghost ts0 = resume.trackers.deep_view();
    let mut out: Vec<Vec<String>> = Vec::new();
    let mut changed = false;
    let mut i: usize = 0;
    while i < resume.trackers.len()
        invariant
            i <= resume.trackers@.len(),
            resume.trackers.deep_view() == ts0,
            *resume == (Fastresume { trackers: resume.trackers, ..*old(resume) }),
            resume.trackers == old(resume).trackers,
            ob == encode_utf8(edit.old@),
            nb == encode_utf8(edit.new@),
            out.deep_view() == tiers_edited(ts0, ob, nb).take(i as int),
            changed == exists|t: int, j: int|
                0 <= t < i && 0 <= j < ts0[t].len() && spec_contains(encode_utf8(ts0[t][j]), ob),
        decreases resume.trackers@.len() - i,
    {
        let (tier2, hit) = rewrite_tier(&resume.trackers[i], edit);
        if hit {
            proof {
                let j = choose|j: int|
                    0 <= j < ts0[i as int].len() && spec_contains(
                        encode_utf8(ts0[i as int][j]),
                        ob,
                    );
                assert(0 <= i < ts0.len() && 0 <= j < ts0[i as int].len() && spec_contains(
                    encode_utf8(ts0[i as int][j]),
                    ob,
                ));
            }
            changed = true;
        }
        let ghost prev = out.deep_view();
        out.push(tier2);
        proof {
            assert(out.deep_view() =~= prev.push(tier_edited(ts0[i as int], ob, nb)));
            assert(out.deep_view() =~= tiers_edited(ts0, ob, nb).take(i + 1));
        }
        i = i + 1;
    }
    proof {
        assert(tiers_edited(ts0, ob, nb).take(ts0.len() as int) =~= tiers_edited(ts0, ob, nb));
    }
    resume.trackers = out;
    changed
}

} // verus!
