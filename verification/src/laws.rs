//! The library's cross-cutting laws: round-trip stability of the codec,
//! idempotence of the substring edits, and consistency of the two save-path
//! representations after an edit.

use vstd::prelude::*;
use vstd::utf8::{
    decode_utf8_encode_utf8, encode_utf8, encode_utf8_valid_utf8, valid_utf8,
};
use crate::codec::{decoded_as, spec_encode};
use crate::record::Fastresume;
use crate::rewrite::{
    lemma_contains_single_byte, lemma_replace_absent, match_at, spec_contains, spec_replace,
};
use crate::save_path::{path_after_edit, path_edit_applies, SavePath};
use crate::text::lemma_replace_valid_utf8;
use crate::tracker_url::{tier_edited, tiers_edited, url_edited};

verus! {

/// Round trip: re-encoding any record that the exact decoder accepted
/// reproduces the accepted bytes exactly.  A record accepted with its keys
/// in another order re-encodes ordering-normalized instead, which the
/// order-tolerant decoder's own contract states.
pub proof fn lemma_round_trip(b: Seq<u8>, rec: Fastresume)
    requires
        decoded_as(b, rec),
    ensures
        spec_encode(rec) == b,
{
}

/// The blob save path after a path edit, with the edit's no-op gate: a path
/// that does not contain the old substring is left untouched.
pub open spec fn path_edit_result(p: Seq<u8>, e: &SavePath) -> Seq<u8> {
    if path_edit_applies(p, e) {
        path_after_edit(p, e)
    } else {
        p
    }
}

/// Idempotence of the save-path edit: applying the same edit twice yields
/// the same blob path as applying it once, whenever the first application
/// removes the old substring (the second application is then a no-op, since
/// the edit is gated on the substring being present).  An edit whose
/// replacement or separator normalization re-creates the old substring is
/// outside this law.
pub proof fn lemma_path_edit_idempotent(p: Seq<u8>, e: &SavePath)
    requires
        path_edit_applies(p, e) ==> !path_edit_applies(path_after_edit(p, e), e),
    ensures
        path_edit_result(path_edit_result(p, e), e) == path_edit_result(p, e),
{
}

/// Idempotence of the tracker-URL edit: rewriting the tiers twice equals
/// rewriting them once, whenever one application removes the old substring
/// from every URL.
pub proof fn lemma_tracker_edit_idempotent(ts: Seq<Seq<Seq<char>>>, ob: Seq<u8>, nb: Seq<u8>)
    requires
        valid_utf8(ob),
        valid_utf8(nb),
        forall|i: int, j: int|
            0 <= i < ts.len() && 0 <= j < ts[i].len() ==> !spec_contains(
                #[trigger] spec_replace(encode_utf8(ts[i][j]), ob, nb),
                ob,
            ),
    ensures
        tiers_edited(tiers_edited(ts, ob, nb), ob, nb) == tiers_edited(ts, ob, nb),
{
    let once = tiers_edited(ts, ob, nb);
    assert forall|i: int| 0 <= i < ts.len() implies tier_edited(once[i], ob, nb) == once[i] by {
        assert forall|j: int|
            0 <= j < ts[i].len() implies url_edited(once[i][j], ob, nb) == once[i][j] by {
            let u = ts[i][j];
            let replaced = spec_replace(encode_utf8(u), ob, nb);
            encode_utf8_valid_utf8(u);
            lemma_replace_valid_utf8(encode_utf8(u), ob, nb);
            decode_utf8_encode_utf8(replaced);
            assert(encode_utf8(once[i][j]) == replaced);
            lemma_replace_absent(replaced, ob, nb);
        }
        assert(tier_edited(once[i], ob, nb) =~= once[i]);
    }
    assert(tiers_edited(once, ob, nb) =~= once);
}

/// Forward-slash normal form of a byte path: every backslash becomes a
/// forward slash, all other bytes are kept.
pub open spec fn to_unix(p: Seq<u8>) -> Seq<u8> {
    Seq::new(p.len(), |i: int| if p[i] == 92 { 47u8 } else { p[i] })
}

/// The sequence holds no forward slash, as a pure platform-form path does.
pub open spec fn no_forward_slash(s: Seq<u8>) -> bool {
    forall|i: int| 0 <= i < s.len() ==> s[i] != 47
}

proof fn lemma_to_unix_concat(x: Seq<u8>, y: Seq<u8>)
    ensures
        to_unix(x + y) == to_unix(x) + to_unix(y),
{
    assert(to_unix(x + y) =~= to_unix(x) + to_unix(y));
}

/// Normalization commutes with replacement when the operands carry no
/// forward slash: normalization is then injective on every byte involved,
/// so it neither creates nor destroys matches.
proof fn lemma_to_unix_replace_commute(s: Seq<u8>, a: Seq<u8>, b: Seq<u8>)
    requires
        a.len() > 0,
        no_forward_slash(s),
        no_forward_slash(a),
        no_forward_slash(b),
    ensures
        to_unix(spec_replace(s, a, b)) == spec_replace(to_unix(s), to_unix(a), to_unix(b)),
    decreases s.len(),
{
    if s.len() == 0 {
        assert(to_unix(spec_replace(s, a, b)) =~= spec_replace(to_unix(s), to_unix(a), to_unix(b)));
    } else if match_at(s, a, 0) {
        let rest = s.subrange(a.len() as int, s.len() as int);
        assert(to_unix(s).subrange(0, a.len() as int) =~= to_unix(a));
        assert(match_at(to_unix(s), to_unix(a), 0));
        lemma_to_unix_replace_commute(rest, a, b);
        lemma_to_unix_concat(b, spec_replace(rest, a, b));
        assert(to_unix(s).subrange(a.len() as int, to_unix(s).len() as int) =~= to_unix(rest));
        assert(to_unix(spec_replace(s, a, b)) =~= spec_replace(
            to_unix(s),
            to_unix(a),
            to_unix(b),
        ));
    } else {
        assert(!match_at(to_unix(s), to_unix(a), 0)) by {
            if match_at(to_unix(s), to_unix(a), 0) {
                assert forall|t: int| 0 <= t < a.len() implies s[t] == a[t] by {
                    assert(to_unix(s).subrange(0, a.len() as int)[t] == to_unix(s)[t]);
                }
                assert(s.subrange(0, a.len() as int) =~= a);
            }
        }
        let rest = s.subrange(1, s.len() as int);
        lemma_to_unix_replace_commute(rest, a, b);
        lemma_to_unix_concat(seq![s[0]], spec_replace(rest, a, b));
        assert(to_unix(rest) =~= to_unix(s).subrange(1, to_unix(s).len() as int));
        assert(to_unix(seq![s[0]]) =~= seq![to_unix(s)[0]]);
        assert(to_unix(spec_replace(s, a, b)) =~= spec_replace(
            to_unix(s),
            to_unix(a),
            to_unix(b),
        ));
    }
}

/// The sequence holds no backslash, as a pure forward-slash path does.
pub open spec fn no_backslash(s: Seq<u8>) -> bool {
    forall|i: int| 0 <= i < s.len() ==> s[i] != 92
}

/// The sequence nowhere holds the byte `c`.
pub open spec fn no_byte(s: Seq<u8>, c: u8) -> bool {
    forall|i: int| 0 <= i < s.len() ==> s[i] != c
}

/// Replacement introduces no byte that neither operand holds.
proof fn lemma_replace_no_byte(s: Seq<u8>, a: Seq<u8>, b: Seq<u8>, c: u8)
    requires
        no_byte(s, c),
        no_byte(b, c),
    ensures
        no_byte(spec_replace(s, a, b), c),
    decreases s.len(),
{
    if a.len() == 0 || s.len() == 0 {
    } else if match_at(s, a, 0) {
        lemma_replace_no_byte(s.subrange(a.len() as int, s.len() as int), a, b, c);
    } else {
        lemma_replace_no_byte(s.subrange(1, s.len() as int), a, b, c);
    }
}

proof fn lemma_replace_no_forward_slash(s: Seq<u8>, a: Seq<u8>, b: Seq<u8>)
    requires
        no_forward_slash(s),
        no_forward_slash(b),
    ensures
        no_forward_slash(spec_replace(s, a, b)),
{
    lemma_replace_no_byte(s, a, b, 47);
    assert(no_byte(spec_replace(s, a, b), 47));
}

/// Replacing each backslash by a forward slash is exactly normalization.
proof fn lemma_replace_backslash_is_to_unix(s: Seq<u8>)
    ensures
        spec_replace(s, seq![92u8], seq![47u8]) == to_unix(s),
    decreases s.len(),
{
    if s.len() == 0 {
        assert(spec_replace(s, seq![92u8], seq![47u8]) =~= to_unix(s));
    } else {
        lemma_replace_backslash_is_to_unix(s.subrange(1, s.len() as int));
        assert(to_unix(s).subrange(1, to_unix(s).len() as int) =~= to_unix(
            s.subrange(1, s.len() as int),
        ));
        if s[0] == 92 {
            assert(s.subrange(0, 1) =~= seq![92u8]);
            assert(match_at(s, seq![92u8], 0));
            assert(spec_replace(s, seq![92u8], seq![47u8]) =~= to_unix(s));
        } else {
            assert(s.subrange(0, 1)[0] == s[0]);
            assert(!match_at(s, seq![92u8], 0));
            assert(spec_replace(s, seq![92u8], seq![47u8]) =~= to_unix(s));
        }
    }
}

/// Dual-representation consistency: when the blob path and the relational
/// column initially denote the same path in their respective separator
/// styles, and the edit's platform and forward-slash forms denote the same
/// substrings, then after the edit the two representations still agree once
/// both are normalized to forward slashes.  The platform-form operands must
/// be purely platform-style (no forward slash inside them).
pub proof fn lemma_dual_representation_consistency(p: Seq<u8>, c: Seq<char>, e: &SavePath)
    requires
        to_unix(p) == encode_utf8(c),
        to_unix(encode_utf8(e.old@)) == encode_utf8(e.old_unix@),
        to_unix(encode_utf8(e.new@)) == encode_utf8(e.new_unix@),
        no_forward_slash(p),
        no_forward_slash(encode_utf8(e.old@)),
        no_forward_slash(encode_utf8(e.new@)),
        encode_utf8(e.old@).len() > 0,
        e.separator@ == "\\"@ || e.separator@ == "/"@,
    ensures
        to_unix(path_after_edit(p, e)) == spec_replace(
            encode_utf8(c),
            encode_utf8(e.old_unix@),
            encode_utf8(e.new_unix@),
        ),
{
    broadcast use vstd::string::group_string_axioms;

    let oa = encode_utf8(e.old@);
    let ob = encode_utf8(e.new@);
    let replaced = spec_replace(p, oa, ob);
    lemma_replace_no_forward_slash(p, oa, ob);
    lemma_to_unix_replace_commute(p, oa, ob);
    assert(encode_utf8("\\"@) =~= seq![92u8]) by {
        reveal_strlit("\\");
        assert("\\"@.len() == 1 && "\\"@[0] == '\\');
        assert(('\\' as u32) == 92);
        assert((92u32 & 0x7F) as u8 == 92u8) by (bit_vector);
        assert("\\"@.drop_first() =~= Seq::<char>::empty());
        assert(encode_utf8("\\"@.drop_first()) == Seq::<u8>::empty());
        assert(encode_utf8("\\"@) == vstd::utf8::encode_scalar(('\\') as u32) + encode_utf8(
            "\\"@.drop_first(),
        ));
        assert(encode_utf8("\\"@) =~= vstd::utf8::encode_scalar(92u32));
    }
    assert(encode_utf8("/"@) =~= seq![47u8]) by {
        reveal_strlit("/");
        assert("/"@.len() == 1 && "/"@[0] == '/');
        assert(('/' as u32) == 47);
        assert((47u32 & 0x7F) as u8 == 47u8) by (bit_vector);
        assert("/"@.drop_first() =~= Seq::<char>::empty());
        assert(encode_utf8("/"@.drop_first()) == Seq::<u8>::empty());
        assert(encode_utf8("/"@) == vstd::utf8::encode_scalar(('/') as u32) + encode_utf8(
            "/"@.drop_first(),
        ));
        assert(encode_utf8("/"@) =~= vstd::utf8::encode_scalar(47u32));
    }
    if e.separator@ == "\\"@ {
        assert(path_after_edit(p, e) == spec_replace(
            replaced,
            encode_utf8("/"@),
            encode_utf8(e.separator@),
        ));
        lemma_contains_single_byte(replaced, 47);
        lemma_replace_absent(replaced, seq![47u8], encode_utf8(e.separator@));
        assert(path_after_edit(p, e) == replaced);
    } else {
        assert(e.separator@ == "/"@);
        assert(path_after_edit(p, e) == spec_replace(replaced, seq![92u8], seq![47u8]));
        lemma_replace_backslash_is_to_unix(replaced);
        assert(path_after_edit(p, e) == to_unix(replaced));
        assert(to_unix(to_unix(replaced)) =~= to_unix(replaced));
    }
}


/// Dual-representation consistency for a forward-slash platform: when the
/// platform itself uses forward slashes, the blob path and the relational
/// column coincide, the edit's platform and forward-slash forms are the
/// same strings, and the edit keeps the two representations equal.  The
/// operands must be purely forward-slash style (no backslash inside them).
pub proof fn lemma_dual_representation_consistency_unix(p: Seq<u8>, c: Seq<char>, e: &SavePath)
    requires
        p == encode_utf8(c),
        e.old@ == e.old_unix@,
        e.new@ == e.new_unix@,
        no_backslash(p),
        no_backslash(encode_utf8(e.new@)),
        e.separator@ == "/"@,
    ensures
        path_after_edit(p, e) == spec_replace(
            encode_utf8(c),
            encode_utf8(e.old_unix@),
            encode_utf8(e.new_unix@),
        ),
{
    let oa = encode_utf8(e.old@);
    let ob = encode_utf8(e.new@);
    let replaced = spec_replace(p, oa, ob);
    lemma_replace_no_byte(p, oa, ob, 92);
    assert(encode_utf8("\\"@) =~= seq![92u8]) by {
        reveal_strlit("\\");
        assert("\\"@.len() == 1 && "\\"@[0] == '\\');
        assert(('\\' as u32) == 92);
        assert((92u32 & 0x7F) as u8 == 92u8) by (bit_vector);
        assert("\\"@.drop_first() =~= Seq::<char>::empty());
        assert(encode_utf8("\\"@.drop_first()) == Seq::<u8>::empty());
        assert(encode_utf8("\\"@) == vstd::utf8::encode_scalar(('\\') as u32) + encode_utf8(
            "\\"@.drop_first(),
        ));
        assert(encode_utf8("\\"@) =~= vstd::utf8::encode_scalar(92u32));
    }
    assert(e.separator@ != "\\"@) by {
        if e.separator@ == "\\"@ {
            assert(encode_utf8(e.separator@)[0] == 92);
            reveal_strlit("/");
            assert(("/"@)[0] == '/');
            assert(encode_utf8(e.separator@)[0] == encode_utf8("/"@)[0]);
            assert(encode_utf8("/"@) =~= seq![47u8]) by {
                assert(('/' as u32) == 47);
                assert((47u32 & 0x7F) as u8 == 47u8) by (bit_vector);
                assert("/"@.drop_first() =~= Seq::<char>::empty());
                assert(encode_utf8("/"@.drop_first()) == Seq::<u8>::empty());
                assert(encode_utf8("/"@) == vstd::utf8::encode_scalar(('/') as u32)
                    + encode_utf8("/"@.drop_first()));
                assert(encode_utf8("/"@) =~= vstd::utf8::encode_scalar(47u32));
            }
        }
    }
    assert(path_after_edit(p, e) == spec_replace(replaced, seq![92u8], encode_utf8(e.separator@)));
    lemma_contains_single_byte(replaced, 92);
    lemma_replace_absent(replaced, seq![92u8], encode_utf8(e.separator@));
    assert(path_after_edit(p, e) == replaced);
}

} // verus!
