//! Field-level wire encodings: one dictionary entry per schema field, with
//! spec-level encodings for every field kind and exec emitters proved exact.

use vstd::prelude::*;
use vstd::utf8::encode_utf8;
use crate::benc::{
    bstr_enc, emit_bstr, emit_int, emit_int_u64, int_enc, TOK_DICT,
    TOK_END, TOK_LIST,
};
use crate::record::UnfinishedPiece;

verus! {

/// Wire form of a dictionary key.
pub open spec fn key_enc(k: Seq<char>) -> Seq<u8> {
    bstr_enc(encode_utf8(k))
}

/// Entry holding an integer.
pub open spec fn field_int(k: Seq<char>, v: int) -> Seq<u8> {
    key_enc(k) + int_enc(v)
}

/// Entry holding an opaque byte string.
pub open spec fn field_bytes(k: Seq<char>, b: Seq<u8>) -> Seq<u8> {
    key_enc(k) + bstr_enc(b)
}

/// Entry holding a text string, stored as its UTF-8 bytes.
pub open spec fn field_text(k: Seq<char>, s: Seq<char>) -> Seq<u8> {
    key_enc(k) + bstr_enc(encode_utf8(s))
}

/// Payload of a list of text strings.
pub open spec fn texts_payload(ss: Seq<Seq<char>>) -> Seq<u8>
    decreases ss.len(),
{
    if ss.len() == 0 {
        Seq::empty()
    } else {
        bstr_enc(encode_utf8(ss[0])) + texts_payload(ss.drop_first())
    }
}

/// Wire form of a list of text strings.
pub open spec fn text_list_enc(ss: Seq<Seq<char>>) -> Seq<u8> {
    seq![TOK_LIST] + texts_payload(ss) + seq![TOK_END]
}

/// Entry holding a list of text strings.
pub open spec fn field_texts(k: Seq<char>, ss: Seq<Seq<char>>) -> Seq<u8> {
    key_enc(k) + text_list_enc(ss)
}

/// Payload of a list of lists of text strings (tracker tiers).
pub open spec fn tiers_payload(ts: Seq<Seq<Seq<char>>>) -> Seq<u8>
    decreases ts.len(),
{
    if ts.len() == 0 {
        Seq::empty()
    } else {
        text_list_enc(ts[0]) + tiers_payload(ts.drop_first())
    }
}

/// Entry holding tracker tiers.
pub open spec fn field_tiers(k: Seq<char>, ts: Seq<Seq<Seq<char>>>) -> Seq<u8> {
    key_enc(k) + seq![TOK_LIST] + tiers_payload(ts) + seq![TOK_END]
}

/// Payload of a list of small integers.
pub open spec fn ints_payload(bs: Seq<u8>) -> Seq<u8>
    decreases bs.len(),
{
    if bs.len() == 0 {
        Seq::empty()
    } else {
        int_enc(bs[0] as int) + ints_payload(bs.drop_first())
    }
}

/// Entry holding a list of small integers.
pub open spec fn field_ints(k: Seq<char>, bs: Seq<u8>) -> Seq<u8> {
    key_enc(k) + seq![TOK_LIST] + ints_payload(bs) + seq![TOK_END]
}

/// Wire form of one unfinished-piece dictionary.
pub open spec fn piece_enc(p: UnfinishedPiece) -> Seq<u8> {
    seq![TOK_DICT] + field_bytes("bitmask"@, p.bitmask@) + field_int("piece"@, p.piece as int)
        + seq![TOK_END]
}

/// Payload of the list of unfinished pieces.
pub open spec fn pieces_payload(ps: Seq<UnfinishedPiece>) -> Seq<u8>
    decreases ps.len(),
{
    if ps.len() == 0 {
        Seq::empty()
    } else {
        piece_enc(ps[0]) + pieces_payload(ps.drop_first())
    }
}

/// Entry holding the list of unfinished pieces.
pub open spec fn field_pieces(k: Seq<char>, ps: Seq<UnfinishedPiece>) -> Seq<u8> {
    key_enc(k) + seq![TOK_LIST] + pieces_payload(ps) + seq![TOK_END]
}

/// Optional integer entry: absent encodes to nothing.
pub open spec fn opt_field_i64(k: Seq<char>, o: Option<i64>) -> Seq<u8> {
    match o {
        Option::None => Seq::empty(),
        Option::Some(v) => field_int(k, v as int),
    }
}

/// Optional small-integer entry.
pub open spec fn opt_field_u8(k: Seq<char>, o: Option<u8>) -> Seq<u8> {
    match o {
        Option::None => Seq::empty(),
        Option::Some(v) => field_int(k, v as int),
    }
}

/// Optional opaque byte-string entry.
pub open spec fn opt_field_bytes(k: Seq<char>, o: Option<Vec<u8>>) -> Seq<u8> {
    match o {
        Option::None => Seq::empty(),
        Option::Some(b) => field_bytes(k, b@),
    }
}

/// Optional text entry.
pub open spec fn opt_field_text(k: Seq<char>, o: Option<String>) -> Seq<u8> {
    match o {
        Option::None => Seq::empty(),
        Option::Some(s) => field_text(k, s@),
    }
}

/// Optional text-list entry.
pub open spec fn opt_field_texts(k: Seq<char>, o: Option<Vec<String>>) -> Seq<u8> {
    match o {
        Option::None => Seq::empty(),
        Option::Some(ss) => field_texts(k, ss.deep_view()),
    }
}

/// Optional small-integer-list entry.
pub open spec fn opt_field_ints(k: Seq<char>, o: Option<Vec<u8>>) -> Seq<u8> {
    match o {
        Option::None => Seq::empty(),
        Option::Some(bs) => field_ints(k, bs@),
    }
}

/// Optional unfinished-pieces entry.
pub open spec fn opt_field_pieces(k: Seq<char>, o: Option<Vec<UnfinishedPiece>>) -> Seq<u8> {
    match o {
        Option::None => Seq::empty(),
        Option::Some(ps) => field_pieces(k, ps@),
    }
}

/// Appending one string extends a text-list payload at its end.
pub proof fn lemma_texts_payload_push(ss: Seq<Seq<char>>, s: Seq<char>)
    ensures
        texts_payload(ss.push(s)) == texts_payload(ss) + bstr_enc(encode_utf8(s)),
    decreases ss.len(),
{
    reveal_with_fuel(texts_payload, 3);
    if ss.len() == 0 {
        assert(ss.push(s).drop_first() =~= Seq::<Seq<char>>::empty());
        assert(ss.push(s)[0] == s);
        assert(texts_payload(ss.push(s).drop_first()) == Seq::<u8>::empty());
        assert(texts_payload(ss.push(s)) =~= texts_payload(ss) + bstr_enc(encode_utf8(s)));
    } else {
        lemma_texts_payload_push(ss.drop_first(), s);
        assert(ss.push(s).drop_first() =~= ss.drop_first().push(s));
        assert(ss.push(s)[0] == ss[0]);
        assert(texts_payload(ss.push(s)) == bstr_enc(encode_utf8(ss[0])) + texts_payload(
            ss.drop_first().push(s),
        ));
        assert(texts_payload(ss.push(s)) =~= texts_payload(ss) + bstr_enc(encode_utf8(s)));
    }
}

/// Appending one tier extends a tiers payload at its end.
pub proof fn lemma_tiers_payload_push(ts: Seq<Seq<Seq<char>>>, t: Seq<Seq<char>>)
    ensures
        tiers_payload(ts.push(t)) == tiers_payload(ts) + text_list_enc(t),
    decreases ts.len(),
{
    reveal_with_fuel(tiers_payload, 3);
    if ts.len() == 0 {
        assert(ts.push(t).drop_first() =~= Seq::<Seq<Seq<char>>>::empty());
        assert(ts.push(t)[0] == t);
        assert(tiers_payload(ts.push(t).drop_first()) == Seq::<u8>::empty());
        assert(tiers_payload(ts.push(t)) =~= tiers_payload(ts) + text_list_enc(t));
    } else {
        lemma_tiers_payload_push(ts.drop_first(), t);
        assert(ts.push(t).drop_first() =~= ts.drop_first().push(t));
        assert(ts.push(t)[0] == ts[0]);
        assert(tiers_payload(ts.push(t)) == text_list_enc(ts[0]) + tiers_payload(
            ts.drop_first().push(t),
        ));
        assert(tiers_payload(ts.push(t)) =~= tiers_payload(ts) + text_list_enc(t));
    }
}

/// Appending one value extends an integer-list payload at its end.
pub proof fn lemma_ints_payload_push(bs: Seq<u8>, b: u8)
    ensures
        ints_payload(bs.push(b)) == ints_payload(bs) + int_enc(b as int),
    decreases bs.len(),
{
    reveal_with_fuel(ints_payload, 3);
    if bs.len() == 0 {
        assert(bs.push(b).drop_first() =~= Seq::<u8>::empty());
        assert(bs.push(b)[0] == b);
        assert(ints_payload(bs.push(b).drop_first()) == Seq::<u8>::empty());
        assert(ints_payload(bs.push(b)) =~= ints_payload(bs) + int_enc(b as int));
    } else {
        lemma_ints_payload_push(bs.drop_first(), b);
        assert(bs.push(b).drop_first() =~= bs.drop_first().push(b));
        assert(bs.push(b)[0] == bs[0]);
        assert(ints_payload(bs.push(b)) == int_enc(bs[0] as int) + ints_payload(
            bs.drop_first().push(b),
        ));
        assert(ints_payload(bs.push(b)) =~= ints_payload(bs) + int_enc(b as int));
    }
}

/// Appending one piece extends the unfinished-pieces payload at its end.
pub proof fn lemma_pieces_payload_push(ps: Seq<UnfinishedPiece>, p: UnfinishedPiece)
    ensures
        pieces_payload(ps.push(p)) == pieces_payload(ps) + piece_enc(p),
    decreases ps.len(),
{
    reveal_with_fuel(pieces_payload, 3);
    if ps.len() == 0 {
        assert(ps.push(p).drop_first() =~= Seq::<UnfinishedPiece>::empty());
        assert(ps.push(p)[0] == p);
        assert(pieces_payload(ps.push(p).drop_first()) == Seq::<u8>::empty());
        assert(pieces_payload(ps.push(p)) =~= pieces_payload(ps) + piece_enc(p));
    } else {
        lemma_pieces_payload_push(ps.drop_first(), p);
        assert(ps.push(p).drop_first() =~= ps.drop_first().push(p));
        assert(ps.push(p)[0] == ps[0]);
        assert(pieces_payload(ps.push(p)) == piece_enc(ps[0]) + pieces_payload(
            ps.drop_first().push(p),
        ));
        assert(pieces_payload(ps.push(p)) =~= pieces_payload(ps) + piece_enc(p));
    }
}

/// Emits an integer entry from an `i64` value.
pub fn emit_field_i64(out: &mut Vec<u8>, k: &str, v: i64)
    ensures
        final(out)@ == old(out)@ + field_int(k@, v as int),
{
    emit_bstr(out, k.as_bytes());
    emit_int(out, v);
    proof {
        assert(out@ =~= old(out)@ + field_int(k@, v as int));
    }
}

/// Emits an integer entry from a `u8` value.
pub fn emit_field_u8(out: &mut Vec<u8>, k: &str, v: u8)
    ensures
        final(out)@ == old(out)@ + field_int(k@, v as int),
{
    emit_field_i64(out, k, v as i64);
}

/// Emits an integer entry from an `i32` value.
pub fn emit_field_i32(out: &mut Vec<u8>, k: &str, v: i32)
    ensures
        final(out)@ == old(out)@ + field_int(k@, v as int),
{
    emit_field_i64(out, k, v as i64);
}

/// Emits an integer entry from a `u64` value.
pub fn emit_field_u64(out: &mut Vec<u8>, k: &str, v: u64)
    ensures
        final(out)@ == old(out)@ + field_int(k@, v as int),
{
    emit_bstr(out, k.as_bytes());
    emit_int_u64(out, v);
    proof {
        assert(out@ =~= old(out)@ + field_int(k@, v as int));
    }
}

/// Emits an opaque byte-string entry.
pub fn emit_field_bytes(out: &mut Vec<u8>, k: &str, b: &Vec<u8>)
    ensures
        final(out)@ == old(out)@ + field_bytes(k@, b@),
{
    emit_bstr(out, k.as_bytes());
    emit_bstr(out, b.as_slice());
    proof {
        assert(out@ =~= old(out)@ + field_bytes(k@, b@));
    }
}

/// Emits a text entry.
pub fn emit_field_text(out: &mut Vec<u8>, k: &str, s: &String)
    ensures
        final(out)@ == old(out)@ + field_text(k@, s@),
{
    emit_bstr(out, k.as_bytes());
    emit_bstr(out, s.as_str().as_bytes());
    proof {
        assert(out@ =~= old(out)@ + field_text(k@, s@));
    }
}

/// Emits the wire form of a list of text strings, without any key.
pub fn emit_text_list(out: &mut Vec<u8>, ss: &Vec<String>)
    ensures
        final(out)@ == old(out)@ + text_list_enc(ss.deep_view()),
{
    out.push(TOK_LIST);
    let mut i: usize = 0;
    while i < ss.len()
        invariant
            i <= ss@.len(),
            out@ == old(out)@ + seq![TOK_LIST] + texts_payload(ss.deep_view().take(i as int)),
        decreases ss@.len() - i,
    {
        emit_bstr(out, ss[i].as_str().as_bytes());
        proof {
            lemma_texts_payload_push(ss.deep_view().take(i as int), ss@[i as int]@);
            assert(ss.deep_view().take(i + 1) =~= ss.deep_view().take(i as int).push(
                ss@[i as int]@,
            ));
            assert(out@ =~= old(out)@ + seq![TOK_LIST] + texts_payload(
                ss.deep_view().take(i + 1),
            ));
        }
        i = i + 1;
    }
    out.push(TOK_END);
    proof {
        assert(ss.deep_view().take(ss@.len() as int) =~= ss.deep_view());
        assert(out@ =~= old(out)@ + text_list_enc(ss.deep_view()));
    }
}

/// Emits a text-list entry.
pub fn emit_field_texts(out: &mut Vec<u8>, k: &str, ss: &Vec<String>)
    ensures
        final(out)@ == old(out)@ + field_texts(k@, ss.deep_view()),
{
    emit_bstr(out, k.as_bytes());
    emit_text_list(out, ss);
    proof {
        assert(out@ =~= old(out)@ + field_texts(k@, ss.deep_view()));
    }
}

/// Emits the tracker-tiers entry.
pub fn emit_field_tiers(out: &mut Vec<u8>, k: &str, ts: &Vec<Vec<String>>)
    ensures
        final(out)@ == old(out)@ + field_tiers(k@, ts.deep_view()),
{
    emit_bstr(out, k.as_bytes());
    out.push(TOK_LIST);
    let mut i: usize = 0;
    while i < ts.len()
        invariant
            i <= ts@.len(),
            out@ == old(out)@ + key_enc(k@) + seq![TOK_LIST] + tiers_payload(
                ts.deep_view().take(i as int),
            ),
        decreases ts@.len() - i,
    {
        emit_text_list(out, &ts[i]);
        proof {
            lemma_tiers_payload_push(ts.deep_view().take(i as int), ts@[i as int].deep_view());
            assert(ts.deep_view().take(i + 1) =~= ts.deep_view().take(i as int).push(
                ts@[i as int].deep_view(),
            ));
            assert(out@ =~= old(out)@ + key_enc(k@) + seq![TOK_LIST] + tiers_payload(
                ts.deep_view().take(i + 1),
            ));
        }
        i = i + 1;
    }
    out.push(TOK_END);
    proof {
        assert(ts.deep_view().take(ts@.len() as int) =~= ts.deep_view());
        assert(out@ =~= old(out)@ + field_tiers(k@, ts.deep_view()));
    }
}

/// Emits a small-integer-list entry.
pub fn emit_field_ints(out: &mut Vec<u8>, k: &str, bs: &Vec<u8>)
    ensures
        final(out)@ == old(out)@ + field_ints(k@, bs@),
{
    emit_bstr(out, k.as_bytes());
    out.push(TOK_LIST);
    let mut i: usize = 0;
    while i < bs.len()
        invariant
            i <= bs@.len(),
            out@ == old(out)@ + key_enc(k@) + seq![TOK_LIST] + ints_payload(bs@.take(i as int)),
        decreases bs@.len() - i,
    {
        emit_int(out, bs[i] as i64);
        proof {
            lemma_ints_payload_push(bs@.take(i as int), bs@[i as int]);
            assert(bs@.take(i + 1) =~= bs@.take(i as int).push(bs@[i as int]));
            assert(out@ =~= old(out)@ + key_enc(k@) + seq![TOK_LIST] + ints_payload(
                bs@.take(i + 1),
            ));
        }
        i = i + 1;
    }
    out.push(TOK_END);
    proof {
        assert(bs@.take(bs@.len() as int) =~= bs@);
        assert(out@ =~= old(out)@ + field_ints(k@, bs@));
    }
}

/// Emits the unfinished-pieces entry.
pub fn emit_field_pieces(out: &mut Vec<u8>, k: &str, ps: &Vec<UnfinishedPiece>)
    ensures
        final(out)@ == old(out)@ + field_pieces(k@, ps@),
{
    emit_bstr(out, k.as_bytes());
    out.push(TOK_LIST);
    let mut i: usize = 0;
    while i < ps.len()
        invariant
            i <= ps@.len(),
            out@ == old(out)@ + key_enc(k@) + seq![TOK_LIST] + pieces_payload(ps@.take(i as int)),
        decreases ps@.len() - i,
    {
        let ghost mid = out@;
        out.push(TOK_DICT);
        emit_field_bytes(out, "bitmask", &ps[i].bitmask);
        emit_field_i64(out, "piece", ps[i].piece);
        out.push(TOK_END);
        proof {
            assert(out@ =~= mid + piece_enc(ps@[i as int]));
            lemma_pieces_payload_push(ps@.take(i as int), ps@[i as int]);
            assert(ps@.take(i + 1) =~= ps@.take(i as int).push(ps@[i as int]));
            assert(out@ =~= old(out)@ + key_enc(k@) + seq![TOK_LIST] + pieces_payload(
                ps@.take(i + 1),
            ));
        }
        i = i + 1;
    }
    out.push(TOK_END);
    proof {
        assert(ps@.take(ps@.len() as int) =~= ps@);
        assert(out@ =~= old(out)@ + field_pieces(k@, ps@));
    }
}

/// Emits an optional `i64` entry.
pub fn emit_opt_field_i64(out: &mut Vec<u8>, k: &str, o: &Option<i64>)
    ensures
        final(out)@ == old(out)@ + opt_field_i64(k@, *o),
{
    match o {
        Option::Some(v) => emit_field_i64(out, k, *v),
        Option::None => {
            proof {
                assert(out@ =~= old(out)@ + opt_field_i64(k@, *o));
            }
        },
    }
}

/// Emits an optional `u8` entry.
pub fn emit_opt_field_u8(out: &mut Vec<u8>, k: &str, o: &Option<u8>)
    ensures
        final(out)@ == old(out)@ + opt_field_u8(k@, *o),
{
    match o {
        Option::Some(v) => emit_field_u8(out, k, *v),
        Option::None => {
            proof {
                assert(out@ =~= old(out)@ + opt_field_u8(k@, *o));
            }
        },
    }
}

/// Emits an optional opaque byte-string entry.
pub fn emit_opt_field_bytes(out: &mut Vec<u8>, k: &str, o: &Option<Vec<u8>>)
    ensures
        final(out)@ == old(out)@ + opt_field_bytes(k@, *o),
{
    match o {
        Option::Some(b) => emit_field_bytes(out, k, b),
        Option::None => {
            proof {
                assert(out@ =~= old(out)@ + opt_field_bytes(k@, *o));
            }
        },
    }
}

/// Emits an optional text entry.
pub fn emit_opt_field_text(out: &mut Vec<u8>, k: &str, o: &Option<String>)
    ensures
        final(out)@ == old(out)@ + opt_field_text(k@, *o),
{
    match o {
        Option::Some(s) => emit_field_text(out, k, s),
        Option::None => {
            proof {
                assert(out@ =~= old(out)@ + opt_field_text(k@, *o));
            }
        },
    }
}

/// Emits an optional text-list entry.
pub fn emit_opt_field_texts(out: &mut Vec<u8>, k: &str, o: &Option<Vec<String>>)
    ensures
        final(out)@ == old(out)@ + opt_field_texts(k@, *o),
{
    match o {
        Option::Some(ss) => emit_field_texts(out, k, ss),
        Option::None => {
            proof {
                assert(out@ =~= old(out)@ + opt_field_texts(k@, *o));
            }
        },
    }
}

/// Emits an optional small-integer-list entry.
pub fn emit_opt_field_ints(out: &mut Vec<u8>, k: &str, o: &Option<Vec<u8>>)
    ensures
        final(out)@ == old(out)@ + opt_field_ints(k@, *o),
{
    match o {
        Option::Some(bs) => emit_field_ints(out, k, bs),
        Option::None => {
            proof {
                assert(out@ =~= old(out)@ + opt_field_ints(k@, *o));
            }
        },
    }
}

/// Emits an optional unfinished-pieces entry.
pub fn emit_opt_field_pieces(out: &mut Vec<u8>, k: &str, o: &Option<Vec<UnfinishedPiece>>)
    ensures
        final(out)@ == old(out)@ + opt_field_pieces(k@, *o),
{
    match o {
        Option::Some(ps) => emit_field_pieces(out, k, ps),
        Option::None => {
            proof {
                assert(out@ =~= old(out)@ + opt_field_pieces(k@, *o));
            }
        },
    }
}

} // verus!
