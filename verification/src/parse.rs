//! Entry-level parsers of the resume-blob decoder.  Each `take_*` function
//! consumes one schema field if its key is next, and proves that the bytes
//! consumed are exactly the field's wire encoding.

use vstd::prelude::*;
use vstd::utf8::valid_utf8;
use crate::benc::{
    bytes_eq, parse_bstr, parse_int, DecodeError, TOK_DICT, TOK_END, TOK_LIST,
};
use crate::fields::{
    field_bytes, field_int, field_pieces, field_text, field_texts, field_tiers, field_ints,
    opt_field_bytes, opt_field_i64, opt_field_ints, opt_field_pieces, opt_field_text,
    opt_field_texts, opt_field_u8,
    key_enc, lemma_pieces_payload_push, lemma_texts_payload_push, lemma_tiers_payload_push,
    lemma_ints_payload_push, piece_enc, pieces_payload, text_list_enc, texts_payload,
    ints_payload, tiers_payload,
};
use crate::record::UnfinishedPiece;
use crate::text::{utf8_check, vec_to_string};

verus! {

/// Consumes the wire form of the key `k` if it is the next token; leaves the
/// position unchanged when the next token is a different key or the
/// dictionary end.
pub fn take_key(buf: &[u8], pos: &mut usize, k: &str) -> (r: Result<bool, DecodeError>)
    requires
        *old(pos) <= buf@.len(),
    ensures
        *final(pos) <= buf@.len(),
        r matches Ok(true) ==> *old(pos) <= *final(pos) && buf@.subrange(
            *old(pos) as int,
            *final(pos) as int,
        ) == key_enc(k@),
        r matches Ok(false) ==> *final(pos) == *old(pos),
{
    let start = *pos;
    if *pos >= buf.len() {
        return Err(DecodeError::Truncated);
    }
    if buf[*pos] == TOK_END {
        return Ok(false);
    }
    let kb = match parse_bstr(buf, pos) {
        Ok(kb) => kb,
        Err(e) => {
            return Err(e);
        },
    };
    if bytes_eq(kb.as_slice(), k.as_bytes()) {
        Ok(true)
    } else {
        *pos = start;
        Ok(false)
    }
}

/// Takes an optional integer field into an `i64`.
pub fn take_opt_i64(buf: &[u8], pos: &mut usize, k: &str) -> (r: Result<
    Option<i64>,
    DecodeError,
>)
    requires
        *old(pos) <= buf@.len(),
    ensures
        *final(pos) <= buf@.len(),
        r matches Ok(o) ==> *old(pos) <= *final(pos) && buf@.subrange(
            *old(pos) as int,
            *final(pos) as int,
        ) == opt_field_i64(k@, o),
{
    let present = match take_key(buf, pos, k) {
        Ok(p) => p,
        Err(e) => {
            return Err(e);
        },
    };
    if !present {
        proof {
            assert(buf@.subrange(*old(pos) as int, *pos as int) =~= opt_field_i64(
                k@,
                Option::<i64>::None,
            ));
        }
        return Ok(None);
    }
    let v = match parse_int(buf, pos) {
        Ok(v) => v,
        Err(e) => {
            return Err(e);
        },
    };
    if v < i64::MIN as i128 || v > i64::MAX as i128 {
        return Err(DecodeError::IntOutOfRange);
    }
    proof {
        assert(buf@.subrange(*old(pos) as int, *pos as int) =~= field_int(k@, v as int));
    }
    Ok(Some(v as i64))
}

/// Takes a mandatory integer field into an `i64`.
pub fn take_i64(buf: &[u8], pos: &mut usize, k: &str) -> (r: Result<i64, DecodeError>)
    requires
        *old(pos) <= buf@.len(),
    ensures
        *final(pos) <= buf@.len(),
        r matches Ok(v) ==> *old(pos) <= *final(pos) && buf@.subrange(
            *old(pos) as int,
            *final(pos) as int,
        ) == field_int(k@, v as int),
{
    match take_opt_i64(buf, pos, k) {
        Ok(Some(v)) => Ok(v),
        Ok(None) => Err(DecodeError::MissingField),
        Err(e) => Err(e),
    }
}

/// Takes an optional integer field into a `u8`.
pub fn take_opt_u8(buf: &[u8], pos: &mut usize, k: &str) -> (r: Result<Option<u8>, DecodeError>)
    requires
        *old(pos) <= buf@.len(),
    ensures
        *final(pos) <= buf@.len(),
        r matches Ok(o) ==> *old(pos) <= *final(pos) && buf@.subrange(
            *old(pos) as int,
            *final(pos) as int,
        ) == opt_field_u8(k@, o),
{
    match take_opt_i64(buf, pos, k) {
        Ok(Some(v)) => {
            if v < 0 || v > 255 {
                Err(DecodeError::IntOutOfRange)
            } else {
                Ok(Some(v as u8))
            }
        },
        Ok(None) => Ok(None),
        Err(e) => Err(e),
    }
}

/// Takes a mandatory integer field into a `u8`.
pub fn take_u8(buf: &[u8], pos: &mut usize, k: &str) -> (r: Result<u8, DecodeError>)
    requires
        *old(pos) <= buf@.len(),
    ensures
        *final(pos) <= buf@.len(),
        r matches Ok(v) ==> *old(pos) <= *final(pos) && buf@.subrange(
            *old(pos) as int,
            *final(pos) as int,
        ) == field_int(k@, v as int),
{
    match take_opt_u8(buf, pos, k) {
        Ok(Some(v)) => Ok(v),
        Ok(None) => Err(DecodeError::MissingField),
        Err(e) => Err(e),
    }
}

/// Takes a mandatory integer field into an `i32`.
pub fn take_i32(buf: &[u8], pos: &mut usize, k: &str) -> (r: Result<i32, DecodeError>)
    requires
        *old(pos) <= buf@.len(),
    ensures
        *final(pos) <= buf@.len(),
        r matches Ok(v) ==> *old(pos) <= *final(pos) && buf@.subrange(
            *old(pos) as int,
            *final(pos) as int,
        ) == field_int(k@, v as int),
{
    match take_i64(buf, pos, k) {
        Ok(v) => {
            if v < i32::MIN as i64 || v > i32::MAX as i64 {
                Err(DecodeError::IntOutOfRange)
            } else {
                Ok(v as i32)
            }
        },
        Err(e) => Err(e),
    }
}

/// Takes a mandatory integer field into a `u64`.
pub fn take_u64(buf: &[u8], pos: &mut usize, k: &str) -> (r: Result<u64, DecodeError>)
    requires
        *old(pos) <= buf@.len(),
    ensures
        *final(pos) <= buf@.len(),
        r matches Ok(v) ==> *old(pos) <= *final(pos) && buf@.subrange(
            *old(pos) as int,
            *final(pos) as int,
        ) == field_int(k@, v as int),
{
    let present = match take_key(buf, pos, k) {
        Ok(p) => p,
        Err(e) => {
            return Err(e);
        },
    };
    if !present {
        return Err(DecodeError::MissingField);
    }
    let v = match parse_int(buf, pos) {
        Ok(v) => v,
        Err(e) => {
            return Err(e);
        },
    };
    if v < 0 || v > u64::MAX as i128 {
        return Err(DecodeError::IntOutOfRange);
    }
    proof {
        assert(buf@.subrange(*old(pos) as int, *pos as int) =~= field_int(k@, v as int));
    }
    Ok(v as u64)
}

/// Takes an optional opaque byte-string field.
pub fn take_opt_bytes(buf: &[u8], pos: &mut usize, k: &str) -> (r: Result<
    Option<Vec<u8>>,
    DecodeError,
>)
    requires
        *old(pos) <= buf@.len(),
    ensures
        *final(pos) <= buf@.len(),
        r matches Ok(o) ==> *old(pos) <= *final(pos) && buf@.subrange(
            *old(pos) as int,
            *final(pos) as int,
        ) == opt_field_bytes(k@, o),
{
    let present = match take_key(buf, pos, k) {
        Ok(p) => p,
        Err(e) => {
            return Err(e);
        },
    };
    if !present {
        proof {
            assert(buf@.subrange(*old(pos) as int, *pos as int) =~= opt_field_bytes(
                k@,
                Option::<Vec<u8>>::None,
            ));
        }
        return Ok(None);
    }
    let b = match parse_bstr(buf, pos) {
        Ok(b) => b,
        Err(e) => {
            return Err(e);
        },
    };
    proof {
        assert(buf@.subrange(*old(pos) as int, *pos as int) =~= field_bytes(k@, b@));
        assert(buf@.subrange(*old(pos) as int, *pos as int) == opt_field_bytes(k@, Some(b)));
    }
    Ok(Some(b))
}

/// Takes a mandatory opaque byte-string field.
pub fn take_bytes(buf: &[u8], pos: &mut usize, k: &str) -> (r: Result<Vec<u8>, DecodeError>)
    requires
        *old(pos) <= buf@.len(),
    ensures
        *final(pos) <= buf@.len(),
        r matches Ok(b) ==> *old(pos) <= *final(pos) && buf@.subrange(
            *old(pos) as int,
            *final(pos) as int,
        ) == field_bytes(k@, b@),
{
    match take_opt_bytes(buf, pos, k) {
        Ok(Some(b)) => Ok(b),
        Ok(None) => Err(DecodeError::MissingField),
        Err(e) => Err(e),
    }
}

/// Takes a mandatory byte-string field that must hold valid UTF-8, keeping
/// the raw bytes.
pub fn take_bytes_utf8(buf: &[u8], pos: &mut usize, k: &str) -> (r: Result<Vec<u8>, DecodeError>)
    requires
        *old(pos) <= buf@.len(),
    ensures
        *final(pos) <= buf@.len(),
        r matches Ok(b) ==> *old(pos) <= *final(pos) && buf@.subrange(
            *old(pos) as int,
            *final(pos) as int,
        ) == field_bytes(k@, b@) && valid_utf8(b@),
{
    let b = match take_bytes(buf, pos, k) {
        Ok(b) => b,
        Err(e) => {
            return Err(e);
        },
    };
    if !utf8_check(b.as_slice()) {
        return Err(DecodeError::InvalidText);
    }
    Ok(b)
}

/// Takes an optional text field.
pub fn take_opt_text(buf: &[u8], pos: &mut usize, k: &str) -> (r: Result<
    Option<String>,
    DecodeError,
>)
    requires
        *old(pos) <= buf@.len(),
    ensures
        *final(pos) <= buf@.len(),
        r matches Ok(o) ==> *old(pos) <= *final(pos) && buf@.subrange(
            *old(pos) as int,
            *final(pos) as int,
        ) == opt_field_text(k@, o),
{
    let b = match take_opt_bytes(buf, pos, k) {
        Ok(Some(b)) => b,
        Ok(None) => {
            return Ok(None);
        },
        Err(e) => {
            return Err(e);
        },
    };
    if !utf8_check(b.as_slice()) {
        return Err(DecodeError::InvalidText);
    }
    let s = vec_to_string(b);
    proof {
        assert(buf@.subrange(*old(pos) as int, *pos as int) =~= field_text(k@, s@));
        assert(buf@.subrange(*old(pos) as int, *pos as int) == opt_field_text(k@, Some(s)));
    }
    Ok(Some(s))
}

/// Parses one wire list of text strings, without any key.
pub fn parse_text_list(buf: &[u8], pos: &mut usize) -> (r: Result<Vec<String>, DecodeError>)
    requires
        *old(pos) <= buf@.len(),
    ensures
        *final(pos) <= buf@.len(),
        r matches Ok(ss) ==> *old(pos) < *final(pos) && buf@.subrange(
            *old(pos) as int,
            *final(pos) as int,
        ) == text_list_enc(ss.deep_view()),
{
    let start = *pos;
    if *pos >= buf.len() {
        return Err(DecodeError::Truncated);
    }
    if buf[*pos] != TOK_LIST {
        return Err(DecodeError::Malformed);
    }
    *pos = *pos + 1;
    let mut ss: Vec<String> = Vec::new();
    while *pos < buf.len() && buf[*pos] != TOK_END
        invariant
            start < *pos <= buf@.len(),
            buf@.subrange(start + 1, *pos as int) == texts_payload(ss.deep_view()),
        decreases buf@.len() - *pos,
    {
        let ghost p1 = *pos;
        let b = match parse_bstr(buf, pos) {
            Ok(b) => b,
            Err(e) => {
                return Err(e);
            },
        };
        if !utf8_check(b.as_slice()) {
            return Err(DecodeError::InvalidText);
        }
        let ghost prev = ss.deep_view();
        let s = vec_to_string(b);
        ss.push(s);
        proof {
            assert(ss.deep_view() =~= prev.push(s@));
            lemma_texts_payload_push(prev, s@);
            assert(buf@.subrange(start + 1, *pos as int) =~= texts_payload(ss.deep_view()));
        }
    }
    if *pos >= buf.len() {
        return Err(DecodeError::Truncated);
    }
    *pos = *pos + 1;
    proof {
        assert(buf@.subrange(start as int, *pos as int) =~= text_list_enc(ss.deep_view()));
    }
    Ok(ss)
}

/// Takes a mandatory text-list field.
pub fn take_texts(buf: &[u8], pos: &mut usize, k: &str) -> (r: Result<Vec<String>, DecodeError>)
    requires
        *old(pos) <= buf@.len(),
    ensures
        *final(pos) <= buf@.len(),
        r matches Ok(ss) ==> *old(pos) <= *final(pos) && buf@.subrange(
            *old(pos) as int,
            *final(pos) as int,
        ) == field_texts(k@, ss.deep_view()),
{
    let present = match take_key(buf, pos, k) {
        Ok(p) => p,
        Err(e) => {
            return Err(e);
        },
    };
    if !present {
        return Err(DecodeError::MissingField);
    }
    let ss = match parse_text_list(buf, pos) {
        Ok(ss) => ss,
        Err(e) => {
            return Err(e);
        },
    };
    proof {
        assert(buf@.subrange(*old(pos) as int, *pos as int) =~= field_texts(k@, ss.deep_view()));
    }
    Ok(ss)
}

/// Takes an optional text-list field.
pub fn take_opt_texts(buf: &[u8], pos: &mut usize, k: &str) -> (r: Result<
    Option<Vec<String>>,
    DecodeError,
>)
    requires
        *old(pos) <= buf@.len(),
    ensures
        *final(pos) <= buf@.len(),
        r matches Ok(o) ==> *old(pos) <= *final(pos) && buf@.subrange(
            *old(pos) as int,
            *final(pos) as int,
        ) == opt_field_texts(k@, o),
{
    let present = match take_key(buf, pos, k) {
        Ok(p) => p,
        Err(e) => {
            return Err(e);
        },
    };
    if !present {
        proof {
            assert(buf@.subrange(*old(pos) as int, *pos as int) =~= opt_field_texts(
                k@,
                Option::<Vec<String>>::None,
            ));
        }
        return Ok(None);
    }
    let ss = match parse_text_list(buf, pos) {
        Ok(ss) => ss,
        Err(e) => {
            return Err(e);
        },
    };
    proof {
        assert(buf@.subrange(*old(pos) as int, *pos as int) =~= field_texts(k@, ss.deep_view()));
        assert(buf@.subrange(*old(pos) as int, *pos as int) == opt_field_texts(k@, Some(ss)));
    }
    Ok(Some(ss))
}

/// Parses one wire list of tracker tiers, without any key.
pub fn parse_tier_list(buf: &[u8], pos: &mut usize) -> (r: Result<Vec<Vec<String>>, DecodeError>)
    requires
        *old(pos) <= buf@.len(),
    ensures
        *final(pos) <= buf@.len(),
        r matches Ok(ts) ==> *old(pos) < *final(pos) && buf@.subrange(
            *old(pos) as int,
            *final(pos) as int,
        ) == seq![TOK_LIST] + tiers_payload(ts.deep_view()) + seq![TOK_END],
{
    let start = *pos;
    if *pos >= buf.len() {
        return Err(DecodeError::Truncated);
    }
    if buf[*pos] != TOK_LIST {
        return Err(DecodeError::Malformed);
    }
    *pos = *pos + 1;
    let mut ts: Vec<Vec<String>> = Vec::new();
    while *pos < buf.len() && buf[*pos] != TOK_END
        invariant
            start < *pos <= buf@.len(),
            buf@.subrange(start + 1, *pos as int) == tiers_payload(ts.deep_view()),
        decreases buf@.len() - *pos,
    {
        let tier = match parse_text_list(buf, pos) {
            Ok(t) => t,
            Err(e) => {
                return Err(e);
            },
        };
        let ghost prev = ts.deep_view();
        ts.push(tier);
        proof {
            assert(ts.deep_view() =~= prev.push(ts@[ts@.len() - 1].deep_view()));
            lemma_tiers_payload_push(prev, ts@[ts@.len() - 1].deep_view());
            assert(buf@.subrange(start + 1, *pos as int) =~= tiers_payload(ts.deep_view()));
        }
    }
    if *pos >= buf.len() {
        return Err(DecodeError::Truncated);
    }
    *pos = *pos + 1;
    proof {
        assert(buf@.subrange(start as int, *pos as int) =~= seq![TOK_LIST] + tiers_payload(
            ts.deep_view(),
        ) + seq![TOK_END]);
    }
    Ok(ts)
}

/// Takes the mandatory tracker-tiers field.
pub fn take_tiers(buf: &[u8], pos: &mut usize, k: &str) -> (r: Result<
    Vec<Vec<String>>,
    DecodeError,
>)
    requires
        *old(pos) <= buf@.len(),
    ensures
        *final(pos) <= buf@.len(),
        r matches Ok(ts) ==> *old(pos) <= *final(pos) && buf@.subrange(
            *old(pos) as int,
            *final(pos) as int,
        ) == field_tiers(k@, ts.deep_view()),
{
    let present = match take_key(buf, pos, k) {
        Ok(p) => p,
        Err(e) => {
            return Err(e);
        },
    };
    if !present {
        return Err(DecodeError::MissingField);
    }
    let ghost key_end = *pos;
    let ts = match parse_tier_list(buf, pos) {
        Ok(ts) => ts,
        Err(e) => {
            return Err(e);
        },
    };
    proof {
        assert(buf@.subrange(*old(pos) as int, *pos as int) =~= buf@.subrange(
            *old(pos) as int,
            key_end as int,
        ) + buf@.subrange(key_end as int, *pos as int));
        assert(buf@.subrange(*old(pos) as int, *pos as int) =~= field_tiers(k@, ts.deep_view()));
    }
    Ok(ts)
}

/// Parses one wire list of small integers, without any key.
pub fn parse_int_list(buf: &[u8], pos: &mut usize) -> (r: Result<Vec<u8>, DecodeError>)
    requires
        *old(pos) <= buf@.len(),
    ensures
        *final(pos) <= buf@.len(),
        r matches Ok(bs) ==> *old(pos) < *final(pos) && buf@.subrange(
            *old(pos) as int,
            *final(pos) as int,
        ) == seq![TOK_LIST] + ints_payload(bs@) + seq![TOK_END],
{
    let start = *pos;
    if *pos >= buf.len() {
        return Err(DecodeError::Truncated);
    }
    if buf[*pos] != TOK_LIST {
        return Err(DecodeError::Malformed);
    }
    *pos = *pos + 1;
    let mut bs: Vec<u8> = Vec::new();
    while *pos < buf.len() && buf[*pos] != TOK_END
        invariant
            start < *pos <= buf@.len(),
            buf@.subrange(start + 1, *pos as int) == ints_payload(bs@),
        decreases buf@.len() - *pos,
    {
        let v = match parse_int(buf, pos) {
            Ok(v) => v,
            Err(e) => {
                return Err(e);
            },
        };
        if v < 0 || v > 255 {
            return Err(DecodeError::IntOutOfRange);
        }
        let ghost prev = bs@;
        bs.push(v as u8);
        proof {
            lemma_ints_payload_push(prev, (v as u8));
            assert(buf@.subrange(start + 1, *pos as int) =~= ints_payload(bs@));
        }
    }
    if *pos >= buf.len() {
        return Err(DecodeError::Truncated);
    }
    *pos = *pos + 1;
    proof {
        assert(buf@.subrange(start as int, *pos as int) =~= seq![TOK_LIST] + ints_payload(bs@)
            + seq![TOK_END]);
    }
    Ok(bs)
}

/// Takes an optional list of small integers.
pub fn take_opt_ints(buf: &[u8], pos: &mut usize, k: &str) -> (r: Result<
    Option<Vec<u8>>,
    DecodeError,
>)
    requires
        *old(pos) <= buf@.len(),
    ensures
        *final(pos) <= buf@.len(),
        r matches Ok(o) ==> *old(pos) <= *final(pos) && buf@.subrange(
            *old(pos) as int,
            *final(pos) as int,
        ) == opt_field_ints(k@, o),
{
    let present = match take_key(buf, pos, k) {
        Ok(p) => p,
        Err(e) => {
            return Err(e);
        },
    };
    if !present {
        proof {
            assert(buf@.subrange(*old(pos) as int, *pos as int) =~= opt_field_ints(
                k@,
                Option::<Vec<u8>>::None,
            ));
        }
        return Ok(None);
    }
    let ghost key_end = *pos;
    let bs = match parse_int_list(buf, pos) {
        Ok(bs) => bs,
        Err(e) => {
            return Err(e);
        },
    };
    proof {
        assert(buf@.subrange(*old(pos) as int, *pos as int) =~= buf@.subrange(
            *old(pos) as int,
            key_end as int,
        ) + buf@.subrange(key_end as int, *pos as int));
        assert(buf@.subrange(*old(pos) as int, *pos as int) =~= field_ints(k@, bs@));
        assert(buf@.subrange(*old(pos) as int, *pos as int) == opt_field_ints(k@, Some(bs)));
    }
    Ok(Some(bs))
}

/// Parses one wire list of unfinished-piece dictionaries, without any key.
pub fn parse_piece_list(buf: &[u8], pos: &mut usize) -> (r: Result<
    Vec<UnfinishedPiece>,
    DecodeError,
>)
    requires
        *old(pos) <= buf@.len(),
    ensures
        *final(pos) <= buf@.len(),
        r matches Ok(ps) ==> *old(pos) < *final(pos) && buf@.subrange(
            *old(pos) as int,
            *final(pos) as int,
        ) == seq![TOK_LIST] + pieces_payload(ps@) + seq![TOK_END],
{
    let start = *pos;
    if *pos >= buf.len() {
        return Err(DecodeError::Truncated);
    }
    if buf[*pos] != TOK_LIST {
        return Err(DecodeError::Malformed);
    }
    *pos = *pos + 1;
    let mut ps: Vec<UnfinishedPiece> = Vec::new();
    while *pos < buf.len() && buf[*pos] != TOK_END
        invariant
            start < *pos <= buf@.len(),
            buf@.subrange(start + 1, *pos as int) == pieces_payload(ps@),
        decreases buf@.len() - *pos,
    {
        let ghost entry_start = *pos;
        if buf[*pos] != TOK_DICT {
            return Err(DecodeError::Malformed);
        }
        *pos = *pos + 1;
        let bitmask = match take_bytes(buf, pos, "bitmask") {
            Ok(b) => b,
            Err(e) => {
                return Err(e);
            },
        };
        let piece = match take_i64(buf, pos, "piece") {
            Ok(v) => v,
            Err(e) => {
                return Err(e);
            },
        };
        if *pos >= buf.len() {
            return Err(DecodeError::Truncated);
        }
        if buf[*pos] != TOK_END {
            return Err(DecodeError::Malformed);
        }
        *pos = *pos + 1;
        let ghost prev = ps@;
        let p = UnfinishedPiece { bitmask, piece };
        ps.push(p);
        proof {
            assert(buf@.subrange(entry_start as int, *pos as int) =~= piece_enc(p));
            lemma_pieces_payload_push(prev, p);
            assert(buf@.subrange(start + 1, *pos as int) =~= pieces_payload(ps@));
        }
    }
    if *pos >= buf.len() {
        return Err(DecodeError::Truncated);
    }
    *pos = *pos + 1;
    proof {
        assert(buf@.subrange(start as int, *pos as int) =~= seq![TOK_LIST] + pieces_payload(ps@)
            + seq![TOK_END]);
    }
    Ok(ps)
}

/// Takes the optional unfinished-pieces field.
pub fn take_opt_pieces(buf: &[u8], pos: &mut usize, k: &str) -> (r: Result<
    Option<Vec<UnfinishedPiece>>,
    DecodeError,
>)
    requires
        *old(pos) <= buf@.len(),
    ensures
        *final(pos) <= buf@.len(),
        r matches Ok(o) ==> *old(pos) <= *final(pos) && buf@.subrange(
            *old(pos) as int,
            *final(pos) as int,
        ) == opt_field_pieces(k@, o),
{
    let present = match take_key(buf, pos, k) {
        Ok(p) => p,
        Err(e) => {
            return Err(e);
        },
    };
    if !present {
        proof {
            assert(buf@.subrange(*old(pos) as int, *pos as int) =~= opt_field_pieces(
                k@,
                Option::<Vec<UnfinishedPiece>>::None,
            ));
        }
        return Ok(None);
    }
    let ghost key_end = *pos;
    let ps = match parse_piece_list(buf, pos) {
        Ok(ps) => ps,
        Err(e) => {
            return Err(e);
        },
    };
    proof {
        assert(buf@.subrange(*old(pos) as int, *pos as int) =~= buf@.subrange(
            *old(pos) as int,
            key_end as int,
        ) + buf@.subrange(key_end as int, *pos as int));
        assert(buf@.subrange(*old(pos) as int, *pos as int) =~= field_pieces(k@, ps@));
        assert(buf@.subrange(*old(pos) as int, *pos as int) == opt_field_pieces(k@, Some(ps)));
    }
    Ok(Some(ps))
}

} // verus!
