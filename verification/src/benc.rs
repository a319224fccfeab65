//! Primitive layer of the resume-blob codec: canonical encodings of integers
//! and byte strings in the length-prefixed dictionary format, with exec
//! emitters and parsers proved against the spec-level encodings.

use vstd::prelude::*;

verus! {

/// Byte that opens an integer.
pub const TOK_INT: u8 = 105;

/// Byte that opens a list.
pub const TOK_LIST: u8 = 108;

/// Byte that opens a dictionary.
pub const TOK_DICT: u8 = 100;

/// Byte that closes an integer, list or dictionary.
pub const TOK_END: u8 = 101;

/// Byte that separates a length prefix from its payload.
pub const TOK_COLON: u8 = 58;

/// Byte for the minus sign.
pub const TOK_MINUS: u8 = 45;

/// Canonical decimal digits of `n`: no leading zeros, most significant first.
pub open spec fn dec_digits(n: nat) -> Seq<u8>
    decreases n,
{
    if n < 10 {
        seq![(48 + n) as u8]
    } else {
        dec_digits(n / 10) + seq![(48 + n % 10) as u8]
    }
}

/// Wire form of an integer: `i`, optional minus sign, canonical digits, `e`.
pub open spec fn int_enc(v: int) -> Seq<u8> {
    if v < 0 {
        seq![TOK_INT, TOK_MINUS] + dec_digits((-v) as nat) + seq![TOK_END]
    } else {
        seq![TOK_INT] + dec_digits(v as nat) + seq![TOK_END]
    }
}

/// Wire form of a byte string: decimal length, `:`, then the raw bytes.
pub open spec fn bstr_enc(b: Seq<u8>) -> Seq<u8> {
    dec_digits(b.len()) + seq![TOK_COLON] + b
}

/// Appends every byte of `b` to `out`.
pub fn push_bytes(out: &mut Vec<u8>, b: &[u8])
    ensures
        final(out)@ == old(out)@ + b@,
{
    let mut i: usize = 0;
    while i < b.len()
        invariant
            i <= b.len(),
            out@ == old(out)@ + b@.take(i as int),
        decreases b.len() - i,
    {
        out.push(b[i]);
        i = i + 1;
        proof {
            assert(out@ =~= old(out)@ + b@.take(i as int));
        }
    }
    proof {
        assert(out@ =~= old(out)@ + b@);
    }
}

/// Appends the canonical decimal digits of `n`.
pub fn push_dec(out: &mut Vec<u8>, n: u64)
    ensures
        final(out)@ == old(out)@ + dec_digits(n as nat),
    decreases n,
{
    if n < 10 {
        out.push((48 + n) as u8);
        proof {
            assert(out@ =~= old(out)@ + dec_digits(n as nat));
        }
    } else {
        push_dec(out, n / 10);
        out.push((48 + n % 10) as u8);
        proof {
            assert(dec_digits(n as nat) == dec_digits((n as nat) / 10) + seq![
                (48 + (n as nat) % 10) as u8,
            ]);
            assert((n / 10) as nat == (n as nat) / 10);
            assert((n % 10) as nat == (n as nat) % 10);
            assert(out@ =~= old(out)@ + dec_digits(n as nat));
        }
    }
}

/// Appends the wire form of a non-negative integer given as `u64`.
pub fn emit_int_u64(out: &mut Vec<u8>, v: u64)
    ensures
        final(out)@ == old(out)@ + int_enc(v as int),
{
    out.push(TOK_INT);
    push_dec(out, v);
    out.push(TOK_END);
    proof {
        assert(out@ =~= old(out)@ + int_enc(v as int));
    }
}

/// Appends the wire form of a signed integer.
pub fn emit_int(out: &mut Vec<u8>, v: i64)
    ensures
        final(out)@ == old(out)@ + int_enc(v as int),
{
    if v >= 0 {
        out.push(TOK_INT);
        push_dec(out, v as u64);
        out.push(TOK_END);
        proof {
            assert(out@ =~= old(out)@ + int_enc(v as int));
        }
    } else {
        out.push(TOK_INT);
        out.push(TOK_MINUS);
        let mag: u64 = if v == i64::MIN {
            9223372036854775808u64
        } else {
            (-v) as u64
        };
        proof {
            assert(mag as nat == (-(v as int)) as nat);
        }
        push_dec(out, mag);
        out.push(TOK_END);
        proof {
            assert(out@ =~= old(out)@ + int_enc(v as int));
        }
    }
}

/// Appends the wire form of a byte string.
pub fn emit_bstr(out: &mut Vec<u8>, b: &[u8])
    ensures
        final(out)@ == old(out)@ + bstr_enc(b@),
{
    push_dec(out, b.len() as u64);
    out.push(TOK_COLON);
    push_bytes(out, b);
    proof {
        assert((b.len() as u64) as nat == b@.len());
        assert(out@ =~= old(out)@ + bstr_enc(b@));
    }
}

/// Why a resume blob was rejected.
#[derive(Debug, PartialEq, Eq, Clone, Copy)]
pub enum DecodeError {
    /// The input ended before the structure was complete.
    Truncated,
    /// A token did not follow the wire grammar or the required key order.
    Malformed,
    /// A mandatory field was not present.
    MissingField,
    /// A text field did not hold valid UTF-8.
    InvalidText,
    /// An integer did not fit the range of its field.
    IntOutOfRange,
    /// Bytes remained after the outer dictionary closed.
    TrailingData,
}

/// Parses a canonical decimal number.  On success the consumed bytes are
/// exactly the canonical digits of the value.
pub fn parse_dec(buf: &[u8], pos: &mut usize) -> (r: Result<u64, DecodeError>)
    requires
        *old(pos) <= buf@.len(),
    ensures
        *final(pos) <= buf@.len(),
        r matches Ok(v) ==> *old(pos) < *final(pos)
            && buf@.subrange(*old(pos) as int, *final(pos) as int) == dec_digits(v as nat),
{
    let ghost start = *pos;
    if *pos >= buf.len() {
        return Err(DecodeError::Truncated);
    }
    let c0 = buf[*pos];
    if c0 < 48 || c0 > 57 {
        return Err(DecodeError::Malformed);
    }
    if c0 == 48 {
        // A leading zero is canonical only as the single digit 0.
        *pos = *pos + 1;
        proof {
            assert(buf@.subrange(start as int, *pos as int) =~= dec_digits(0));
        }
        return Ok(0);
    }
    let mut v: u64 = (c0 - 48) as u64;
    *pos = *pos + 1;
    proof {
        assert(buf@.subrange(start as int, *pos as int) =~= dec_digits(v as nat));
    }
    while *pos < buf.len() && 48 <= buf[*pos] && buf[*pos] <= 57
        invariant
            start <= *pos <= buf@.len(),
            1 <= v,
            buf@.subrange(start as int, *pos as int) == dec_digits(v as nat),
        decreases buf@.len() - *pos,
    {
        let d = (buf[*pos] - 48) as u64;
        if v > (u64::MAX - d) / 10 {
            return Err(DecodeError::IntOutOfRange);
        }
        proof {
            assert(v * 10 + d <= u64::MAX) by (nonlinear_arith)
                requires
                    d < 10,
                    v <= (u64::MAX - d) / 10,
            ;
        }
        let v2 = v * 10 + d;
        proof {
            assert((v2 as nat) / 10 == v as nat && (v2 as nat) % 10 == d as nat)
                by (nonlinear_arith)
                requires
                    v2 == v * 10 + d,
                    d < 10,
                    1 <= v,
            ;
            assert(dec_digits(v2 as nat) == dec_digits(v as nat) + seq![(48 + d) as u8]);
        }
        v = v2;
        *pos = *pos + 1;
        proof {
            assert(buf@.subrange(start as int, *pos as int) =~= dec_digits(v as nat));
        }
    }
    Ok(v)
}

/// Parses one wire integer.  The value is returned as `i128` so that the
/// full signed and unsigned 64-bit ranges both fit; callers narrow it.
pub fn parse_int(buf: &[u8], pos: &mut usize) -> (r: Result<i128, DecodeError>)
    requires
        *old(pos) <= buf@.len(),
    ensures
        *final(pos) <= buf@.len(),
        r matches Ok(v) ==> *old(pos) < *final(pos) && buf@.subrange(
            *old(pos) as int,
            *final(pos) as int,
        ) == int_enc(v as int),
{
    let ghost start = *pos;
    if *pos >= buf.len() {
        return Err(DecodeError::Truncated);
    }
    if buf[*pos] != TOK_INT {
        return Err(DecodeError::Malformed);
    }
    *pos = *pos + 1;
    let neg: bool = if *pos < buf.len() && buf[*pos] == TOK_MINUS {
        *pos = *pos + 1;
        true
    } else {
        false
    };
    let ghost digits_start = *pos;
    let mag = match parse_dec(buf, pos) {
        Ok(m) => m,
        Err(e) => {
            return Err(e);
        },
    };
    if neg && mag == 0 {
        return Err(DecodeError::Malformed);
    }
    if *pos >= buf.len() {
        return Err(DecodeError::Truncated);
    }
    if buf[*pos] != TOK_END {
        return Err(DecodeError::Malformed);
    }
    *pos = *pos + 1;
    let v: i128 = if neg {
        -(mag as i128)
    } else {
        mag as i128
    };
    proof {
        if neg {
            assert((-(v as int)) as nat == mag as nat);
            assert(buf@.subrange(start as int, *pos as int) =~= int_enc(v as int));
        } else {
            assert(buf@.subrange(start as int, *pos as int) =~= int_enc(v as int));
        }
    }
    Ok(v)
}

/// Parses one wire byte string and returns its payload.
pub fn parse_bstr(buf: &[u8], pos: &mut usize) -> (r: Result<Vec<u8>, DecodeError>)
    requires
        *old(pos) <= buf@.len(),
    ensures
        *final(pos) <= buf@.len(),
        r matches Ok(b) ==> *old(pos) < *final(pos) && buf@.subrange(
            *old(pos) as int,
            *final(pos) as int,
        ) == bstr_enc(b@),
{
    let ghost start = *pos;
    let n = match parse_dec(buf, pos) {
        Ok(n) => n,
        Err(e) => {
            return Err(e);
        },
    };
    if *pos >= buf.len() {
        return Err(DecodeError::Truncated);
    }
    if buf[*pos] != TOK_COLON {
        return Err(DecodeError::Malformed);
    }
    *pos = *pos + 1;
    let ghost payload_start = *pos;
    if n > (buf.len() - *pos) as u64 {
        return Err(DecodeError::Truncated);
    }
    let len = n as usize;
    let mut b: Vec<u8> = Vec::new();
    let mut i: usize = 0;
    while i < len
        invariant
            i <= len,
            payload_start + len <= buf@.len(),
            *pos == payload_start + i,
            b@ == buf@.subrange(payload_start as int, (payload_start + i) as int),
        decreases len - i,
    {
        b.push(buf[*pos]);
        *pos = *pos + 1;
        i = i + 1;
        proof {
            assert(b@ =~= buf@.subrange(payload_start as int, (payload_start + i) as int));
        }
    }
    proof {
        assert(b@.len() == n as nat);
        assert(buf@.subrange(start as int, *pos as int) =~= bstr_enc(b@));
    }
    Ok(b)
}

/// True when the two byte slices hold the same bytes.
pub fn bytes_eq(a: &[u8], b: &[u8]) -> (r: bool)
    ensures
        r == (a@ == b@),
{
    if a.len() != b.len() {
        proof {
            assert(a@ != b@);
        }
        return false;
    }
    let mut i: usize = 0;
    while i < a.len()
        invariant
            i <= a@.len(),
            a@.len() == b@.len(),
            forall|j: int| 0 <= j < i ==> a@[j] == b@[j],
        decreases a@.len() - i,
    {
        if a[i] != b[i] {
            proof {
                assert(a@ != b@);
            }
            return false;
        }
        i = i + 1;
    }
    proof {
        assert(a@ =~= b@);
    }
    true
}

} // verus!
