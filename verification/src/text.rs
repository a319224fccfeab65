//! Bridging between raw bytes and owned text, trusted only at the two
//! standard-library UTF-8 entry points.

use vstd::prelude::*;
use vstd::utf8::{
    decode_first_codepoint, encode_utf8, encode_utf8_valid_utf8, is_char_boundary,
    is_continuation_byte, is_leading_byte_width_1, is_leading_byte_width_2,
    is_leading_byte_width_3, is_leading_byte_width_4,
    length_of_first_scalar, pop_first_scalar, valid_first_scalar,
    valid_leading_and_continuation_bytes_first_codepoint, valid_utf8, valid_utf8_concat,
};
use crate::rewrite::{match_at, replace_bytes, spec_replace};

verus! {

/// Two byte sequences that agree on the first scalar's bytes start with the
/// same scalar.
proof fn lemma_same_first_scalar(x: Seq<u8>, y: Seq<u8>)
    requires
        valid_first_scalar(x),
        y.len() >= length_of_first_scalar(x),
        forall|i: int| 0 <= i < length_of_first_scalar(x) ==> y[i] == x[i],
    ensures
        valid_first_scalar(y),
        length_of_first_scalar(y) == length_of_first_scalar(x),
        decode_first_codepoint(y) == decode_first_codepoint(x),
{
    assert(y[0] == x[0]);
    if is_leading_byte_width_1(x[0]) {
    } else if is_leading_byte_width_2(x[0]) {
        assert(y[1] == x[1]);
    } else if is_leading_byte_width_3(x[0]) {
        assert(y[1] == x[1] && y[2] == x[2]);
    } else {
        assert(y[1] == x[1] && y[2] == x[2] && y[3] == x[3]);
    }
}

/// Splitting a valid sequence after a valid prefix leaves a valid tail, and
/// the split point is a character boundary.
pub proof fn lemma_valid_utf8_unconcat(a: Seq<u8>, b: Seq<u8>)
    requires
        valid_utf8(a),
        valid_utf8(a + b),
    ensures
        valid_utf8(b),
        is_char_boundary(a + b, a.len() as int),
    decreases a.len(),
{
    if a.len() == 0 {
        assert(a + b =~= b);
    } else {
        let l = length_of_first_scalar(a);
        assert(valid_first_scalar(a));
        assert(l <= a.len());
        assert(forall|i: int| 0 <= i < l ==> (a + b)[i] == a[i]);
        lemma_same_first_scalar(a, a + b);
        assert(valid_first_scalar(a + b));
        assert(pop_first_scalar(a + b) =~= pop_first_scalar(a) + b);
        assert(valid_utf8(pop_first_scalar(a) + b));
        lemma_valid_utf8_unconcat(pop_first_scalar(a), b);
        assert(pop_first_scalar(a).len() == a.len() - l);
        assert(is_char_boundary(a + b, a.len() as int));
    }
}

/// One whole scalar taken off the front of a valid sequence is itself valid.
proof fn lemma_head_scalar_valid(s: Seq<u8>)
    requires
        valid_utf8(s),
        s.len() > 0,
    ensures
        valid_utf8(s.subrange(0, length_of_first_scalar(s))),
{
    reveal_with_fuel(valid_utf8, 3);
    let l = length_of_first_scalar(s);
    let head = s.subrange(0, l);
    assert(valid_first_scalar(s));
    assert(l <= s.len());
    assert(forall|i: int| 0 <= i < l ==> head[i] == s[i]);
    lemma_same_first_scalar(s, head);
    assert(pop_first_scalar(head) =~= Seq::<u8>::empty());
    assert(valid_utf8(Seq::<u8>::empty()));
    assert(valid_utf8(head));
}

/// Replacement commutes with skipping a match-free prefix.
proof fn lemma_replace_shift(s: Seq<u8>, old_p: Seq<u8>, new_p: Seq<u8>, k: int)
    requires
        old_p.len() > 0,
        0 <= k <= s.len(),
        forall|i: int| 0 <= i < k ==> !match_at(s, old_p, i),
    ensures
        spec_replace(s, old_p, new_p) == s.subrange(0, k) + spec_replace(
            s.subrange(k, s.len() as int),
            old_p,
            new_p,
        ),
    decreases k,
{
    if k == 0 {
        assert(s.subrange(0, s.len() as int) =~= s);
        if s.len() == 0 {
            assert(spec_replace(s, old_p, new_p) =~= s.subrange(0, 0) + spec_replace(
                s.subrange(0, s.len() as int),
                old_p,
                new_p,
            ));
        } else {
            assert(spec_replace(s, old_p, new_p) =~= s.subrange(0, 0) + spec_replace(
                s.subrange(0, s.len() as int),
                old_p,
                new_p,
            ));
        }
    } else {
        let t = s.subrange(1, s.len() as int);
        assert(!match_at(s, old_p, 0));
        assert(spec_replace(s, old_p, new_p) == seq![s[0]] + spec_replace(t, old_p, new_p));
        assert(forall|i: int| 0 <= i < k - 1 ==> !match_at(t, old_p, i)) by {
            assert forall|i: int| 0 <= i < k - 1 implies !match_at(t, old_p, i) by {
                if i + old_p.len() <= t.len() {
                    assert(s.subrange(i + 1, i + 1 + old_p.len() as int) =~= t.subrange(
                        i,
                        i + old_p.len() as int,
                    ));
                    assert(!match_at(s, old_p, i + 1));
                }
            }
        }
        lemma_replace_shift(t, old_p, new_p, k - 1);
        assert(t.subrange(0, k - 1) =~= s.subrange(1, k));
        assert(t.subrange(k - 1, t.len() as int) =~= s.subrange(k, s.len() as int));
        assert(seq![s[0]] + (s.subrange(1, k) + spec_replace(
            s.subrange(k, s.len() as int),
            old_p,
            new_p,
        )) =~= s.subrange(0, k) + spec_replace(s.subrange(k, s.len() as int), old_p, new_p));
    }
}

/// Replacing one valid UTF-8 pattern by another inside valid UTF-8 text
/// yields valid UTF-8: matches of a valid pattern always fall on character
/// boundaries, so whole scalars are preserved around them.
pub proof fn lemma_replace_valid_utf8(s: Seq<u8>, old_p: Seq<u8>, new_p: Seq<u8>)
    requires
        valid_utf8(s),
        valid_utf8(old_p),
        valid_utf8(new_p),
    ensures
        valid_utf8(spec_replace(s, old_p, new_p)),
    decreases s.len(),
{
    if old_p.len() == 0 || s.len() == 0 {
    } else if match_at(s, old_p, 0) {
        let rest = s.subrange(old_p.len() as int, s.len() as int);
        assert(s =~= old_p + rest);
        lemma_valid_utf8_unconcat(old_p, rest);
        lemma_replace_valid_utf8(rest, old_p, new_p);
        valid_utf8_concat(new_p, spec_replace(rest, old_p, new_p));
    } else {
        assert(valid_first_scalar(s));
        assert(valid_first_scalar(old_p));
        let l = length_of_first_scalar(s);
        assert(1 <= l <= s.len());
        assert(forall|i: int| 0 < i < l ==> is_continuation_byte(s[i]));
        assert(!is_continuation_byte(old_p[0]));
        assert(forall|i: int| 0 <= i < l ==> !match_at(s, old_p, i)) by {
            assert forall|i: int| 0 < i < l implies !match_at(s, old_p, i) by {
                if match_at(s, old_p, i) {
                    assert(s.subrange(i, i + old_p.len() as int)[0] == s[i]);
                    assert(s[i] == old_p[0]);
                }
            }
        }
        lemma_replace_shift(s, old_p, new_p, l);
        let head = s.subrange(0, l);
        let tail = s.subrange(l, s.len() as int);
        assert(tail =~= pop_first_scalar(s));
        lemma_replace_valid_utf8(tail, old_p, new_p);
        lemma_head_scalar_valid(s);
        valid_utf8_concat(head, spec_replace(tail, old_p, new_p));
    }
}

/// Character-for-character equality of two text slices, decided on their
/// UTF-8 encodings, which determine the characters uniquely.
pub fn str_eq(a: &str, b: &str) -> (r: bool)
    ensures
        r == (a@ == b@),
{
    let r = crate::benc::bytes_eq(a.as_bytes(), b.as_bytes());
    proof {
        vstd::utf8::encode_utf8_decode_utf8(a@);
        vstd::utf8::encode_utf8_decode_utf8(b@);
    }
    r
}

/// Substring replacement on text: the result's UTF-8 encoding is exactly the
/// byte-level replacement over the operands' encodings.
pub fn replace_str(s: &str, old_p: &str, new_p: &str) -> (r: String)
    ensures
        encode_utf8(r@) == spec_replace(encode_utf8(s@), encode_utf8(old_p@), encode_utf8(new_p@)),
{
    let rb = replace_bytes(s.as_bytes(), old_p.as_bytes(), new_p.as_bytes());
    proof {
        encode_utf8_valid_utf8(s@);
        encode_utf8_valid_utf8(old_p@);
        encode_utf8_valid_utf8(new_p@);
        lemma_replace_valid_utf8(encode_utf8(s@), encode_utf8(old_p@), encode_utf8(new_p@));
    }
    vec_to_string(rb)
}

/// Relies on `core::str::from_utf8`: it returns `Ok` exactly when the bytes
/// are a valid UTF-8 encoding.
#[verifier::external_body]
pub(crate) fn utf8_check(b: &[u8]) -> (r: bool)
    ensures
        r == valid_utf8(b@),
{
    core::str::from_utf8(b).is_ok()
}

/// Relies on `String::from_utf8`: on valid UTF-8 input it returns the string
/// owning exactly the given bytes, so the string's UTF-8 encoding is the
/// input.  The input is required to be valid so the call cannot fail.
#[verifier::external_body]
pub(crate) fn vec_to_string(b: Vec<u8>) -> (r: String)
    requires
        valid_utf8(b@),
    ensures
        encode_utf8(r@) == b@,
{
    String::from_utf8(b).unwrap()
}

} // verus!
