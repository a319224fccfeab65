//! Byte-level substring search and replacement: the engine behind the
//! save-path and tracker-URL edits, with the laws the edits rely on.

use vstd::prelude::*;

verus! {

/// `pat` occurs in `s` starting at index `i`.  An empty pattern never
/// matches, here and throughout: an edit with an empty old substring applies
/// to no record.
pub open spec fn match_at(s: Seq<u8>, pat: Seq<u8>, i: int) -> bool {
    pat.len() > 0 && 0 <= i && i + pat.len() <= s.len() && s.subrange(
        i,
        i + pat.len() as int,
    ) == pat
}

/// `pat` occurs somewhere in `s`; false for the empty pattern.
pub open spec fn spec_contains(s: Seq<u8>, pat: Seq<u8>) -> bool {
    exists|i: int| match_at(s, pat, i)
}

/// Leftmost, non-overlapping replacement of `old_p` by `new_p` in `s`.
/// An empty pattern never matches, so the input is returned unchanged.
pub open spec fn spec_replace(s: Seq<u8>, old_p: Seq<u8>, new_p: Seq<u8>) -> Seq<u8>
    decreases s.len(),
{
    if old_p.len() == 0 || s.len() == 0 {
        s
    } else if match_at(s, old_p, 0) {
        new_p + spec_replace(s.subrange(old_p.len() as int, s.len() as int), old_p, new_p)
    } else {
        seq![s[0]] + spec_replace(s.subrange(1, s.len() as int), old_p, new_p)
    }
}

/// Checks one candidate match position.
fn match_at_exec(s: &[u8], pat: &[u8], i: usize) -> (r: bool)
    requires
        pat@.len() > 0,
        i + pat@.len() <= s@.len(),
    ensures
        r == match_at(s@, pat@, i as int),
{
    let n = s.len();
    let mut j: usize = 0;
    while j < pat.len()
        invariant
            j <= pat@.len(),
            i + pat@.len() <= s@.len(),
            n == s@.len(),
            forall|t: int| 0 <= t < j ==> s@[i + t] == pat@[t],
        decreases pat@.len() - j,
    {
        if s[i + j] != pat[j] {
            proof {
                assert(s@.subrange(i as int, i + pat@.len() as int)[j as int] == s@[i + j]);
                assert(!match_at(s@, pat@, i as int));
            }
            return false;
        }
        j = j + 1;
    }
    proof {
        assert(s@.subrange(i as int, i + pat@.len() as int) =~= pat@);
    }
    true
}

/// True when `pat` occurs as a contiguous substring of `s`.
pub fn contains_bytes(s: &[u8], pat: &[u8]) -> (r: bool)
    ensures
        r == spec_contains(s@, pat@),
{
    if pat.len() > s.len() {
        proof {
            assert(forall|i: int| !match_at(s@, pat@, i));
        }
        return false;
    }
    if pat.len() == 0 {
        proof {
            assert(forall|i: int| !match_at(s@, pat@, i));
        }
        return false;
    }
    let mut i: usize = 0;
    while i <= s.len() - pat.len()
        invariant
            0 < pat@.len() <= s@.len(),
            i <= s@.len() - pat@.len() + 1,
            forall|t: int| 0 <= t < i ==> !match_at(s@, pat@, t),
        decreases s@.len() - pat@.len() - i + 1,
    {
        if match_at_exec(s, pat, i) {
            proof {
                assert(spec_contains(s@, pat@));
            }
            return true;
        }
        i = i + 1;
    }
    proof {
        assert(forall|t: int| match_at(s@, pat@, t) ==> 0 <= t <= s@.len() - pat@.len());
        assert(!spec_contains(s@, pat@));
    }
    false
}

/// Replaces every leftmost, non-overlapping occurrence of `old_p` by `new_p`.
pub fn replace_bytes(s: &[u8], old_p: &[u8], new_p: &[u8]) -> (r: Vec<u8>)
    ensures
        r@ == spec_replace(s@, old_p@, new_p@),
{
    let mut out: Vec<u8> = Vec::new();
    if old_p.len() == 0 {
        let r = vstd::slice::slice_to_vec(s);
        proof {
            assert(spec_replace(s@, old_p@, new_p@) == s@);
        }
        return r;
    }
    let mut i: usize = 0;
    proof {
        assert(s@.subrange(0, s@.len() as int) =~= s@);
    }
    while i < s.len()
        invariant
            i <= s@.len(),
            old_p@.len() > 0,
            spec_replace(s@, old_p@, new_p@) == out@ + spec_replace(
                s@.subrange(i as int, s@.len() as int),
                old_p@,
                new_p@,
            ),
        decreases s@.len() - i,
    {
        let ghost tail = s@.subrange(i as int, s@.len() as int);
        if old_p.len() <= s.len() - i && match_at_exec(s, old_p, i) {
            let ghost before = out@;
            let mut j: usize = 0;
            while j < new_p.len()
                invariant
                    j <= new_p@.len(),
                    out@ == before + new_p@.take(j as int),
                decreases new_p@.len() - j,
            {
                out.push(new_p[j]);
                j = j + 1;
                proof {
                    assert(out@ =~= before + new_p@.take(j as int));
                }
            }
            proof {
                assert(out@ =~= before + new_p@);
            }
            let ghost old_i = i as int;
            i = i + old_p.len();
            proof {
                assert(tail.subrange(0, old_p@.len() as int) =~= s@.subrange(
                    old_i,
                    old_i + old_p@.len() as int,
                ));
                assert(match_at(tail, old_p@, 0));
                assert(tail.subrange(old_p@.len() as int, tail.len() as int) =~= s@.subrange(
                    i as int,
                    s@.len() as int,
                ));
                assert(spec_replace(tail, old_p@, new_p@) == new_p@ + spec_replace(
                    s@.subrange(i as int, s@.len() as int),
                    old_p@,
                    new_p@,
                ));
            }
        } else {
            let ghost old_i = i as int;
            out.push(s[i]);
            i = i + 1;
            proof {
                if old_i + old_p@.len() <= s@.len() {
                    assert(tail.subrange(0, old_p@.len() as int) =~= s@.subrange(
                        old_i,
                        old_i + old_p@.len() as int,
                    ));
                    assert(!match_at(tail, old_p@, 0));
                } else {
                    assert(!match_at(tail, old_p@, 0));
                }
                assert(tail.subrange(1, tail.len() as int) =~= s@.subrange(
                    i as int,
                    s@.len() as int,
                ));
                assert(tail[0] == s@[old_i]);
                assert(spec_replace(tail, old_p@, new_p@) == seq![s@[old_i]] + spec_replace(
                    s@.subrange(i as int, s@.len() as int),
                    old_p@,
                    new_p@,
                ));
            }
        }
    }
    proof {
        assert(s@.subrange(s@.len() as int, s@.len() as int).len() == 0);
        assert(out@ =~= spec_replace(s@, old_p@, new_p@));
    }
    out
}

/// A sequence without the byte `c` does not contain the one-byte pattern.
pub proof fn lemma_contains_single_byte(b: Seq<u8>, c: u8)
    requires
        forall|t: int| 0 <= t < b.len() ==> b[t] != c,
    ensures
        !spec_contains(b, seq![c]),
{
    assert forall|t: int| !match_at(b, seq![c], t) by {
        if 0 <= t && t + 1 <= b.len() {
            assert(b.subrange(t, t + 1)[0] == b[t]);
        }
    }
}

/// An occurrence anywhere is an occurrence at the front or one further in.
proof fn lemma_contains_step(s: Seq<u8>, pat: Seq<u8>)
    requires
        s.len() > 0,
        pat.len() > 0,
    ensures
        spec_contains(s, pat) <==> match_at(s, pat, 0) || spec_contains(
            s.subrange(1, s.len() as int),
            pat,
        ),
{
    let tail = s.subrange(1, s.len() as int);
    if spec_contains(s, pat) {
        let i = choose|i: int| match_at(s, pat, i);
        if i > 0 {
            assert(tail.subrange(i - 1, i - 1 + pat.len() as int) =~= s.subrange(
                i,
                i + pat.len() as int,
            ));
            assert(match_at(tail, pat, i - 1));
        }
    }
    if spec_contains(tail, pat) {
        let j = choose|j: int| match_at(tail, pat, j);
        assert(s.subrange(j + 1, j + 1 + pat.len() as int) =~= tail.subrange(
            j,
            j + pat.len() as int,
        ));
        assert(match_at(s, pat, j + 1));
    }
}

/// Replacement is the identity on inputs that do not contain the pattern.
pub proof fn lemma_replace_absent(s: Seq<u8>, old_p: Seq<u8>, new_p: Seq<u8>)
    requires
        !spec_contains(s, old_p) || old_p.len() == 0,
    ensures
        spec_replace(s, old_p, new_p) == s,
    decreases s.len(),
{
    if old_p.len() == 0 || s.len() == 0 {
    } else {
        lemma_contains_step(s, old_p);
        lemma_replace_absent(s.subrange(1, s.len() as int), old_p, new_p);
        assert(spec_replace(s, old_p, new_p) =~= s);
    }
}

/// Applying the same replacement twice gives the same result as applying it
/// once, whenever one application removes every occurrence of the pattern.
/// (An edit whose replacement re-creates the pattern across a boundary, such
/// as removing `ab` from `aabb`, is outside this law.)
pub proof fn lemma_replace_idempotent(s: Seq<u8>, old_p: Seq<u8>, new_p: Seq<u8>)
    requires
        !spec_contains(spec_replace(s, old_p, new_p), old_p),
    ensures
        spec_replace(spec_replace(s, old_p, new_p), old_p, new_p) == spec_replace(
            s,
            old_p,
            new_p,
        ),
{
    lemma_replace_absent(spec_replace(s, old_p, new_p), old_p, new_p);
}

} // verus!
