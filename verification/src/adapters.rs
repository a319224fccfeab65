//! Adapters between the relational row representation and the blob record:
//! comma-joined tags against tag lists, and the merge that copies a row's
//! denormalized columns back into its decoded record for a dump.

use vstd::prelude::*;
use vstd::utf8::{
    encode_utf8, encode_utf8_valid_utf8, is_char_boundary,
    is_char_boundary_iff_not_is_continuation_byte, pop_first_scalar, valid_first_scalar,
    valid_utf8, valid_utf8_concat, valid_utf8_split,
};
use crate::record::Fastresume;
use crate::rewrite::{lemma_contains_single_byte, spec_contains};
use crate::rows::DatabaseData;
use crate::text::{lemma_valid_utf8_unconcat, vec_to_string};
use crate::benc::push_bytes;

verus! {

/// The comma byte.
pub const TOK_COMMA: u8 = 44;

/// A single comma is valid UTF-8.
proof fn lemma_single_comma_valid()
    ensures
        valid_utf8(seq![TOK_COMMA]),
{
    reveal_with_fuel(valid_utf8, 2);
    assert(valid_first_scalar(seq![TOK_COMMA]));
    assert(pop_first_scalar(seq![TOK_COMMA]) =~= Seq::<u8>::empty());
}

/// The comma-joined UTF-8 form of a list of tags.
pub open spec fn comma_joined(ss: Seq<Seq<char>>) -> Seq<u8>
    decreases ss.len(),
{
    if ss.len() == 0 {
        Seq::empty()
    } else if ss.len() == 1 {
        encode_utf8(ss[0])
    } else {
        encode_utf8(ss[0]) + seq![TOK_COMMA] + comma_joined(ss.drop_first())
    }
}

/// Each tag followed by one comma; the loop shape of the splitter.
pub open spec fn comma_terminated(ss: Seq<Seq<char>>) -> Seq<u8>
    decreases ss.len(),
{
    if ss.len() == 0 {
        Seq::empty()
    } else {
        encode_utf8(ss[0]) + seq![TOK_COMMA] + comma_terminated(ss.drop_first())
    }
}

/// Appending the last, unterminated tag turns the terminated form into the
/// joined form.
pub proof fn lemma_comma_joined_snoc(ss: Seq<Seq<char>>, x: Seq<char>)
    ensures
        comma_joined(ss.push(x)) == comma_terminated(ss) + encode_utf8(x),
    decreases ss.len(),
{
    reveal_with_fuel(comma_joined, 3);
    reveal_with_fuel(comma_terminated, 3);
    if ss.len() == 0 {
        assert(ss.push(x)[0] == x);
        assert(comma_joined(ss.push(x)) =~= comma_terminated(ss) + encode_utf8(x));
    } else {
        lemma_comma_joined_snoc(ss.drop_first(), x);
        assert(ss.push(x).drop_first() =~= ss.drop_first().push(x));
        assert(ss.push(x)[0] == ss[0]);
        assert(comma_joined(ss.push(x)) == encode_utf8(ss[0]) + seq![TOK_COMMA] + comma_joined(
            ss.drop_first().push(x),
        ));
        assert(comma_joined(ss.push(x)) =~= comma_terminated(ss) + encode_utf8(x));
    }
}

/// Appending one terminated tag extends the terminated form at its end.
pub proof fn lemma_comma_terminated_push(ss: Seq<Seq<char>>, x: Seq<char>)
    ensures
        comma_terminated(ss.push(x)) == comma_terminated(ss) + encode_utf8(x) + seq![TOK_COMMA],
    decreases ss.len(),
{
    reveal_with_fuel(comma_terminated, 3);
    if ss.len() == 0 {
        assert(ss.push(x)[0] == x);
        assert(ss.push(x).drop_first() =~= Seq::<Seq<char>>::empty());
        assert(comma_terminated(ss.push(x)) =~= comma_terminated(ss) + encode_utf8(x) + seq![
            TOK_COMMA,
        ]);
    } else {
        lemma_comma_terminated_push(ss.drop_first(), x);
        assert(ss.push(x).drop_first() =~= ss.drop_first().push(x));
        assert(ss.push(x)[0] == ss[0]);
        assert(comma_terminated(ss.push(x)) == encode_utf8(ss[0]) + seq![TOK_COMMA]
            + comma_terminated(ss.drop_first().push(x)));
        assert(comma_terminated(ss.push(x)) =~= comma_terminated(ss) + encode_utf8(x) + seq![
            TOK_COMMA,
        ]);
    }
}

/// Splits a comma-joined tag string into its tags.  The result is pinned by
/// its characterization: joining it back with commas gives exactly the input
/// bytes, no tag contains a comma, and there is at least one tag (an empty
/// input yields one empty tag).
pub fn split_tags(s: &str) -> (r: Vec<String>)
    ensures
        r.deep_view().len() >= 1,
        comma_joined(r.deep_view()) == encode_utf8(s@),
        forall|k: int|
            0 <= k < r.deep_view().len() ==> !spec_contains(
                encode_utf8(r.deep_view()[k]),
                seq![TOK_COMMA],
            ),
{
    let sb = s.as_bytes();
    let n = sb.len();
    let ghost full = encode_utf8(s@);
    proof {
        encode_utf8_valid_utf8(s@);
        assert(full.subrange(0, 0) =~= comma_terminated(Seq::<Seq<char>>::empty()));
        assert(full.subrange(0, full.len() as int) =~= full);
    }
    let mut out: Vec<String> = Vec::new();
    let mut start: usize = 0;
    let mut i: usize = 0;
    while i < n
        invariant
            start <= i <= n,
            n == full.len(),
            full == encode_utf8(s@),
            full == sb@,
            valid_utf8(full.subrange(start as int, full.len() as int)),
            full.subrange(0, start as int) == comma_terminated(out.deep_view()),
            forall|t: int| start <= t < i ==> full[t] != TOK_COMMA,
            forall|k: int|
                0 <= k < out.deep_view().len() ==> !spec_contains(
                    encode_utf8(out.deep_view()[k]),
                    seq![TOK_COMMA],
                ),
        decreases n - i,
    {
        if sb[i] == TOK_COMMA {
            let ghost rest = full.subrange(start as int, full.len() as int);
            let ghost m = (i - start) as int;
            proof {
                assert(rest[m] == TOK_COMMA);
                is_char_boundary_iff_not_is_continuation_byte(rest, m);
                assert(is_char_boundary(rest, m));
                valid_utf8_split(rest, m);
                assert(rest.subrange(0, m) =~= full.subrange(start as int, i as int));
                let after = rest.subrange(m, rest.len() as int);
                assert(after[0] == TOK_COMMA);
                lemma_single_comma_valid();
                assert(after =~= seq![TOK_COMMA] + after.subrange(1, after.len() as int));
                lemma_valid_utf8_unconcat(
                    seq![TOK_COMMA],
                    after.subrange(1, after.len() as int),
                );
                assert(after.subrange(1, after.len() as int) =~= full.subrange(
                    (i + 1) as int,
                    full.len() as int,
                ));
            }
            let seg = vstd::slice::slice_to_vec(vstd::slice::slice_subrange(sb, start, i));
            let ghost prev = out.deep_view();
            let p = vec_to_string(seg);
            out.push(p);
            proof {
                assert(out.deep_view() =~= prev.push(p@));
                lemma_comma_terminated_push(prev, p@);
                assert(full.subrange(0, (i + 1) as int) =~= full.subrange(0, start as int)
                    + encode_utf8(p@) + seq![TOK_COMMA]);
                assert(forall|t: int|
                    0 <= t < encode_utf8(p@).len() ==> encode_utf8(p@)[t] != TOK_COMMA);
                lemma_contains_single_byte(encode_utf8(p@), TOK_COMMA);
            }
            start = i + 1;
            i = i + 1;
        } else {
            i = i + 1;
        }
    }
    let seg = vstd::slice::slice_to_vec(vstd::slice::slice_subrange(sb, start, n));
    let ghost prev = out.deep_view();
    let p = vec_to_string(seg);
    out.push(p);
    proof {
        assert(out.deep_view() =~= prev.push(p@));
        lemma_comma_joined_snoc(prev, p@);
        assert(comma_joined(out.deep_view()) =~= full);
        assert(forall|t: int|
            0 <= t < encode_utf8(p@).len() ==> encode_utf8(p@)[t] != TOK_COMMA);
        lemma_contains_single_byte(encode_utf8(p@), TOK_COMMA);
    }
    out
}

/// Joins tags back into the comma-separated relational form.
pub fn join_tags(ts: &Vec<String>) -> (r: String)
    ensures
        encode_utf8(r@) == comma_joined(ts.deep_view()),
{
    let mut acc: Vec<u8> = Vec::new();
    let mut i: usize = 0;
    proof {
        assert(ts.deep_view().take(0) =~= Seq::<Seq<char>>::empty());
    }
    while i < ts.len()
        invariant
            i <= ts@.len(),
            i < ts@.len() ==> acc@ == comma_terminated(ts.deep_view().take(i as int)),
            i == ts@.len() ==> acc@ == comma_joined(ts.deep_view()),
            valid_utf8(acc@),
        decreases ts@.len() - i,
    {
        let ghost prev_dv = ts.deep_view().take(i as int);
        push_bytes(&mut acc, ts[i].as_str().as_bytes());
        proof {
            encode_utf8_valid_utf8(ts@[i as int]@);
            valid_utf8_concat(comma_terminated(prev_dv), encode_utf8(ts@[i as int]@));
        }
        if i + 1 < ts.len() {
            acc.push(TOK_COMMA);
            proof {
                lemma_single_comma_valid();
                valid_utf8_concat(
                    comma_terminated(prev_dv) + encode_utf8(ts@[i as int]@),
                    seq![TOK_COMMA],
                );
                lemma_comma_terminated_push(prev_dv, ts@[i as int]@);
                assert(ts.deep_view().take(i + 1) =~= prev_dv.push(ts@[i as int]@));
                assert(acc@ =~= comma_terminated(ts.deep_view().take(i + 1)));
            }
        } else {
            proof {
                lemma_comma_joined_snoc(prev_dv, ts@[i as int]@);
                assert(ts.deep_view() =~= prev_dv.push(ts@[i as int]@));
                assert(acc@ =~= comma_joined(ts.deep_view()));
            }
        }
        i = i + 1;
    }
    proof {
        if ts@.len() == 0 {
            assert(acc@ =~= comma_joined(ts.deep_view()));
        }
    }
    vec_to_string(acc)
}

/// Copies a row's denormalized columns back into its decoded record, the
/// merge a dump performs before re-encoding.  The path fields are set only
/// when the row holds a save path: a torrent in automatic management mode
/// keeps the paths the blob already had (absent in a freshly managed blob).
pub fn merge_row(resume: &mut Fastresume, row: &DatabaseData)
    ensures
        *final(resume) == (Fastresume {
            qbt_category: final(resume).qbt_category,
            qbt_content_layout: final(resume).qbt_content_layout,
            qbt_download_path: final(resume).qbt_download_path,
            qbt_first_last_piece_priority: final(resume).qbt_first_last_piece_priority,
            qbt_inactive_seeding_time_limit: final(resume).qbt_inactive_seeding_time_limit,
            qbt_name: final(resume).qbt_name,
            qbt_ratio_limit: final(resume).qbt_ratio_limit,
            qbt_save_path: final(resume).qbt_save_path,
            qbt_seed_status: final(resume).qbt_seed_status,
            qbt_seeding_time_limit: final(resume).qbt_seeding_time_limit,
            qbt_share_limit_action: final(resume).qbt_share_limit_action,
            qbt_stop_condition: final(resume).qbt_stop_condition,
            qbt_tags: final(resume).qbt_tags,
            ..*old(resume)
        }),
        final(resume).qbt_category matches Some(s) && s@ == (match row.category {
            Option::Some(c) => c@,
            Option::None => Seq::<char>::empty(),
        }),
        final(resume).qbt_content_layout matches Some(s) && s@ == row.content_layout@,
        final(resume).qbt_first_last_piece_priority == Some(row.has_outer_pieces_priority),
        final(resume).qbt_inactive_seeding_time_limit == Some(
            row.inactive_seeding_time_limit,
        ),
        final(resume).qbt_name matches Some(s) && s@ == (match row.name {
            Option::Some(c) => c@,
            Option::None => Seq::<char>::empty(),
        }),
        final(resume).qbt_ratio_limit == Some(row.ratio_limit),
        final(resume).qbt_seed_status == Some(row.has_seed_status),
        final(resume).qbt_seeding_time_limit == Some(row.seeding_time_limit),
        final(resume).qbt_share_limit_action matches Some(s) && s@ == (
        match row.share_limit_action {
            Option::Some(c) => c@,
            Option::None => Seq::<char>::empty(),
        }),
        final(resume).qbt_stop_condition matches Some(s) && s@ == row.stop_condition@,
        match row.target_save_path {
            Option::Some(p) => final(resume).qbt_save_path matches Some(s) && s@ == p@ && (
            final(resume).qbt_download_path matches Some(d) && d@ == (match row.download_path {
                Option::Some(x) => x@,
                Option::None => Seq::<char>::empty(),
            })),
            Option::None => final(resume).qbt_save_path == old(resume).qbt_save_path
                && final(resume).qbt_download_path == old(resume).qbt_download_path,
        },
        final(resume).qbt_tags matches Some(ts) && (match row.tags {
            Option::Some(t) => ts.deep_view().len() >= 1 && comma_joined(ts.deep_view())
                == encode_utf8(t@) && forall|k: int|
                0 <= k < ts.deep_view().len() ==> !spec_contains(
                    encode_utf8(ts.deep_view()[k]),
                    seq![TOK_COMMA],
                ),
            Option::None => ts.deep_view() == Seq::<Seq<char>>::empty(),
        }),
{
    resume.qbt_category = Some(
        match &row.category {
            Option::Some(c) => c.clone(),
            Option::None => String::new(),
        },
    );
    resume.qbt_content_layout = Some(row.content_layout.clone());
    resume.qbt_first_last_piece_priority = Some(row.has_outer_pieces_priority);
    resume.qbt_inactive_seeding_time_limit = Some(row.inactive_seeding_time_limit);
    resume.qbt_name = Some(
        match &row.name {
            Option::Some(c) => c.clone(),
            Option::None => String::new(),
        },
    );
    resume.qbt_ratio_limit = Some(row.ratio_limit);
    resume.qbt_seed_status = Some(row.has_seed_status);
    resume.qbt_seeding_time_limit = Some(row.seeding_time_limit);
    resume.qbt_share_limit_action = Some(
        match &row.share_limit_action {
            Option::Some(c) => c.clone(),
            Option::None => String::new(),
        },
    );
    resume.qbt_stop_condition = Some(row.stop_condition.clone());
    if let Option::Some(p) = &row.target_save_path {
        resume.qbt_download_path = Some(
            match &row.download_path {
                Option::Some(x) => x.clone(),
                Option::None => String::new(),
            },
        );
        resume.qbt_save_path = Some(p.clone());
    }
    match &row.tags {
        Option::Some(t) => {
            resume.qbt_tags = Some(split_tags(t.as_str()));
        },
        Option::None => {
            let empty: Vec<String> = Vec::new();
            proof {
                assert(empty.deep_view() =~= Seq::<Seq<char>>::empty());
            }
            resume.qbt_tags = Some(empty);
        },
    }
}


/// A sequence that does not contain the one-byte pattern holds no such byte.
proof fn lemma_no_contains_no_byte(x: Seq<u8>, c: u8)
    requires
        !spec_contains(x, seq![c]),
    ensures
        forall|i: int| 0 <= i < x.len() ==> x[i] != c,
{
    assert forall|i: int| 0 <= i < x.len() implies x[i] != c by {
        if x[i] == c {
            assert(x.subrange(i, i + 1) =~= seq![c]);
            assert(crate::rewrite::match_at(x, seq![c], i));
        }
    }
}

/// Joining comma-free tags is injective: two tag lists with the same
/// comma-joined form are equal.  Together with `split_tags`'s contract this
/// pins the split uniquely, so re-joining a split column reproduces it and
/// a merged record's tag entry is determined by the column bytes alone.
pub proof fn lemma_comma_join_injective(a: Seq<Seq<char>>, b: Seq<Seq<char>>)
    requires
        a.len() >= 1,
        b.len() >= 1,
        forall|k: int|
            0 <= k < a.len() ==> !spec_contains(encode_utf8(#[trigger] a[k]), seq![TOK_COMMA]),
        forall|k: int|
            0 <= k < b.len() ==> !spec_contains(encode_utf8(#[trigger] b[k]), seq![TOK_COMMA]),
        comma_joined(a) == comma_joined(b),
    ensures
        a == b,
    decreases a.len(),
{
    let ja = comma_joined(a);
    let jb = comma_joined(b);
    let ea = encode_utf8(a[0]);
    let eb = encode_utf8(b[0]);
    lemma_no_contains_no_byte(ea, TOK_COMMA);
    lemma_no_contains_no_byte(eb, TOK_COMMA);
    if a.len() == 1 && b.len() == 1 {
        vstd::utf8::encode_utf8_decode_utf8(a[0]);
        vstd::utf8::encode_utf8_decode_utf8(b[0]);
        assert(a =~= b);
    } else if a.len() == 1 {
        assert(jb[eb.len() as int] == TOK_COMMA);
        assert(ja[eb.len() as int] != TOK_COMMA);
    } else if b.len() == 1 {
        assert(ja[ea.len() as int] == TOK_COMMA);
        assert(jb[ea.len() as int] != TOK_COMMA);
    } else {
        if ea.len() < eb.len() {
            assert(ja[ea.len() as int] == TOK_COMMA);
            assert(jb[ea.len() as int] == eb[ea.len() as int]);
        } else if eb.len() < ea.len() {
            assert(jb[eb.len() as int] == TOK_COMMA);
            assert(ja[eb.len() as int] == ea[eb.len() as int]);
        }
        assert(ea.len() == eb.len());
        assert(ea =~= eb) by {
            assert(forall|i: int| 0 <= i < ea.len() ==> ja[i] == #[trigger] ea[i]);
            assert(forall|i: int| 0 <= i < eb.len() ==> jb[i] == #[trigger] eb[i]);
        }
        vstd::utf8::encode_utf8_decode_utf8(a[0]);
        vstd::utf8::encode_utf8_decode_utf8(b[0]);
        assert(a[0] == b[0]);
        assert(ja == ea + seq![TOK_COMMA] + comma_joined(a.drop_first()));
        assert(jb == eb + seq![TOK_COMMA] + comma_joined(b.drop_first()));
        assert(comma_joined(a.drop_first()) =~= ja.subrange(ea.len() as int + 1, ja.len() as int));
        assert(comma_joined(b.drop_first()) =~= jb.subrange(eb.len() as int + 1, jb.len() as int));
        assert(comma_joined(a.drop_first()) == comma_joined(b.drop_first()));
        assert(forall|k: int|
            0 <= k < a.drop_first().len() ==> !spec_contains(
                encode_utf8(#[trigger] a.drop_first()[k]),
                seq![TOK_COMMA],
            ));
        assert(forall|k: int|
            0 <= k < b.drop_first().len() ==> !spec_contains(
                encode_utf8(#[trigger] b.drop_first()[k]),
                seq![TOK_COMMA],
            ));
        lemma_comma_join_injective(a.drop_first(), b.drop_first());
        assert(a.len() == b.len());
        assert forall|i: int| 0 <= i < a.len() implies a[i] == b[i] by {
            if i > 0 {
                assert(a[i] == a.drop_first()[i - 1]);
                assert(b[i] == b.drop_first()[i - 1]);
            }
        }
        assert(a =~= b);
    }
}

} // verus!
