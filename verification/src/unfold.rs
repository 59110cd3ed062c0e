//! Line unfolder: splits the raw text into physical lines (CRLF is the
//! canonical terminator, a bare LF is tolerated and a missing terminator on
//! the final line is accepted) and merges each continuation line — one that
//! starts with a single space or tab — into the logical line before it.

use vstd::prelude::*;

verus! {

use crate::text::subvec;

/// Drops a trailing carriage return left over from a CRLF terminator.
pub open spec fn strip_cr(l: Seq<char>) -> Seq<char> {
    if l.len() > 0 && l.last() == '\r' {
        l.drop_last()
    } else {
        l
    }
}

/// Splitting the text into physical lines, scanning character by character
/// with `cur` holding the characters of the line under construction.
pub open spec fn split_lines_rec(s: Seq<char>, cur: Seq<char>) -> Seq<Seq<char>>
    decreases s.len(),
{
    if s.len() == 0 {
        if cur.len() == 0 {
            Seq::<Seq<char>>::empty()
        } else {
            seq![cur]
        }
    } else if s[0] == '\n' {
        seq![strip_cr(cur)].add(split_lines_rec(s.drop_first(), Seq::<char>::empty()))
    } else {
        split_lines_rec(s.drop_first(), cur.push(s[0]))
    }
}

/// The physical lines of the text. A blank text yields no lines, and a
/// missing terminator on the final line is accepted.
pub open spec fn split_lines(s: Seq<char>) -> Seq<Seq<char>> {
    split_lines_rec(s, Seq::<char>::empty())
}

/// A continuation line: it starts with a space or tab and is appended,
/// minus that one character, to the logical line before it.
pub open spec fn is_continuation(l: Seq<char>) -> bool {
    l.len() > 0 && (l[0] == ' ' || l[0] == '\t')
}

/// The logical lines: every physical line that starts with a space or tab
/// is merged, minus that one character, into the line before it.
pub open spec fn unfold_lines(lines: Seq<Seq<char>>) -> Seq<Seq<char>>
    decreases lines.len(),
{
    if lines.len() == 0 {
        Seq::<Seq<char>>::empty()
    } else if lines.len() >= 2 && is_continuation(lines[1]) {
        unfold_lines(seq![lines[0] + lines[1].skip(1)].add(lines.skip(2)))
    } else {
        seq![lines[0]].add(unfold_lines(lines.drop_first()))
    }
}

/// The views of a vector of character vectors.
pub open spec fn lines_view(v: Seq<Vec<char>>) -> Seq<Seq<char>> {
    Seq::new(v.len(), |i: int| v[i]@)
}

/// Splits the text into its physical lines.
pub fn split_into_lines(text: &Vec<char>) -> (r: Vec<Vec<char>>)
    ensures
        lines_view(r@) == split_lines(text@),
{
    let mut r: Vec<Vec<char>> = Vec::new();
    let mut cur: Vec<char> = Vec::new();
    let mut i: usize = 0;
    proof {
        assert(text@.skip(0) =~= text@);
    }
    while i < text.len()
        invariant
            i <= text@.len(),
            split_lines(text@) == lines_view(r@).add(
                split_lines_rec(text@.skip(i as int), cur@),
            ),
        decreases text@.len() - i,
    {
        proof {
            assert(text@.skip(i as int)[0] == text@[i as int]);
            assert(text@.skip(i as int).drop_first() =~= text@.skip(i + 1 as int));
        }
        let c = text[i];
        if c == '\n' {
            let ghost orig = cur@;
            let mut done = cur;
            if done.len() > 0 && done[done.len() - 1] == '\r' {
                done.pop();
            }
            proof {
                assert(done@ =~= strip_cr(orig));
            }
            r.push(done);
            cur = Vec::new();
            proof {
                assert(lines_view(r@) =~= lines_view(r@.drop_last()).add(
                    seq![r@.last()@],
                ));
                assert(lines_view(r@.drop_last()).add(
                    seq![r@.last()@].add(split_lines_rec(text@.skip(i + 1 as int), cur@)),
                ) =~= lines_view(r@).add(split_lines_rec(text@.skip(i + 1 as int), cur@)));
            }
        } else {
            cur.push(c);
        }
        i = i + 1;
    }
    proof {
        assert(text@.skip(text@.len() as int).len() == 0);
    }
    if cur.len() > 0 {
        r.push(cur);
        proof {
            assert(lines_view(r@) =~= lines_view(r@.drop_last()).add(seq![r@.last()@]));
        }
    } else {
        proof {
            assert(lines_view(r@).add(Seq::<Seq<char>>::empty()) =~= lines_view(r@));
        }
    }
    r
}

/// Whether a physical line is a continuation line.
pub fn is_continuation_line(l: &Vec<char>) -> (r: bool)
    ensures
        r == is_continuation(l@),
{
    l.len() > 0 && (l[0] == ' ' || l[0] == '\t')
}

/// Pulls the next unfolded logical line: takes the physical line at `*pos`,
/// appends every directly following continuation line minus its single
/// leading space or tab, and leaves `*pos` on the first line not consumed.
pub fn fetch_next_unfolded_line(lines: &Vec<Vec<char>>, pos: &mut usize) -> (r: Option<
    Vec<char>,
>)
    requires
        *old(pos) <= lines@.len(),
    ensures
        match r {
            None => *final(pos) == *old(pos) && *old(pos) == lines@.len(),
            Some(l) => *old(pos) < *final(pos) <= lines@.len() && unfold_lines(
                lines_view(lines@).skip(*old(pos) as int),
            ) == seq![l@].add(unfold_lines(lines_view(lines@).skip(*final(pos) as int))),
        },
{
    let ghost all = lines_view(lines@);
    if *pos >= lines.len() {
        return None;
    }
    let ghost start = *pos as int;
    let mut cur = subvec(&lines[*pos], 0, lines[*pos].len());
    proof {
        assert(cur@ =~= all[start]);
    }
    *pos = *pos + 1;
    proof {
        assert(seq![cur@].add(all.skip(start + 1)) =~= all.skip(start));
    }
    while *pos < lines.len() && is_continuation_line(&lines[*pos])
        invariant
            start < *pos <= lines@.len(),
            all == lines_view(lines@),
            unfold_lines(all.skip(start)) == unfold_lines(
                seq![cur@].add(all.skip(*pos as int)),
            ),
        decreases lines@.len() - *pos,
    {
        let ghost p = *pos as int;
        let ghost pre = cur@;
        proof {
            assert(all.skip(p)[0] == all[p]);
            assert(is_continuation(all[p]));
            let merged = seq![pre].add(all.skip(p));
            assert(merged.len() >= 2);
            assert(merged[0] == pre);
            assert(merged[1] == all[p]);
            assert(seq![pre + all[p].skip(1)].add(merged.skip(2)) =~= seq![
                pre + all[p].skip(1),
            ].add(all.skip(p + 1)));
        }
        // append lines[*pos][1..] to cur
        let next = &lines[*pos];
        let mut j: usize = 1;
        while j < next.len()
            invariant
                1 <= j <= next@.len(),
                cur@ == pre + next@.subrange(1, j as int),
            decreases next@.len() - j,
        {
            cur.push(next[j]);
            proof {
                assert((pre + next@.subrange(1, j as int)).push(next@[j as int]) =~= pre
                    + next@.subrange(1, j + 1 as int));
            }
            j = j + 1;
        }
        proof {
            assert(next@.subrange(1, next@.len() as int) =~= all[p].skip(1));
            assert(cur@ =~= pre + all[p].skip(1));
        }
        *pos = *pos + 1;
    }
    proof {
        let p = *pos as int;
        if p < all.len() {
            assert(all.skip(p)[0] == all[p]);
            assert(!is_continuation(all[p]));
        }
        let fin = seq![cur@].add(all.skip(p));
        assert(fin.len() >= 2 ==> fin[1] == all.skip(p)[0]);
        assert(fin[0] == cur@);
        assert(fin.drop_first() =~= all.skip(p));
        assert(unfold_lines(fin) == seq![cur@].add(unfold_lines(all.skip(p))));
    }
    Some(cur)
}

/// Unfolding leaves a sequence with no continuation lines unchanged.
pub proof fn lemma_unfold_no_continuations(lines: Seq<Seq<char>>)
    requires
        forall|i: int| 0 <= i < lines.len() ==> !is_continuation(lines[i]),
    ensures
        unfold_lines(lines) == lines,
    decreases lines.len(),
{
    if lines.len() == 0 {
        assert(unfold_lines(lines) =~= lines);
    } else {
        assert(forall|i: int|
            0 <= i < lines.drop_first().len() ==> lines.drop_first()[i] == lines[i + 1]);
        lemma_unfold_no_continuations(lines.drop_first());
        assert(seq![lines[0]].add(lines.drop_first()) =~= lines);
    }
}

} // verus!
