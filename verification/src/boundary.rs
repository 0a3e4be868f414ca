//! Boundaries between user-perceived characters (grapheme clusters): where a
//! caret may stand, and how far one step to the left or right carries it.

use crate::offsets::on_char_boundary;
use crate::offsets::utf8_len;
use unicode_segmentation::UnicodeSegmentation;
use vstd::prelude::*;

verus! {

/// The byte offsets at which the extended grapheme clusters of `text` start, in
/// the order of the text. What a cluster is the Unicode segmentation rules say;
/// here the offsets only have a name.
pub uninterp spec fn cluster_starts(text: Seq<char>) -> Seq<usize>;

/// What holds of the cluster starts of any text `s`: there is one exactly when
/// the text is not empty, the first is 0, they rise strictly, and each is the
/// start of a character of `s`.
pub open spec fn starts_in(starts: Seq<usize>, s: Seq<char>) -> bool {
    &&& (starts.len() == 0) == (s.len() == 0)
    &&& starts.len() > 0 ==> starts[0] == 0
    &&& rising(starts, utf8_len(s) as int)
    &&& forall|i: int| 0 <= i < starts.len() ==> on_char_boundary(s, #[trigger] starts[i] as int)
}

/// Whether `starts` rises strictly and stays below `len`.
pub open spec fn rising(starts: Seq<usize>, len: int) -> bool {
    &&& forall|i: int, j: int| 0 <= i < j < starts.len() ==> starts[i] < starts[j]
    &&& forall|i: int| 0 <= i < starts.len() ==> #[trigger] starts[i] < len
}

/// The last of `starts` that lies below `offset`; 0 where none does.
pub open spec fn previous_in(starts: Seq<usize>, offset: int) -> int
    decreases starts.len(),
{
    if starts.len() == 0 {
        0
    } else if starts.last() < offset {
        starts.last() as int
    } else {
        previous_in(starts.drop_last(), offset)
    }
}

/// The first of `starts` that lies above `offset`; `len` where none does.
pub open spec fn next_in(starts: Seq<usize>, len: int, offset: int) -> int
    decreases starts.len(),
{
    if starts.len() == 0 {
        len
    } else if starts[0] > offset {
        starts[0] as int
    } else {
        next_in(starts.drop_first(), len, offset)
    }
}

/// Calls `UnicodeSegmentation::grapheme_indices` with extended clusters on and
/// keeps the byte offset of each cluster it yields. Trusted: the result is the
/// value named `cluster_starts`, and it has the shape that `starts_in` describes,
/// since the iterator cuts the text into consecutive non-empty string slices
/// from offset 0 on.
#[verifier::external_body]
fn grapheme_starts(text: &str) -> (starts: Vec<usize>)
    ensures
        starts@ == cluster_starts(text@),
        starts_in(starts@, text@),
{
    text.grapheme_indices(true).map(|(index, _)| index).collect()
}

/// The last of `starts` below `offset`, or 0.
pub fn previous_boundary_in(starts: &Vec<usize>, offset: usize) -> (r: usize)
    ensures
        r == previous_in(starts@, offset as int),
{
    let mut i: usize = starts.len();
    proof {
        assert(starts@.take(i as int) =~= starts@);
    }
    while i > 0
        invariant
            i <= starts.len(),
            previous_in(starts@, offset as int) == previous_in(
                starts@.take(i as int),
                offset as int,
            ),
        decreases i,
    {
        if starts[i - 1] < offset {
            return starts[i - 1];
        }
        proof {
            assert(starts@.take(i as int).drop_last() =~= starts@.take(i - 1));
        }
        i = i - 1;
    }
    0
}

/// The first of `starts` above `offset`, or `len`.
pub fn next_boundary_in(starts: &Vec<usize>, len: usize, offset: usize) -> (r: usize)
    ensures
        r == next_in(starts@, len as int, offset as int),
{
    let mut i: usize = 0;
    proof {
        assert(starts@.skip(0) =~= starts@);
    }
    while i < starts.len()
        invariant
            i <= starts.len(),
            next_in(starts@, len as int, offset as int) == next_in(
                starts@.skip(i as int),
                len as int,
                offset as int,
            ),
        decreases starts.len() - i,
    {
        if starts[i] > offset {
            return starts[i];
        }
        proof {
            assert(starts@.skip(i as int).drop_first() =~= starts@.skip(i + 1));
        }
        i = i + 1;
    }
    len
}

/// The cluster boundary before `offset` in `text`: the start of the last cluster
/// that starts below `offset`, and 0 where there is none.
pub fn previous_boundary(text: &str, offset: usize) -> (r: usize)
    ensures
        r == previous_in(cluster_starts(text@), offset as int),
        r <= offset,
        r <= utf8_len(text@),
        on_char_boundary(text@, r as int),
{
    let starts = grapheme_starts(text);
    proof {
        lemma_previous_in(starts@, offset as int);
        crate::offsets::lemma_ends_are_boundaries(text@);
    }
    previous_boundary_in(&starts, offset)
}

/// The cluster boundary after `offset` in `text`: the start of the first cluster
/// that starts above `offset`, and the length of the text where there is none.
pub fn next_boundary(text: &str, offset: usize) -> (r: usize)
    ensures
        r == next_in(cluster_starts(text@), utf8_len(text@) as int, offset as int),
        r <= utf8_len(text@),
        offset < utf8_len(text@) ==> offset < r,
        offset == utf8_len(text@) ==> r == offset,
        on_char_boundary(text@, r as int),
{
    let starts = grapheme_starts(text);
    let len: usize = text.as_bytes().len();
    proof {
        crate::offsets::lemma_encoded_len(text@);
        lemma_next_in(starts@, len as int, offset as int);
        crate::offsets::lemma_ends_are_boundaries(text@);
    }
    next_boundary_in(&starts, len, offset)
}

/// `previous_in` gives 0 or one of `starts` that lies below `offset`.
pub proof fn lemma_previous_in(starts: Seq<usize>, offset: int)
    ensures
        previous_in(starts, offset) == 0 || exists|i: int|
            0 <= i < starts.len() && #[trigger] starts[i] == previous_in(starts, offset)
                && starts[i] < offset,
    decreases starts.len(),
{
    if starts.len() > 0 {
        if starts.last() < offset {
            assert(starts[starts.len() - 1] == previous_in(starts, offset));
        } else {
            let t = starts.drop_last();
            lemma_previous_in(t, offset);
            if previous_in(t, offset) != 0 {
                let i = choose|i: int|
                    0 <= i < t.len() && #[trigger] t[i] == previous_in(t, offset) && t[i] < offset;
                assert(starts[i] == t[i]);
            }
        }
    }
}

/// `next_in` gives `len` or one of `starts` that lies above `offset`.
pub proof fn lemma_next_in(starts: Seq<usize>, len: int, offset: int)
    ensures
        next_in(starts, len, offset) == len || exists|i: int|
            0 <= i < starts.len() && #[trigger] starts[i] == next_in(starts, len, offset)
                && starts[i] > offset,
    decreases starts.len(),
{
    if starts.len() > 0 {
        if starts[0] > offset {
            assert(starts[0] == next_in(starts, len, offset));
        } else {
            let t = starts.drop_first();
            lemma_next_in(t, len, offset);
            if next_in(t, len, offset) != len {
                let i = choose|i: int|
                    0 <= i < t.len() && #[trigger] t[i] == next_in(t, len, offset) && t[i] > offset;
                assert(starts[i + 1] == t[i]);
            }
        }
    }
}

/// In a rising list, the start just below `offset` is the previous boundary.
pub proof fn lemma_previous_at(starts: Seq<usize>, len: int, offset: int, i: int)
    requires
        rising(starts, len),
        0 <= i < starts.len(),
        starts[i] < offset,
        i + 1 < starts.len() ==> starts[i + 1] >= offset,
    ensures
        previous_in(starts, offset) == starts[i],
    decreases starts.len(),
{
    if starts.last() < offset {
        if i + 1 < starts.len() {
            assert(starts[i + 1] <= starts[starts.len() - 1]);
        }
    } else {
        let t = starts.drop_last();
        assert(forall|k: int| 0 <= k < t.len() ==> t[k] == starts[k]);
        lemma_previous_at(t, len, offset, i);
    }
}

/// In a rising list, the first start above `offset` is the next boundary, and
/// the end of the text where no start is above it.
pub proof fn lemma_next_at(starts: Seq<usize>, len: int, offset: int, i: int)
    requires
        rising(starts, len),
        0 <= i <= starts.len(),
        i < starts.len() ==> starts[i] > offset,
        i > 0 ==> starts[i - 1] <= offset,
    ensures
        next_in(starts, len, offset) == (if i < starts.len() {
            starts[i] as int
        } else {
            len
        }),
    decreases starts.len(),
{
    if starts.len() > 0 {
        if starts[0] > offset {
            if i > 0 {
                assert(starts[0] <= starts[i - 1]);
            }
        } else {
            let t = starts.drop_first();
            assert(forall|k: int| 0 <= k < t.len() ==> t[k] == starts[k + 1]);
            lemma_next_at(t, len, offset, i - 1);
        }
    }
}

/// Whether `offset` is a cluster boundary of a text of `len` bytes whose
/// clusters start at `starts`: one of the starts, or the end of the text.
pub open spec fn is_boundary(starts: Seq<usize>, len: int, offset: int) -> bool {
    offset == len || exists|i: int| 0 <= i < starts.len() && #[trigger] starts[i] == offset
}

/// A step to the right never moves left, ends inside the text, and moves on
/// as long as the end is not reached.
pub proof fn law_next_advances(starts: Seq<usize>, s: Seq<char>, offset: int)
    requires
        starts_in(starts, s),
        0 <= offset <= utf8_len(s),
    ensures
        offset <= next_in(starts, utf8_len(s) as int, offset) <= utf8_len(s),
        offset < utf8_len(s) ==> offset < next_in(starts, utf8_len(s) as int, offset),
{
    lemma_next_in(starts, utf8_len(s) as int, offset);
}

/// A step to the left never moves right and ends on a boundary.
pub proof fn law_previous_retreats(starts: Seq<usize>, s: Seq<char>, offset: int)
    requires
        starts_in(starts, s),
        0 <= offset,
    ensures
        0 <= previous_in(starts, offset) <= offset,
        offset > 0 ==> previous_in(starts, offset) < offset,
        is_boundary(starts, utf8_len(s) as int, previous_in(starts, offset)),
{
    lemma_previous_in(starts, offset);
    if previous_in(starts, offset) == 0 && starts.len() > 0 {
        assert(starts[0] == 0);
    }
}

/// From a cluster boundary, a step to the left and then a step to the right
/// lead back to where one stood: `next(previous(o)) <= o <= next(o)`, the
/// first with equality. The start of a text that is not empty is left out:
/// no step leads left from it, and the step to the right leads away.
pub proof fn law_step_back_and_forth(starts: Seq<usize>, s: Seq<char>, offset: int)
    requires
        starts_in(starts, s),
        0 <= offset <= utf8_len(s),
        is_boundary(starts, utf8_len(s) as int, offset),
        offset > 0 || s.len() == 0,
    ensures
        next_in(starts, utf8_len(s) as int, previous_in(starts, offset)) == offset,
        next_in(starts, utf8_len(s) as int, previous_in(starts, offset)) <= offset <= next_in(
            starts,
            utf8_len(s) as int,
            offset,
        ),
{
    let len = utf8_len(s) as int;
    law_next_advances(starts, s, offset);
    if s.len() == 0 {
        assert(utf8_len(s) == 0);
    } else if exists|i: int| 0 <= i < starts.len() && #[trigger] starts[i] == offset {
        let i = choose|i: int| 0 <= i < starts.len() && #[trigger] starts[i] == offset;
        assert(i > 0) by {
            assert(starts[0] == 0);
        }
        lemma_previous_at(starts, len, offset, i - 1);
        lemma_next_at(starts, len, starts[i - 1] as int, i);
    } else {
        let n = starts.len() as int;
        lemma_previous_at(starts, len, offset, n - 1);
        lemma_next_at(starts, len, starts[n - 1] as int, n);
    }
}

/// Steps to the right from the start of the text visit the clusters one by
/// one, in order, and then reach the end: from the start of a cluster the
/// next boundary is the start of the cluster after it, and from the start of
/// the last cluster it is the length of the text.
pub proof fn law_walk_visits_each(starts: Seq<usize>, s: Seq<char>, i: int)
    requires
        starts_in(starts, s),
        0 <= i < starts.len(),
    ensures
        next_in(starts, utf8_len(s) as int, starts[i] as int) == (if i + 1 < starts.len() {
            starts[i + 1] as int
        } else {
            utf8_len(s) as int
        }),
        starts[0] == 0,
{
    lemma_next_at(starts, utf8_len(s) as int, starts[i] as int, i + 1);
}

} // verus!
