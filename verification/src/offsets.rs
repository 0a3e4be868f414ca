//! Offsets into a text in its two encodings: bytes of UTF-8, in which the text is
//! stored, and 16-bit code units, in which an input method addresses it.
//!
//! Every conversion rounds an offset that falls inside a character down to the
//! start of that character, and an offset past the end down to the end.

use std::ops::Range;
use vstd::prelude::*;
use vstd::std_specs::iter::IteratorSpec;
use vstd::utf8::encode_scalar;
use vstd::utf8::encode_utf8;

verus! {

broadcast use vstd::string::group_string_axioms;

/// The number of bytes that `c` takes in UTF-8.
pub open spec fn utf8_width(c: char) -> nat {
    if (c as u32) < 0x80 {
        1
    } else if (c as u32) < 0x800 {
        2
    } else if (c as u32) < 0x10000 {
        3
    } else {
        4
    }
}

/// The number of 16-bit code units that `c` takes in UTF-16.
pub open spec fn utf16_width(c: char) -> nat {
    if (c as u32) < 0x10000 {
        1
    } else {
        2
    }
}

/// UTF-8 bytes as a measure of a character.
pub open spec fn utf8_units() -> spec_fn(char) -> nat {
    |c: char| utf8_width(c)
}

/// UTF-16 code units as a measure of a character.
pub open spec fn utf16_units() -> spec_fn(char) -> nat {
    |c: char| utf16_width(c)
}

/// A measure under which every character counts for something.
pub open spec fn positive(w: spec_fn(char) -> nat) -> bool {
    forall|c: char| #[trigger] w(c) >= 1
}

/// The sum of the measure `w` over the characters of `s`.
pub open spec fn weight(s: Seq<char>, w: spec_fn(char) -> nat) -> nat
    decreases s.len(),
{
    if s.len() == 0 {
        0
    } else {
        weight(s.drop_last(), w) + w(s.last())
    }
}

/// How many leading characters of `s` fit into `budget`: the greatest `k` for
/// which the first `k` characters weigh no more than `budget`.
pub open spec fn fitting(s: Seq<char>, w: spec_fn(char) -> nat, budget: nat) -> nat
    decreases s.len(),
{
    if s.len() == 0 || weight(s, w) <= budget {
        s.len()
    } else {
        fitting(s.drop_last(), w, budget)
    }
}

/// The length of `s` in bytes of UTF-8.
pub open spec fn utf8_len(s: Seq<char>) -> nat {
    weight(s, utf8_units())
}

/// The length of `s` in code units of UTF-16.
pub open spec fn utf16_len(s: Seq<char>) -> nat {
    weight(s, utf16_units())
}

/// Whether the byte offset `o` is the start of a character of `s`, or its end.
pub open spec fn on_char_boundary(s: Seq<char>, o: int) -> bool {
    exists|k: int| 0 <= k <= s.len() && #[trigger] utf8_len(s.take(k)) == o
}

/// Whether the code-unit offset `u` is the start of a character of `s`, or its end.
pub open spec fn on_utf16_boundary(s: Seq<char>, u: int) -> bool {
    exists|k: int| 0 <= k <= s.len() && #[trigger] utf16_len(s.take(k)) == u
}

/// The number of characters of `s` that end at or before the byte offset `o`.
pub open spec fn chars_before(s: Seq<char>, o: nat) -> nat {
    fitting(s, utf8_units(), o)
}

/// The byte offset `o`, moved down to the nearest character boundary of `s`.
pub open spec fn floor_boundary(s: Seq<char>, o: nat) -> nat {
    utf8_len(s.take(chars_before(s, o) as int))
}

/// The byte offset that the code-unit offset `u` stands for in `s`: the bytes of
/// the characters that end at or before `u`.
pub open spec fn utf16_to_utf8(s: Seq<char>, u: nat) -> nat {
    utf8_len(s.take(fitting(s, utf16_units(), u) as int))
}

/// The code-unit offset that the byte offset `o` stands for in `s`: the code
/// units of the characters that end at or before `o`.
pub open spec fn utf8_to_utf16(s: Seq<char>, o: nat) -> nat {
    utf16_len(s.take(chars_before(s, o) as int))
}

/// In both encodings every character takes at least one unit.
pub proof fn lemma_units_positive()
    ensures
        positive(utf8_units()),
        positive(utf16_units()),
{
}

/// One more character adds its own measure to a prefix.
pub proof fn lemma_weight_step(s: Seq<char>, w: spec_fn(char) -> nat, k: int)
    requires
        0 <= k < s.len(),
    ensures
        weight(s.take(k + 1), w) == weight(s.take(k), w) + w(s[k]),
{
    assert(s.take(k + 1).drop_last() =~= s.take(k));
}

/// A longer prefix weighs more, by at least the number of characters added.
pub proof fn lemma_weight_grows(s: Seq<char>, w: spec_fn(char) -> nat, a: int, b: int)
    requires
        positive(w),
        0 <= a <= b <= s.len(),
    ensures
        weight(s.take(a), w) + (b - a) <= weight(s.take(b), w),
    decreases b - a,
{
    if a < b {
        lemma_weight_grows(s, w, a, b - 1);
        lemma_weight_step(s, w, b - 1);
    }
}

/// The measure of two texts joined is the sum of their measures.
pub proof fn lemma_weight_concat(a: Seq<char>, b: Seq<char>, w: spec_fn(char) -> nat)
    ensures
        weight(a + b, w) == weight(a, w) + weight(b, w),
    decreases b.len(),
{
    if b.len() == 0 {
        assert(a + b =~= a);
    } else {
        assert((a + b).drop_last() =~= a + b.drop_last());
        lemma_weight_concat(a, b.drop_last(), w);
    }
}

/// What `fitting` returns: a prefix that fits and cannot be made longer.
pub proof fn lemma_fitting(s: Seq<char>, w: spec_fn(char) -> nat, budget: nat)
    ensures
        fitting(s, w, budget) <= s.len(),
        weight(s.take(fitting(s, w, budget) as int), w) <= budget,
        fitting(s, w, budget) < s.len() ==> weight(
            s.take(fitting(s, w, budget) as int + 1),
            w,
        ) > budget,
    decreases s.len(),
{
    if s.len() == 0 || weight(s, w) <= budget {
        assert(s.take(s.len() as int) =~= s);
    } else {
        let t = s.drop_last();
        let k = fitting(t, w, budget) as int;
        lemma_fitting(t, w, budget);
        assert(t.take(k) =~= s.take(k));
        if k < t.len() {
            assert(t.take(k + 1) =~= s.take(k + 1));
        } else {
            assert(s.take(k + 1) =~= s);
        }
    }
}

/// Only one prefix fits and cannot be made longer.
pub proof fn lemma_fitting_unique(s: Seq<char>, w: spec_fn(char) -> nat, budget: nat, j: int)
    requires
        positive(w),
        0 <= j <= s.len(),
        weight(s.take(j), w) <= budget,
        j < s.len() ==> weight(s.take(j + 1), w) > budget,
    ensures
        fitting(s, w, budget) == j,
{
    let k = fitting(s, w, budget) as int;
    lemma_fitting(s, w, budget);
    if k < j {
        lemma_weight_grows(s, w, k + 1, j);
    } else if j < k {
        lemma_weight_grows(s, w, j + 1, k);
    }
}

/// The start and the end of a text are character boundaries.
pub proof fn lemma_ends_are_boundaries(s: Seq<char>)
    ensures
        on_char_boundary(s, 0),
        on_char_boundary(s, utf8_len(s) as int),
        on_utf16_boundary(s, 0),
        on_utf16_boundary(s, utf16_len(s) as int),
{
    assert(s.take(0) =~= Seq::<char>::empty());
    assert(s.take(s.len() as int) =~= s);
    assert(utf8_len(s.take(0)) == 0);
    assert(utf8_len(s.take(s.len() as int)) == utf8_len(s));
    assert(utf16_len(s.take(0)) == 0);
    assert(utf16_len(s.take(s.len() as int)) == utf16_len(s));
}

/// A larger budget fits no fewer characters.
pub proof fn lemma_fitting_monotone(s: Seq<char>, w: spec_fn(char) -> nat, a: nat, b: nat)
    requires
        positive(w),
        a <= b,
    ensures
        fitting(s, w, a) <= fitting(s, w, b),
{
    let i = fitting(s, w, a) as int;
    let j = fitting(s, w, b) as int;
    lemma_fitting(s, w, a);
    lemma_fitting(s, w, b);
    if j < i {
        lemma_weight_grows(s, w, j + 1, i);
    }
}

/// A text takes no more code units of UTF-16 than bytes of UTF-8.
pub proof fn lemma_utf16_le_utf8(s: Seq<char>)
    ensures
        utf16_len(s) <= utf8_len(s),
    decreases s.len(),
{
    if s.len() > 0 {
        lemma_utf16_le_utf8(s.drop_last());
    }
}

/// The bytes that a text is stored in are as many as `utf8_len` counts.
pub proof fn lemma_encoded_len(s: Seq<char>)
    ensures
        encode_utf8(s).len() == utf8_len(s),
    decreases s.len(),
{
    if s.len() > 0 {
        let head = seq![s[0]];
        lemma_encoded_len(s.drop_first());
        lemma_weight_concat(head, s.drop_first(), utf8_units());
        assert(head + s.drop_first() =~= s);
        assert(head.drop_last() =~= Seq::<char>::empty());
        assert(weight(head, utf8_units()) == utf8_width(s[0])) by {
            reveal_with_fuel(weight, 2);
        }
        vstd::utf8::char_is_scalar(s[0]);
        assert(encode_scalar(s[0] as u32).len() == utf8_width(s[0]));
    }
}

/// A prefix of a text, measured three ways.
#[derive(Clone, Copy, Debug)]
pub struct Prefix {
    /// Its characters.
    pub chars: usize,
    /// Its bytes in UTF-8.
    pub bytes: usize,
    /// Its code units in UTF-16.
    pub units: usize,
}

/// The number of bytes that `c` takes in UTF-8.
pub fn char_len_utf8(c: char) -> (n: usize)
    ensures
        n == utf8_width(c),
{
    let v: u32 = c as u32;
    if v < 0x80 {
        1
    } else if v < 0x800 {
        2
    } else if v < 0x10000 {
        3
    } else {
        4
    }
}

/// The number of 16-bit code units that `c` takes in UTF-16.
pub fn char_len_utf16(c: char) -> (n: usize)
    ensures
        n == utf16_width(c),
{
    let v: u32 = c as u32;
    if v < 0x10000 {
        1
    } else {
        2
    }
}

/// The measure that `limit` is counted in: code units where `in_utf16`, else bytes.
pub open spec fn units_of(in_utf16: bool) -> spec_fn(char) -> nat {
    if in_utf16 {
        utf16_units()
    } else {
        utf8_units()
    }
}

/// Walks `text` from its start and returns the longest prefix of whole
/// characters that ends at or before `limit`, an offset in code units where
/// `in_utf16`, else in bytes.
pub fn prefix_within(text: &str, in_utf16: bool, limit: usize) -> (p: Prefix)
    ensures
        p.chars == fitting(text@, units_of(in_utf16), limit as nat),
        p.chars <= text@.len(),
        p.bytes == utf8_len(text@.take(p.chars as int)),
        p.units == utf16_len(text@.take(p.chars as int)),
{
    let ghost s = text@;
    let ghost w = units_of(in_utf16);
    let total: usize = text.as_bytes().len();
    let mut it = text.chars();
    let mut chars: usize = 0;
    let mut bytes: usize = 0;
    let mut units: usize = 0;
    let mut stopped: bool = false;
    proof {
        lemma_encoded_len(s);
        lemma_units_positive();
        assert(s.skip(0) =~= s);
    }
    while !stopped
        invariant
            s == text@,
            w == units_of(in_utf16),
            positive(w),
            total == utf8_len(s),
            !stopped ==> it.remaining() == s.skip(chars as int),
            chars <= s.len(),
            bytes == utf8_len(s.take(chars as int)),
            units == utf16_len(s.take(chars as int)),
            weight(s.take(chars as int), w) <= limit,
            stopped ==> fitting(s, w, limit as nat) == chars,
        decreases s.len() - chars + (if stopped { 0int } else { 1int }),
    {
        match it.next() {
            None => {
                proof {
                    lemma_fitting_unique(s, w, limit as nat, chars as int);
                }
                stopped = true;
            },
            Some(c) => {
                proof {
                    assert(c == s[chars as int]);
                    assert(s.skip(chars as int).drop_first() =~= s.skip(chars + 1));
                    lemma_weight_step(s, utf8_units(), chars as int);
                    lemma_weight_step(s, utf16_units(), chars as int);
                    lemma_weight_grows(s, utf8_units(), chars + 1, s.len() as int);
                    lemma_weight_grows(s, utf8_units(), 0, chars as int);
                    lemma_utf16_le_utf8(s.take(chars + 1));
                    assert(s.take(s.len() as int) =~= s);
                }
                let w8: usize = char_len_utf8(c);
                let w16: usize = char_len_utf16(c);
                let used: usize = if in_utf16 { units } else { bytes };
                let step: usize = if in_utf16 { w16 } else { w8 };
                if limit - used < step {
                    proof {
                        lemma_fitting_unique(s, w, limit as nat, chars as int);
                    }
                    stopped = true;
                } else {
                    chars = chars + 1;
                    bytes = bytes + w8;
                    units = units + w16;
                }
            },
        }
    }
    Prefix { chars, bytes, units }
}

/// The byte offset in `text` that the code-unit offset `offset` stands for. An
/// offset inside a character gives the start of that character, and one past
/// the end gives the length of the text.
pub fn offset_from_utf16(text: &str, offset: usize) -> (r: usize)
    ensures
        r == utf16_to_utf8(text@, offset as nat),
        r <= utf8_len(text@),
        on_char_boundary(text@, r as int),
{
    let p = prefix_within(text, true, offset);
    proof {
        lemma_units_positive();
        lemma_weight_grows(text@, utf8_units(), p.chars as int, text@.len() as int);
        assert(text@.take(text@.len() as int) =~= text@);
    }
    p.bytes
}

/// The code-unit offset in `text` that the byte offset `offset` stands for: the
/// code units of the characters that end at or before it.
pub fn offset_to_utf16(text: &str, offset: usize) -> (r: usize)
    ensures
        r == utf8_to_utf16(text@, offset as nat),
        r <= utf16_len(text@),
        on_utf16_boundary(text@, r as int),
{
    let p = prefix_within(text, false, offset);
    proof {
        lemma_units_positive();
        lemma_weight_grows(text@, utf16_units(), p.chars as int, text@.len() as int);
        assert(text@.take(text@.len() as int) =~= text@);
    }
    p.units
}

/// Both bounds of a range of code units as byte offsets, each converted on its own.
pub fn range_from_utf16(text: &str, range_utf16: &Range<usize>) -> (r: Range<usize>)
    ensures
        r.start == utf16_to_utf8(text@, range_utf16.start as nat),
        r.end == utf16_to_utf8(text@, range_utf16.end as nat),
{
    let start: usize = offset_from_utf16(text, range_utf16.start);
    let end: usize = offset_from_utf16(text, range_utf16.end);
    start..end
}

/// Both bounds of a range of bytes as code-unit offsets, each converted on its own.
pub fn range_to_utf16(text: &str, range: &Range<usize>) -> (r: Range<usize>)
    ensures
        r.start == utf8_to_utf16(text@, range.start as nat),
        r.end == utf8_to_utf16(text@, range.end as nat),
{
    let start: usize = offset_to_utf16(text, range.start);
    let end: usize = offset_to_utf16(text, range.end);
    start..end
}

/// The byte offset `offset` moved down to the nearest character boundary of
/// `text`, and to the end of the text where it lies past it.
pub fn floor_char_boundary(text: &str, offset: usize) -> (r: usize)
    ensures
        r == floor_boundary(text@, offset as nat),
        r <= offset,
        r <= utf8_len(text@),
        on_char_boundary(text@, r as int),
{
    let p = prefix_within(text, false, offset);
    proof {
        lemma_floor_boundary(text@, offset as nat);
    }
    p.bytes
}

/// Rounding down gives a character boundary at or below the offset, inside the
/// text; it leaves a boundary where it is and takes what lies past the end to
/// the end.
pub proof fn lemma_floor_boundary(s: Seq<char>, o: nat)
    ensures
        floor_boundary(s, o) <= o,
        floor_boundary(s, o) <= utf8_len(s),
        on_char_boundary(s, floor_boundary(s, o) as int),
        on_char_boundary(s, o as int) ==> floor_boundary(s, o) == o,
        o >= utf8_len(s) ==> floor_boundary(s, o) == utf8_len(s),
{
    let k = chars_before(s, o) as int;
    lemma_units_positive();
    lemma_fitting(s, utf8_units(), o);
    lemma_weight_grows(s, utf8_units(), k, s.len() as int);
    assert(s.take(s.len() as int) =~= s);
    if on_char_boundary(s, o as int) {
        let j = choose|j: int| 0 <= j <= s.len() && #[trigger] utf8_len(s.take(j)) == o;
        lemma_chars_before_boundary(s, j);
    }
    if o >= utf8_len(s) {
        lemma_fitting_unique(s, utf8_units(), o, s.len() as int);
    }
}

/// Before the byte offset at which the first `k` characters end lie exactly
/// those `k` characters.
pub proof fn lemma_chars_before_boundary(s: Seq<char>, k: int)
    requires
        0 <= k <= s.len(),
    ensures
        chars_before(s, utf8_len(s.take(k))) == k,
        fitting(s, utf16_units(), utf16_len(s.take(k))) == k,
{
    lemma_units_positive();
    if k < s.len() {
        lemma_weight_step(s, utf8_units(), k);
        lemma_weight_step(s, utf16_units(), k);
    }
    lemma_fitting_unique(s, utf8_units(), utf8_len(s.take(k)), k);
    lemma_fitting_unique(s, utf16_units(), utf16_len(s.take(k)), k);
}

/// A byte offset on a character boundary, taken to code units and back, is
/// the offset that one started from.
pub proof fn law_round_trip_from_bytes(s: Seq<char>, o: nat)
    requires
        on_char_boundary(s, o as int),
    ensures
        utf16_to_utf8(s, utf8_to_utf16(s, o)) == o,
{
    let k = choose|k: int| 0 <= k <= s.len() && #[trigger] utf8_len(s.take(k)) == o;
    lemma_chars_before_boundary(s, k);
}

/// A code-unit offset on a character boundary, taken to bytes and back, is
/// the offset that one started from.
pub proof fn law_round_trip_from_utf16(s: Seq<char>, u: nat)
    requires
        on_utf16_boundary(s, u as int),
    ensures
        utf8_to_utf16(s, utf16_to_utf8(s, u)) == u,
{
    let k = choose|k: int| 0 <= k <= s.len() && #[trigger] utf16_len(s.take(k)) == u;
    lemma_chars_before_boundary(s, k);
}

} // verus!
