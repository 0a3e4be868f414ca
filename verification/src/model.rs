//! The text input as a value, and what each of its operations does to that
//! value. The operations of `TextInput` are stated against these functions, and
//! what holds of every input is proved here.

use crate::boundary::cluster_starts;
use crate::boundary::next_in;
use crate::boundary::previous_in;
use crate::input::Command;
use crate::input::Effect;
use crate::input::Highlight;
use crate::input::LayoutQuery;
use crate::input::Run;
use crate::offsets::chars_before;
use crate::offsets::floor_boundary;
use crate::offsets::lemma_chars_before_boundary;
use crate::offsets::lemma_floor_boundary;
use crate::offsets::lemma_units_positive;
use crate::offsets::lemma_weight_concat;
use crate::offsets::lemma_weight_grows;
use crate::offsets::on_char_boundary;
use crate::offsets::utf16_to_utf8;
use crate::offsets::utf8_len;
use crate::offsets::utf8_units;
use std::ops::Range;
use vstd::prelude::*;

verus! {

/// What a text input holds, as values.
pub struct InputView {
    pub text: Seq<char>,
    pub placeholder: Seq<char>,
    /// The selection, in bytes: from `start` up to `end`. A caret where both are equal.
    pub start: nat,
    pub end: nat,
    /// Whether the selection was extended leftwards, so that `start` is the edge
    /// that moves and `end` the anchor.
    pub reversed: bool,
    /// The text under composition, in bytes, while an input method composes.
    pub marked: Option<(nat, nat)>,
    pub disabled: bool,
    pub masked: bool,
    pub appearance: bool,
    /// The handle of the line that was shaped at the last paint, once there was one.
    pub layout: Option<u64>,
}

/// A range of bytes as a pair.
pub open spec fn span(r: Range<usize>) -> (nat, nat) {
    (r.start as nat, r.end as nat)
}

/// An optional range of bytes as an optional pair.
pub open spec fn opt_span(r: Option<Range<usize>>) -> Option<(nat, nat)> {
    match r {
        Some(r) => Some(span(r)),
        None => None,
    }
}

/// A pair of byte offsets brought into `text`: each bound rounded down to a
/// character boundary, and an end before the start raised to the start.
pub open spec fn clamp_span(text: Seq<char>, r: (nat, nat)) -> (nat, nat) {
    let a = floor_boundary(text, r.0);
    let b = floor_boundary(text, r.1);
    (a, if b < a { a } else { b })
}

/// A pair of code-unit offsets as byte offsets of `text`, each bound converted on
/// its own, and an end before the start raised to the start.
pub open spec fn span_from_utf16(text: Seq<char>, r: (nat, nat)) -> (nat, nat) {
    let a = utf16_to_utf8(text, r.0);
    let b = utf16_to_utf8(text, r.1);
    (a, if b < a { a } else { b })
}

/// An optional pair of code-unit offsets as byte offsets of `text`.
pub open spec fn opt_span_from_utf16(text: Seq<char>, r: Option<(nat, nat)>) -> Option<
    (nat, nat),
> {
    match r {
        Some(r) => Some(span_from_utf16(text, r)),
        None => None,
    }
}

/// The characters of `text` between two byte offsets.
pub open spec fn slice(text: Seq<char>, r: (nat, nat)) -> Seq<char> {
    let i = chars_before(text, r.0) as int;
    let j = chars_before(text, r.1) as int;
    text.subrange(i, if j < i { i } else { j })
}

/// `text` with the characters between two byte offsets replaced by `new_text`.
pub open spec fn splice(text: Seq<char>, r: (nat, nat), new_text: Seq<char>) -> Seq<char> {
    let i = chars_before(text, r.0) as int;
    let j = chars_before(text, r.1) as int;
    text.take(i) + new_text + text.skip(if j < i { i } else { j })
}

impl InputView {
    /// The length of the text in bytes.
    pub open spec fn len(self) -> nat {
        utf8_len(self.text)
    }

    /// The selection lies inside the text, in order, on character boundaries; and
    /// so does the text under composition, where there is one.
    pub open spec fn valid(self) -> bool {
        &&& self.start <= self.end <= self.len()
        &&& on_char_boundary(self.text, self.start as int)
        &&& on_char_boundary(self.text, self.end as int)
        &&& match self.marked {
            Some((a, b)) => a <= b <= self.len() && on_char_boundary(self.text, a as int)
                && on_char_boundary(self.text, b as int),
            None => true,
        }
    }

    /// The empty input.
    pub open spec fn empty() -> Self {
        InputView {
            text: Seq::empty(),
            placeholder: Seq::empty(),
            start: 0,
            end: 0,
            reversed: false,
            marked: None,
            disabled: false,
            masked: false,
            appearance: true,
            layout: None,
        }
    }

    /// The edge of the selection that moves when the selection is extended.
    pub open spec fn cursor(self) -> nat {
        if self.reversed {
            self.start
        } else {
            self.end
        }
    }

    /// The selection as the pair of its bounds.
    pub open spec fn selected(self) -> (nat, nat) {
        (self.start, self.end)
    }

    /// A caret at `offset`, with no direction.
    pub open spec fn caret_at(self, offset: nat) -> Self {
        InputView { start: offset, end: offset, reversed: false, ..self }
    }

    /// The selection collapsed to a caret at `offset`, brought into the text.
    pub open spec fn move_to(self, offset: nat) -> Self {
        self.caret_at(floor_boundary(self.text, offset))
    }

    /// The moving edge of the selection taken to `offset`, brought into the
    /// text. Where it crosses the anchor the two bounds change places and the
    /// direction turns.
    pub open spec fn select_to(self, offset: nat) -> Self {
        let b = floor_boundary(self.text, offset);
        if self.reversed {
            if b <= self.end {
                InputView { start: b, ..self }
            } else {
                InputView { start: self.end, end: b, reversed: false, ..self }
            }
        } else {
            if self.start <= b {
                InputView { end: b, ..self }
            } else {
                InputView { start: b, end: self.start, reversed: true, ..self }
            }
        }
    }

    /// All of the text selected, left to right.
    pub open spec fn select_all(self) -> Self {
        InputView { start: 0, end: self.len(), reversed: false, ..self }
    }

    /// The range that an edit replaces: the one given, brought into the text;
    /// else the text under composition; else the selection.
    pub open spec fn target(self, range: Option<(nat, nat)>) -> (nat, nat) {
        match range {
            Some(r) => clamp_span(self.text, r),
            None => match self.marked {
                Some(m) => m,
                None => self.selected(),
            },
        }
    }

    /// `new_text` put in place of the target range, the caret behind it, and no
    /// composition left.
    pub open spec fn replace(self, range: Option<(nat, nat)>, new_text: Seq<char>) -> Self {
        let t = self.target(range);
        let caret = t.0 + utf8_len(new_text);
        InputView {
            text: splice(self.text, t, new_text),
            start: caret,
            end: caret,
            reversed: false,
            marked: None,
            ..self
        }
    }

    /// `new_text` put in place of the target range and marked as under
    /// composition. The selection is `selected`, a range inside `new_text`,
    /// moved to where `new_text` now starts; without one, a caret behind
    /// `new_text`.
    pub open spec fn replace_and_mark(
        self,
        range: Option<(nat, nat)>,
        new_text: Seq<char>,
        selected: Option<(nat, nat)>,
    ) -> Self {
        let t = self.target(range);
        let inner = match selected {
            Some(r) => clamp_span(new_text, r),
            None => (utf8_len(new_text), utf8_len(new_text)),
        };
        InputView {
            text: splice(self.text, t, new_text),
            start: t.0 + inner.0,
            end: t.0 + inner.1,
            reversed: false,
            marked: Some((t.0, t.0 + utf8_len(new_text))),
            ..self
        }
    }

    /// No composition; the text as it is.
    pub open spec fn unmark(self) -> Self {
        InputView { marked: None, ..self }
    }

    /// The selected characters.
    pub open spec fn selected_text(self) -> Seq<char> {
        slice(self.text, self.selected())
    }

    /// Where one step to the left takes the cursor: the cluster boundary before it.
    pub open spec fn step_left(self) -> nat {
        previous_in(cluster_starts(self.text), self.cursor() as int) as nat
    }

    /// Where one step to the right takes the cursor: the cluster boundary after it.
    pub open spec fn step_right(self) -> nat {
        next_in(cluster_starts(self.text), self.len() as int, self.cursor() as int) as nat
    }

    /// The caret moved one cluster to the left; a selection collapsed to its start.
    pub open spec fn left(self) -> Self {
        if self.start == self.end {
            self.caret_at(self.step_left())
        } else {
            self.caret_at(self.start)
        }
    }

    /// The caret moved one cluster to the right; a selection collapsed to its end.
    pub open spec fn right(self) -> Self {
        if self.start == self.end {
            self.caret_at(self.step_right())
        } else {
            self.caret_at(self.end)
        }
    }

    /// The selection, or for a caret the cluster on the given side of it, deleted;
    /// nothing where the input is disabled.
    pub open spec fn delete_step(self, leftwards: bool) -> Self {
        if self.disabled {
            self
        } else if self.start == self.end {
            self.select_to(
                if leftwards {
                    self.step_left()
                } else {
                    self.step_right()
                },
            ).replace(None, Seq::empty())
        } else {
            self.replace(None, Seq::empty())
        }
    }
}

impl InputView {
    /// A new text, the caret behind it, and no composition.
    pub open spec fn with_text(self, text: Seq<char>) -> Self {
        InputView {
            text,
            start: utf8_len(text),
            end: utf8_len(text),
            reversed: false,
            marked: None,
            ..self
        }
    }

    /// What an input method's commit does: `replace`, with the range given in
    /// code units of the text; nothing where the input is disabled.
    pub open spec fn ime_replace(
        self,
        range_utf16: Option<(nat, nat)>,
        new_text: Seq<char>,
    ) -> Self {
        if self.disabled {
            self
        } else {
            self.replace(opt_span_from_utf16(self.text, range_utf16), new_text)
        }
    }

    /// What an input method's preview does: `replace_and_mark`, with the range
    /// given in code units of the text and the selection in code units of
    /// `new_text`; nothing where the input is disabled.
    pub open spec fn ime_replace_and_mark(
        self,
        range_utf16: Option<(nat, nat)>,
        new_text: Seq<char>,
        selected_utf16: Option<(nat, nat)>,
    ) -> Self {
        if self.disabled {
            self
        } else {
            self.replace_and_mark(
                opt_span_from_utf16(self.text, range_utf16),
                new_text,
                opt_span_from_utf16(new_text, selected_utf16),
            )
        }
    }

    /// The selection cut out: replaced by nothing.
    pub open spec fn cut(self) -> Self {
        self.replace(Some(self.selected()), Seq::empty())
    }

    /// The selection replaced by what the clipboard holds; nothing where it
    /// holds no text.
    pub open spec fn paste(self, clipboard: Option<Seq<char>>) -> Self {
        match clipboard {
            Some(text) => self.replace(Some(self.selected()), text),
            None => self,
        }
    }

    /// The input after `command`, where the clipboard holds `clipboard`.
    pub open spec fn apply(self, command: Command, clipboard: Option<Seq<char>>) -> Self {
        match command {
            Command::MoveLeft => self.left(),
            Command::MoveRight => self.right(),
            Command::SelectLeft => self.select_to(self.step_left()),
            Command::SelectRight => self.select_to(self.step_right()),
            Command::SelectAll => self.select_all(),
            Command::Home => self.caret_at(0),
            Command::End => self.caret_at(self.len()),
            Command::MoveToStartOfLine => self.caret_at(0),
            Command::MoveToEndOfLine => self.caret_at(self.len()),
            Command::Backspace => self.delete_step(true),
            Command::Delete => self.delete_step(false),
            Command::Copy => self,
            Command::Cut => self.cut(),
            Command::Paste => self.paste(clipboard),
            Command::ShowCharacterPalette => self,
        }
    }
}

/// The text that `effect` puts on the clipboard, if it does.
pub open spec fn clipboard_text(effect: Effect) -> Option<Seq<char>> {
    match effect {
        Effect::WriteClipboard(text) => Some(text@),
        _ => None,
    }
}

/// `n` times the glyph that stands for a character of a masked text.
pub open spec fn mask(n: nat) -> Seq<char> {
    Seq::new(n, |i: int| '*')
}

/// The runs of `runs` that are not empty, in their order.
pub open spec fn visible(runs: Seq<Run>) -> Seq<Run> {
    runs.filter(|r: Run| r.len > 0)
}

/// The sum of the lengths of `runs`.
pub open spec fn total_len(runs: Seq<Run>) -> nat
    decreases runs.len(),
{
    if runs.len() == 0 {
        0
    } else {
        total_len(runs.drop_last()) + runs.last().len as nat
    }
}

impl InputView {
    /// Whether the text is shown as one glyph per character.
    pub open spec fn shows_mask(self) -> bool {
        self.masked && self.text.len() > 0
    }

    /// What is drawn in the input: the placeholder while the text is empty, one
    /// glyph per character where the input is masked, else the text.
    pub open spec fn display(self) -> Seq<char> {
        if self.text.len() == 0 {
            self.placeholder
        } else if self.masked {
            mask(self.text.len())
        } else {
            self.text
        }
    }

    /// The byte offset in the displayed text that stands for the byte offset
    /// `offset` in the text.
    pub open spec fn to_display(self, offset: nat) -> nat {
        if self.shows_mask() {
            chars_before(self.text, offset)
        } else {
            offset
        }
    }

    /// The runs that the displayed text is drawn in. Without a composition, one
    /// run. With one, what lies before it, the composition underlined, and what
    /// lies behind it, without those that are empty.
    pub open spec fn runs(self) -> Seq<Run> {
        match self.marked {
            None => seq![Run { len: utf8_len(self.display()) as usize, underline: false }],
            Some((a, b)) => visible(self.parts(a, b)),
        }
    }

    /// The displayed text in three runs: before the byte offset `a` of the
    /// text, from `a` to `b` underlined, and from `b` on.
    pub open spec fn parts(self, a: nat, b: nat) -> Seq<Run> {
        let before = self.to_display(a);
        let marked = self.to_display(b) - self.to_display(a);
        let behind = utf8_len(self.display()) - self.to_display(b);
        seq![
            Run { len: before as usize, underline: false },
            Run { len: marked as usize, underline: true },
            Run { len: behind as usize, underline: false },
        ]
    }

    /// What is drawn over the displayed text: a caret at the cursor where
    /// nothing is selected, else the selection, both in byte offsets of the
    /// displayed text.
    pub open spec fn highlight(self) -> Highlight {
        if self.start == self.end {
            Highlight::Caret(self.to_display(self.cursor()) as usize)
        } else {
            Highlight::Selection(
                self.to_display(self.start) as usize,
                self.to_display(self.end) as usize,
            )
        }
    }

    /// What to measure for a range given in code units: nothing before a line
    /// was shaped; after that the two bounds, each converted on its own to a
    /// byte offset of the text and from there to one of the displayed text, in
    /// the line shaped last.
    pub open spec fn bounds_query(self, range_utf16: (nat, nat)) -> Option<LayoutQuery> {
        match self.layout {
            None => None,
            Some(layout) => Some(
                LayoutQuery {
                    layout,
                    start: self.to_display(utf16_to_utf8(self.text, range_utf16.0)) as usize,
                    end: self.to_display(utf16_to_utf8(self.text, range_utf16.1)) as usize,
                },
            ),
        }
    }
}

/// One movement of the caret or of the selection's moving edge.
pub enum Motion {
    /// Collapse the selection to a caret at the offset.
    MoveTo(nat),
    /// Extend the selection to the offset.
    SelectTo(nat),
}

impl InputView {
    /// The input after one movement.
    pub open spec fn step(self, motion: Motion) -> Self {
        match motion {
            Motion::MoveTo(offset) => self.move_to(offset),
            Motion::SelectTo(offset) => self.select_to(offset),
        }
    }

    /// The input after a sequence of movements, first to last.
    pub open spec fn walk(self, motions: Seq<Motion>) -> Self
        decreases motions.len(),
    {
        if motions.len() == 0 {
            self
        } else {
            self.walk(motions.drop_last()).step(motions.last())
        }
    }
}

/// Where `a` and `b` are character boundaries of `text` in order, the text
/// spliced between them is as long as what stays and what comes in, and
/// `new_text` lies in it from `a` on, boundary for boundary.
pub proof fn lemma_splice(text: Seq<char>, a: nat, b: nat, new_text: Seq<char>, k: int)
    requires
        on_char_boundary(text, a as int),
        on_char_boundary(text, b as int),
        a <= b,
        0 <= k <= new_text.len(),
    ensures
        utf8_len(splice(text, (a, b), new_text)) == a + utf8_len(new_text) + utf8_len(text) - b,
        on_char_boundary(splice(text, (a, b), new_text), (a + utf8_len(new_text.take(k))) as int),
        chars_before(splice(text, (a, b), new_text), a + utf8_len(new_text.take(k)))
            == chars_before(text, a) + k,
        utf8_len(new_text.take(k)) <= utf8_len(new_text),
        b <= utf8_len(text),
{
    let i = choose|i: int| 0 <= i <= text.len() && #[trigger] utf8_len(text.take(i)) == a;
    let j = choose|j: int| 0 <= j <= text.len() && #[trigger] utf8_len(text.take(j)) == b;
    lemma_chars_before_boundary(text, i);
    lemma_chars_before_boundary(text, j);
    lemma_units_positive();
    if j < i {
        lemma_weight_grows(text, utf8_units(), j, i);
    }
    let r = splice(text, (a, b), new_text);
    assert(r == text.take(i) + new_text + text.skip(j));
    lemma_weight_concat(text.take(i), new_text, utf8_units());
    lemma_weight_concat(text.take(i) + new_text, text.skip(j), utf8_units());
    lemma_weight_concat(text.take(j), text.skip(j), utf8_units());
    assert(text.take(j) + text.skip(j) =~= text);
    lemma_weight_concat(text.take(i), new_text.take(k), utf8_units());
    assert(r.take(i + k) =~= text.take(i) + new_text.take(k));
    lemma_weight_grows(new_text, utf8_units(), k, new_text.len() as int);
    assert(new_text.take(new_text.len() as int) =~= new_text);
    assert(utf8_len(r.take(i + k)) == a + utf8_len(new_text.take(k)));
    lemma_chars_before_boundary(r, i + k);
}

/// A masked text takes one byte for each character that it stands for.
pub proof fn lemma_mask_len(n: nat)
    ensures
        utf8_len(mask(n)) == n,
    decreases n,
{
    if n > 0 {
        lemma_mask_len((n - 1) as nat);
        assert(mask(n).drop_last() =~= mask((n - 1) as nat));
    }
}

/// Filtering the empty runs out of a list with one more run keeps that run
/// exactly where it is not empty.
pub proof fn lemma_visible_push(runs: Seq<Run>, run: Run)
    ensures
        visible(runs.push(run)) == (if run.len > 0 {
            visible(runs).push(run)
        } else {
            visible(runs)
        }),
{
    reveal(Seq::filter);
    assert(runs.push(run).drop_last() =~= runs);
}

/// Whatever offsets a sequence of movements names, the selection stays in
/// order, inside the text and on character boundaries, and neither the text
/// nor the composition changes.
pub proof fn law_selection_stays_in_text(v: InputView, motions: Seq<Motion>)
    requires
        v.valid(),
    ensures
        v.walk(motions).valid(),
        v.walk(motions).start <= v.walk(motions).end <= utf8_len(v.text),
        v.walk(motions).text == v.text,
        v.walk(motions).marked == v.marked,
    decreases motions.len(),
{
    if motions.len() > 0 {
        law_selection_stays_in_text(v, motions.drop_last());
        let w = v.walk(motions.drop_last());
        match motions.last() {
            Motion::MoveTo(offset) => {
                lemma_floor_boundary(w.text, offset);
            },
            Motion::SelectTo(offset) => {
                lemma_floor_boundary(w.text, offset);
            },
        }
    }
}

/// An edit leaves the input valid, with the caret right behind what came in;
/// a commit ends the composition and a preview marks exactly what came in.
pub proof fn law_edit_keeps_valid(
    v: InputView,
    range: Option<(nat, nat)>,
    new_text: Seq<char>,
    selected: Option<(nat, nat)>,
)
    requires
        v.valid(),
    ensures
        v.replace(range, new_text).valid(),
        v.replace(range, new_text).marked is None,
        v.replace(range, new_text).start == v.target(range).0 + utf8_len(new_text),
        v.replace_and_mark(range, new_text, selected).valid(),
        v.replace_and_mark(range, new_text, selected).marked == Some(
            (v.target(range).0, v.target(range).0 + utf8_len(new_text)),
        ),
        v.unmark().valid(),
        v.unmark().text == v.text,
{
    let t = v.target(range);
    match range {
        Some(r) => {
            lemma_floor_boundary(v.text, r.0);
            lemma_floor_boundary(v.text, r.1);
        },
        None => {},
    }
    lemma_splice(v.text, t.0, t.1, new_text, new_text.len() as int);
    lemma_splice(v.text, t.0, t.1, new_text, 0);
    assert(new_text.take(new_text.len() as int) =~= new_text);
    assert(new_text.take(0) =~= Seq::<char>::empty());
    assert(utf8_len(new_text.take(0)) == 0);
    match selected {
        Some(r) => {
            lemma_floor_boundary(new_text, r.0);
            lemma_floor_boundary(new_text, r.1);
            let inner = clamp_span(new_text, r);
            let kx = choose|k: int|
                0 <= k <= new_text.len() && #[trigger] utf8_len(new_text.take(k)) == inner.0;
            let ky = choose|k: int|
                0 <= k <= new_text.len() && #[trigger] utf8_len(new_text.take(k)) == inner.1;
            lemma_splice(v.text, t.0, t.1, new_text, kx);
            lemma_splice(v.text, t.0, t.1, new_text, ky);
        },
        None => {},
    }
}

/// A commit over a preview leaves what the commit alone would have left:
/// the preview goes, whatever it held, and the committed text stands where
/// the preview stood, with the caret behind it.
pub proof fn law_commit_replaces_preview(
    v: InputView,
    range: Option<(nat, nat)>,
    preview: Seq<char>,
    selected: Option<(nat, nat)>,
    committed: Seq<char>,
)
    requires
        v.valid(),
    ensures
        v.replace_and_mark(range, preview, selected).replace(None, committed) == v.replace(
            range,
            committed,
        ),
{
    let t = v.target(range);
    match range {
        Some(r) => {
            lemma_floor_boundary(v.text, r.0);
            lemma_floor_boundary(v.text, r.1);
        },
        None => {},
    }
    let i = chars_before(v.text, t.0) as int;
    let j = chars_before(v.text, t.1) as int;
    lemma_units_positive();
    crate::offsets::lemma_fitting_monotone(v.text, utf8_units(), t.0, t.1);
    crate::offsets::lemma_fitting(v.text, utf8_units(), t.1);
    lemma_splice(v.text, t.0, t.1, preview, 0);
    lemma_splice(v.text, t.0, t.1, preview, preview.len() as int);
    assert(preview.take(0) =~= Seq::<char>::empty());
    assert(utf8_len(preview.take(0)) == 0);
    assert(preview.take(preview.len() as int) =~= preview);
    let shown = splice(v.text, t, preview);
    assert(shown.take(i) =~= v.text.take(i));
    assert(shown.skip(i + preview.len()) =~= v.text.skip(j));
    let p = v.replace_and_mark(range, preview, selected);
    assert(p.target(None) == (t.0, t.0 + utf8_len(preview)));
    assert(splice(shown, p.target(None), committed) =~= splice(v.text, t, committed));
}

} // verus!
