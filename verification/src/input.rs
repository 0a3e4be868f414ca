//! The single-line text input: its text, selection and composition, the
//! commands that edit and navigate it, and the protocol through which an input
//! method reads and changes it.
//!
//! Offsets inside the input are bytes of the text's UTF-8 form; an input method
//! speaks in UTF-16 code units, which are converted on the way in and out.
//! Nothing here fails: an offset past the end counts as the end, one inside a
//! character as the start of that character, and a range whose end lies before
//! its start as the empty range at its start.

use crate::boundary::next_boundary;
use crate::boundary::previous_boundary;
use crate::model::clipboard_text;
use crate::model::lemma_mask_len;
use crate::model::lemma_splice;
use crate::model::lemma_visible_push;
use crate::model::mask;
use crate::model::opt_span;
use crate::model::slice;
use crate::model::span;
use crate::model::span_from_utf16;
use crate::model::opt_span_from_utf16;
use crate::model::splice;
use crate::model::total_len;
use crate::model::visible;
use crate::model::InputView;
use crate::offsets::floor_char_boundary;
use crate::offsets::lemma_ends_are_boundaries;
use crate::offsets::lemma_fitting_monotone;
use crate::offsets::lemma_floor_boundary;
use crate::offsets::lemma_units_positive;
use crate::offsets::offset_from_utf16;
use crate::offsets::range_from_utf16;
use crate::offsets::range_to_utf16;
use crate::offsets::on_char_boundary;
use crate::offsets::prefix_within;
use crate::offsets::utf8_len;
use crate::offsets::utf8_to_utf16;
use crate::offsets::utf8_units;
use std::ops::Range;
use vstd::prelude::*;

verus! {

/// A stretch of the displayed text that is drawn in one style.
#[derive(Clone, Copy, Debug, PartialEq, Eq)]
pub struct Run {
    /// Its length in bytes of the displayed text.
    pub len: usize,
    /// Whether it is underlined, as text under composition is.
    pub underline: bool,
}

/// The two places in a shaped line whose horizontal positions bound a range of
/// the text.
#[derive(Clone, Copy, Debug, PartialEq, Eq)]
pub struct LayoutQuery {
    /// The handle of the shaped line to measure in.
    pub layout: u64,
    /// The byte offset in the displayed text at which the range starts.
    pub start: usize,
    /// The byte offset in the displayed text at which the range ends.
    pub end: usize,
}

/// What is drawn over the displayed text to show where the user is.
#[derive(Clone, Copy, Debug, PartialEq, Eq)]
pub enum Highlight {
    /// A caret at this byte offset of the displayed text.
    Caret(usize),
    /// A selection between these two byte offsets of the displayed text.
    Selection(usize, usize),
}

/// `text` with what lies between the byte offsets `a` and `b` replaced by
/// `new_text`. Both offsets are rounded down to whole characters.
pub fn splice_text(text: &str, a: usize, b: usize, new_text: &str) -> (r: String)
    ensures
        r@ == splice(text@, (a as nat, b as nat), new_text@),
{
    let i: usize = prefix_within(text, false, a).chars;
    let j0: usize = prefix_within(text, false, b).chars;
    let j: usize = if j0 < i { i } else { j0 };
    let n: usize = text.unicode_len();
    let mut r = text.substring_char(0, i).to_owned();
    r.append(new_text);
    r.append(text.substring_char(j, n));
    proof {
        assert(text@.subrange(0, i as int) =~= text@.take(i as int));
        assert(text@.subrange(j as int, n as int) =~= text@.skip(j as int));
    }
    r
}

/// The characters of `text` between the byte offsets `a` and `b`, both rounded
/// down to whole characters.
pub fn slice_text(text: &str, a: usize, b: usize) -> (r: String)
    ensures
        r@ == slice(text@, (a as nat, b as nat)),
{
    let i: usize = prefix_within(text, false, a).chars;
    let j0: usize = prefix_within(text, false, b).chars;
    let j: usize = if j0 < i { i } else { j0 };
    text.substring_char(i, j).to_owned()
}

/// Whether an input method is composing, and over which bytes of the text.
#[derive(Debug)]
pub enum ImeState {
    /// No composition is in progress.
    Idle,
    /// The given range of the text is a preview that is not committed yet.
    Composing(Range<usize>),
}

impl ImeState {
    /// The range under composition, if any, as a pair.
    pub open spec fn marked(self) -> Option<(nat, nat)> {
        match self {
            ImeState::Idle => None,
            ImeState::Composing(r) => Some(span(r)),
        }
    }
}

/// A named editing action, as a key binding or a menu sends it.
#[derive(Clone, Copy, Debug, PartialEq, Eq)]
pub enum Command {
    MoveLeft,
    MoveRight,
    SelectLeft,
    SelectRight,
    SelectAll,
    Home,
    End,
    MoveToStartOfLine,
    MoveToEndOfLine,
    Backspace,
    Delete,
    Copy,
    Cut,
    Paste,
    ShowCharacterPalette,
}

/// What the host has to do after a command, besides painting the input anew.
#[derive(Debug)]
pub enum Effect {
    /// Nothing.
    Nothing,
    /// Put this text on the clipboard.
    WriteClipboard(String),
    /// Open the platform's character palette.
    ShowCharacterPalette,
}

/// The editable state of a single-line text input.
pub struct TextInput {
    text: String,
    placeholder: String,
    selected_range: Range<usize>,
    selection_reversed: bool,
    ime: ImeState,
    disabled: bool,
    masked: bool,
    appearance: bool,
    last_layout: Option<u64>,
}

impl View for TextInput {
    type V = InputView;

    closed spec fn view(&self) -> InputView {
        InputView {
            text: self.text@,
            placeholder: self.placeholder@,
            start: self.selected_range.start as nat,
            end: self.selected_range.end as nat,
            reversed: self.selection_reversed,
            marked: self.ime.marked(),
            disabled: self.disabled,
            masked: self.masked,
            appearance: self.appearance,
            layout: self.last_layout,
        }
    }
}

impl TextInput {
    /// Whether the input is in a state that its operations keep it in.
    pub open spec fn wf(&self) -> bool {
        self@.valid()
    }

    /// An input with no text and the caret at 0.
    pub fn new() -> (r: Self)
        ensures
            r@ == InputView::empty(),
            r.wf(),
    {
        proof {
            lemma_ends_are_boundaries(Seq::<char>::empty());
        }
        TextInput {
            text: String::new(),
            placeholder: String::new(),
            selected_range: 0..0,
            selection_reversed: false,
            ime: ImeState::Idle,
            disabled: false,
            masked: false,
            appearance: true,
            last_layout: None,
        }
    }

    /// Collapses the selection to a caret at `offset`.
    pub fn move_to(&mut self, offset: usize)
        requires
            old(self).wf(),
        ensures
            final(self)@ == old(self)@.move_to(offset as nat),
            final(self).wf(),
    {
        let b: usize = floor_char_boundary(self.text.as_str(), offset);
        self.selected_range = b..b;
        self.selection_reversed = false;
    }

    /// The edge of the selection that moves: its end, or its start where the
    /// selection was extended leftwards.
    pub fn cursor_offset(&self) -> (r: usize)
        ensures
            r == self@.cursor(),
    {
        if self.selection_reversed {
            self.selected_range.start
        } else {
            self.selected_range.end
        }
    }

    /// Extends the selection by taking its moving edge to `offset`.
    pub fn select_to(&mut self, offset: usize)
        requires
            old(self).wf(),
        ensures
            final(self)@ == old(self)@.select_to(offset as nat),
            final(self).wf(),
    {
        let b: usize = floor_char_boundary(self.text.as_str(), offset);
        if self.selection_reversed {
            self.selected_range.start = b;
        } else {
            self.selected_range.end = b;
        }
        if self.selected_range.end < self.selected_range.start {
            self.selection_reversed = !self.selection_reversed;
            self.selected_range = self.selected_range.end..self.selected_range.start;
        }
    }

    /// Moves the caret one cluster to the left, or collapses a selection to
    /// its start.
    pub fn left(&mut self)
        requires
            old(self).wf(),
        ensures
            final(self)@ == old(self)@.left(),
            final(self)@.end <= old(self)@.cursor(),
            final(self).wf(),
    {
        if self.selected_range.start == self.selected_range.end {
            let to: usize = previous_boundary(self.text.as_str(), self.cursor_offset());
            proof {
                lemma_floor_boundary(self@.text, to as nat);
            }
            self.move_to(to);
        } else {
            let to: usize = self.selected_range.start;
            proof {
                lemma_floor_boundary(self@.text, to as nat);
            }
            self.move_to(to);
        }
    }

    /// Moves the caret one cluster to the right, or collapses a selection to
    /// its end.
    pub fn right(&mut self)
        requires
            old(self).wf(),
        ensures
            final(self)@ == old(self)@.right(),
            final(self)@.start >= old(self)@.cursor(),
            final(self).wf(),
    {
        if self.selected_range.start == self.selected_range.end {
            let to: usize = next_boundary(self.text.as_str(), self.cursor_offset());
            proof {
                lemma_floor_boundary(self@.text, to as nat);
            }
            self.move_to(to);
        } else {
            let to: usize = self.selected_range.end;
            proof {
                lemma_floor_boundary(self@.text, to as nat);
            }
            self.move_to(to);
        }
    }

    /// Extends the selection by one cluster to the left.
    pub fn select_left(&mut self)
        requires
            old(self).wf(),
        ensures
            final(self)@ == old(self)@.select_to(old(self)@.step_left()),
            final(self).wf(),
    {
        let to: usize = previous_boundary(self.text.as_str(), self.cursor_offset());
        self.select_to(to);
    }

    /// Extends the selection by one cluster to the right.
    pub fn select_right(&mut self)
        requires
            old(self).wf(),
        ensures
            final(self)@ == old(self)@.select_to(old(self)@.step_right()),
            final(self).wf(),
    {
        let to: usize = next_boundary(self.text.as_str(), self.cursor_offset());
        self.select_to(to);
    }

    /// Selects all of the text, left to right.
    pub fn select_all(&mut self)
        requires
            old(self).wf(),
        ensures
            final(self)@ == old(self)@.select_all(),
            final(self).wf(),
    {
        let len: usize = self.text.as_str().as_bytes().len();
        proof {
            crate::offsets::lemma_encoded_len(self@.text);
            lemma_ends_are_boundaries(self@.text);
        }
        self.selected_range = 0..len;
        self.selection_reversed = false;
    }

    /// Puts the caret before the first character.
    pub fn home(&mut self)
        requires
            old(self).wf(),
        ensures
            final(self)@ == old(self)@.caret_at(0),
            final(self).wf(),
    {
        proof {
            lemma_ends_are_boundaries(self@.text);
            lemma_floor_boundary(self@.text, 0);
        }
        self.move_to(0);
    }

    /// Puts the caret behind the last character.
    pub fn end(&mut self)
        requires
            old(self).wf(),
        ensures
            final(self)@ == old(self)@.caret_at(old(self)@.len()),
            final(self).wf(),
    {
        let len: usize = self.text.as_str().as_bytes().len();
        proof {
            crate::offsets::lemma_encoded_len(self@.text);
            lemma_ends_are_boundaries(self@.text);
            lemma_floor_boundary(self@.text, len as nat);
        }
        self.move_to(len);
    }

    /// Puts the caret at the start of the line, which is the start of the text.
    pub fn move_to_start_of_line(&mut self)
        requires
            old(self).wf(),
        ensures
            final(self)@ == old(self)@.caret_at(0),
            final(self).wf(),
    {
        self.home();
    }

    /// Puts the caret at the end of the line, which is the end of the text.
    pub fn move_to_end_of_line(&mut self)
        requires
            old(self).wf(),
        ensures
            final(self)@ == old(self)@.caret_at(old(self)@.len()),
            final(self).wf(),
    {
        self.end();
    }

    /// The range that an edit replaces when it is given `range`.
    fn target_range(&self, range: &Option<Range<usize>>) -> (t: (usize, usize))
        requires
            self.wf(),
        ensures
            (t.0 as nat, t.1 as nat) == self@.target(opt_span(*range)),
            t.0 <= t.1 <= self@.len(),
            on_char_boundary(self@.text, t.0 as int),
            on_char_boundary(self@.text, t.1 as int),
    {
        match range {
            Some(r) => {
                let a: usize = floor_char_boundary(self.text.as_str(), r.start);
                let b: usize = floor_char_boundary(self.text.as_str(), r.end);
                (a, if b < a { a } else { b })
            },
            None => match &self.ime {
                ImeState::Composing(m) => (m.start, m.end),
                ImeState::Idle => (self.selected_range.start, self.selected_range.end),
            },
        }
    }

    /// Replaces a range of the text by `new_text`, puts the caret behind it and
    /// ends any composition. The range is `range`, in bytes, where one is
    /// given; else the text under composition; else the selection.
    pub fn replace_range(&mut self, range: Option<Range<usize>>, new_text: &str)
        requires
            old(self).wf(),
        ensures
            final(self)@ == old(self)@.replace(opt_span(range), new_text@),
            final(self)@.marked is None,
            final(self).wf(),
    {
        let t = self.target_range(&range);
        let text = splice_text(self.text.as_str(), t.0, t.1, new_text);
        let added: usize = new_text.as_bytes().len();
        let total: usize = text.as_str().as_bytes().len();
        proof {
            crate::offsets::lemma_encoded_len(new_text@);
            crate::offsets::lemma_encoded_len(text@);
            lemma_splice(self@.text, t.0 as nat, t.1 as nat, new_text@, new_text@.len() as int);
            assert(new_text@.take(new_text@.len() as int) =~= new_text@);
        }
        let caret: usize = t.0 + added;
        self.text = text;
        self.selected_range = caret..caret;
        self.selection_reversed = false;
        self.ime = ImeState::Idle;
    }

    /// Replaces a range of the text by `new_text` and marks `new_text` as under
    /// composition. The range is found as in `replace_range`. The selection
    /// becomes `selected`, a range of bytes inside `new_text`, moved to where
    /// `new_text` starts; without one, a caret behind `new_text`.
    pub fn replace_and_mark_range(
        &mut self,
        range: Option<Range<usize>>,
        new_text: &str,
        selected: Option<Range<usize>>,
    )
        requires
            old(self).wf(),
        ensures
            final(self)@ == old(self)@.replace_and_mark(
                opt_span(range),
                new_text@,
                opt_span(selected),
            ),
            final(self)@.marked is Some,
            final(self).wf(),
    {
        let t = self.target_range(&range);
        let text = splice_text(self.text.as_str(), t.0, t.1, new_text);
        let added: usize = new_text.as_bytes().len();
        let total: usize = text.as_str().as_bytes().len();
        proof {
            crate::offsets::lemma_encoded_len(new_text@);
            crate::offsets::lemma_encoded_len(text@);
            lemma_splice(self@.text, t.0 as nat, t.1 as nat, new_text@, new_text@.len() as int);
            lemma_splice(self@.text, t.0 as nat, t.1 as nat, new_text@, 0);
            assert(new_text@.take(new_text@.len() as int) =~= new_text@);
            assert(new_text@.take(0) =~= Seq::<char>::empty());
            assert(utf8_len(new_text@.take(0)) == 0);
        }
        let inner: (usize, usize) = match selected {
            Some(r) => {
                let x: usize = floor_char_boundary(new_text, r.start);
                let y: usize = floor_char_boundary(new_text, r.end);
                let y: usize = if y < x { x } else { y };
                proof {
                    let kx = choose|k: int|
                        0 <= k <= new_text@.len() && #[trigger] utf8_len(new_text@.take(k)) == x;
                    let ky = choose|k: int|
                        0 <= k <= new_text@.len() && #[trigger] utf8_len(new_text@.take(k)) == y;
                    lemma_splice(self@.text, t.0 as nat, t.1 as nat, new_text@, kx);
                    lemma_splice(self@.text, t.0 as nat, t.1 as nat, new_text@, ky);
                }
                (x, y)
            },
            None => (added, added),
        };
        self.text = text;
        self.selected_range = (t.0 + inner.0)..(t.0 + inner.1);
        self.selection_reversed = false;
        self.ime = ImeState::Composing(t.0..(t.0 + added));
    }

    /// Ends the composition and leaves the text as it is.
    pub fn unmark_text(&mut self)
        requires
            old(self).wf(),
        ensures
            final(self)@ == old(self)@.unmark(),
            final(self).wf(),
    {
        self.ime = ImeState::Idle;
    }

    /// Deletes the selection, or the cluster before the caret. Does nothing
    /// where the input is disabled.
    pub fn backspace(&mut self)
        requires
            old(self).wf(),
        ensures
            final(self)@ == old(self)@.delete_step(true),
            final(self).wf(),
    {
        if self.disabled {
            return ;
        }
        if self.selected_range.start == self.selected_range.end {
            self.select_left();
        }
        proof {
            reveal_strlit("");
            assert(""@ =~= Seq::<char>::empty());
        }
        self.replace_range(None, "");
    }

    /// Deletes the selection, or the cluster behind the caret. Does nothing
    /// where the input is disabled.
    pub fn delete(&mut self)
        requires
            old(self).wf(),
        ensures
            final(self)@ == old(self)@.delete_step(false),
            final(self).wf(),
    {
        if self.disabled {
            return ;
        }
        if self.selected_range.start == self.selected_range.end {
            self.select_right();
        }
        proof {
            reveal_strlit("");
            assert(""@ =~= Seq::<char>::empty());
        }
        self.replace_range(None, "");
    }

    /// A range of code units of `text` as a range of bytes: each bound converted
    /// on its own, and an end before the start raised to the start.
    fn bytes_of(text: &str, range_utf16: &Option<Range<usize>>) -> (r: Option<Range<usize>>)
        ensures
            opt_span(r) == opt_span_from_utf16(text@, opt_span(*range_utf16)),
    {
        match range_utf16 {
            Some(u) => {
                let a: usize = offset_from_utf16(text, u.start);
                let b: usize = offset_from_utf16(text, u.end);
                Some(a..(if b < a { a } else { b }))
            },
            None => None,
        }
    }

    /// The text in a range of code units.
    pub fn text_for_range(&self, range_utf16: Range<usize>) -> (r: Option<String>)
        ensures
            r is Some,
            r->0@ == slice(self@.text, span_from_utf16(self@.text, span(range_utf16))),
    {
        let a: usize = offset_from_utf16(self.text.as_str(), range_utf16.start);
        let b: usize = offset_from_utf16(self.text.as_str(), range_utf16.end);
        Some(slice_text(self.text.as_str(), a, if b < a { a } else { b }))
    }

    /// The selection, in code units.
    pub fn selected_text_range(&self) -> (r: Option<Range<usize>>)
        ensures
            r is Some,
            r->0.start == utf8_to_utf16(self@.text, self@.start),
            r->0.end == utf8_to_utf16(self@.text, self@.end),
    {
        Some(range_to_utf16(self.text.as_str(), &self.selected_range))
    }

    /// The text under composition, in code units; `None` while nothing is composed.
    pub fn marked_text_range(&self) -> (r: Option<Range<usize>>)
        ensures
            match self@.marked {
                Some((a, b)) => r is Some && r->0.start == utf8_to_utf16(self@.text, a) && r->0.end
                    == utf8_to_utf16(self@.text, b),
                None => r is None,
            },
    {
        match &self.ime {
            ImeState::Composing(m) => Some(range_to_utf16(self.text.as_str(), m)),
            ImeState::Idle => None,
        }
    }

    /// Commits `new_text` in place of a range given in code units; without a
    /// range, in place of the text under composition, else of the selection.
    /// Does nothing where the input is disabled.
    pub fn replace_text_in_range(&mut self, range_utf16: Option<Range<usize>>, new_text: &str)
        requires
            old(self).wf(),
        ensures
            final(self)@ == old(self)@.ime_replace(opt_span(range_utf16), new_text@),
            !old(self)@.disabled ==> final(self)@.marked is None,
            final(self).wf(),
    {
        if self.disabled {
            return ;
        }
        let range = Self::bytes_of(self.text.as_str(), &range_utf16);
        self.replace_range(range, new_text);
    }

    /// Shows `new_text` as a composition preview in place of a range given in
    /// code units, found as in `replace_text_in_range`. `new_selected_range_utf16`
    /// is the selection inside `new_text`, in code units of `new_text`. Does
    /// nothing where the input is disabled.
    pub fn replace_and_mark_text_in_range(
        &mut self,
        range_utf16: Option<Range<usize>>,
        new_text: &str,
        new_selected_range_utf16: Option<Range<usize>>,
    )
        requires
            old(self).wf(),
        ensures
            final(self)@ == old(self)@.ime_replace_and_mark(
                opt_span(range_utf16),
                new_text@,
                opt_span(new_selected_range_utf16),
            ),
            !old(self)@.disabled ==> final(self)@.marked is Some,
            final(self).wf(),
    {
        if self.disabled {
            return ;
        }
        let range = Self::bytes_of(self.text.as_str(), &range_utf16);
        let selected = Self::bytes_of(new_text, &new_selected_range_utf16);
        self.replace_and_mark_range(range, new_text, selected);
    }

    /// The selected text, for the clipboard.
    pub fn copy(&self) -> (r: String)
        ensures
            r@ == self@.selected_text(),
    {
        slice_text(self.text.as_str(), self.selected_range.start, self.selected_range.end)
    }

    /// Removes the selected text and returns it, for the clipboard.
    pub fn cut(&mut self) -> (r: String)
        requires
            old(self).wf(),
        ensures
            r@ == old(self)@.selected_text(),
            final(self)@ == old(self)@.cut(),
            final(self).wf(),
    {
        let r = self.copy();
        let range = self.selected_range.start..self.selected_range.end;
        proof {
            reveal_strlit("");
            assert(""@ =~= Seq::<char>::empty());
        }
        self.replace_range(Some(range), "");
        r
    }

    /// Puts what the clipboard holds in place of the selection. Does nothing
    /// where the clipboard holds no text.
    pub fn paste(&mut self, clipboard: Option<&str>)
        requires
            old(self).wf(),
        ensures
            final(self)@ == old(self)@.paste(
                match clipboard {
                    Some(text) => Some(text@),
                    None => None,
                },
            ),
            final(self).wf(),
    {
        match clipboard {
            Some(text) => {
                let range = self.selected_range.start..self.selected_range.end;
                self.replace_range(Some(range), text);
            },
            None => {},
        }
    }

    /// Carries out `command`. `clipboard` is what the clipboard holds, which
    /// only `Paste` reads. The result says what is left for the host to do.
    pub fn dispatch(&mut self, command: Command, clipboard: Option<&str>) -> (effect: Effect)
        requires
            old(self).wf(),
        ensures
            final(self)@ == old(self)@.apply(
                command,
                match clipboard {
                    Some(text) => Some(text@),
                    None => None,
                },
            ),
            final(self).wf(),
            clipboard_text(effect) == (match command {
                Command::Copy | Command::Cut => Some(old(self)@.selected_text()),
                _ => None,
            }),
            (effect is ShowCharacterPalette) == (command is ShowCharacterPalette),
    {
        match command {
            Command::MoveLeft => {
                self.left();
                Effect::Nothing
            },
            Command::MoveRight => {
                self.right();
                Effect::Nothing
            },
            Command::SelectLeft => {
                self.select_left();
                Effect::Nothing
            },
            Command::SelectRight => {
                self.select_right();
                Effect::Nothing
            },
            Command::SelectAll => {
                self.select_all();
                Effect::Nothing
            },
            Command::Home => {
                self.home();
                Effect::Nothing
            },
            Command::End => {
                self.end();
                Effect::Nothing
            },
            Command::MoveToStartOfLine => {
                self.move_to_start_of_line();
                Effect::Nothing
            },
            Command::MoveToEndOfLine => {
                self.move_to_end_of_line();
                Effect::Nothing
            },
            Command::Backspace => {
                self.backspace();
                Effect::Nothing
            },
            Command::Delete => {
                self.delete();
                Effect::Nothing
            },
            Command::Copy => Effect::WriteClipboard(self.copy()),
            Command::Cut => Effect::WriteClipboard(self.cut()),
            Command::Paste => {
                self.paste(clipboard);
                Effect::Nothing
            },
            Command::ShowCharacterPalette => Effect::ShowCharacterPalette,
        }
    }

    /// Replaces the text, puts the caret behind it and ends any composition.
    pub fn set_text(&mut self, text: &str)
        ensures
            final(self)@ == old(self)@.with_text(text@),
            final(self).wf(),
    {
        let len: usize = text.as_bytes().len();
        proof {
            crate::offsets::lemma_encoded_len(text@);
            lemma_ends_are_boundaries(text@);
        }
        self.text = text.to_owned();
        self.selected_range = len..len;
        self.selection_reversed = false;
        self.ime = ImeState::Idle;
    }

    /// Sets the text that is shown while the input is empty.
    pub fn set_placeholder(&mut self, placeholder: &str)
        ensures
            final(self)@ == (InputView { placeholder: placeholder@, ..old(self)@ }),
    {
        self.placeholder = placeholder.to_owned();
    }

    /// Sets whether the input refuses typing and deleting.
    pub fn set_disabled(&mut self, disabled: bool)
        ensures
            final(self)@ == (InputView { disabled, ..old(self)@ }),
    {
        self.disabled = disabled;
    }

    /// Sets whether the text is shown as one fixed glyph per character.
    pub fn set_masked(&mut self, masked: bool)
        ensures
            final(self)@ == (InputView { masked, ..old(self)@ }),
    {
        self.masked = masked;
    }

    /// This input with its frame and background switched on or off.
    pub fn appearance(self, appearance: bool) -> (r: Self)
        ensures
            r@ == (InputView { appearance, ..self@ }),
    {
        let mut input = self;
        input.appearance = appearance;
        input
    }

    /// The text.
    pub fn text(&self) -> (r: String)
        ensures
            r@ == self@.text,
    {
        self.text.clone()
    }

    /// The text that is shown while the input is empty.
    pub fn placeholder(&self) -> (r: String)
        ensures
            r@ == self@.placeholder,
    {
        self.placeholder.clone()
    }

    /// The selection, in bytes.
    pub fn selected_range(&self) -> (r: Range<usize>)
        ensures
            span(r) == self@.selected(),
    {
        self.selected_range.start..self.selected_range.end
    }

    /// Whether the selection was extended leftwards.
    pub fn selection_reversed(&self) -> (r: bool)
        ensures
            r == self@.reversed,
    {
        self.selection_reversed
    }

    /// The text under composition, in bytes; `None` while nothing is composed.
    pub fn marked_range(&self) -> (r: Option<Range<usize>>)
        ensures
            opt_span(r) == self@.marked,
    {
        match &self.ime {
            ImeState::Composing(m) => Some(m.start..m.end),
            ImeState::Idle => None,
        }
    }

    /// Whether an input method is composing, and where.
    pub fn ime_state(&self) -> (r: ImeState)
        ensures
            r.marked() == self@.marked,
    {
        match &self.ime {
            ImeState::Composing(m) => ImeState::Composing(m.start..m.end),
            ImeState::Idle => ImeState::Idle,
        }
    }

    /// Whether the input refuses typing and deleting.
    pub fn is_disabled(&self) -> (r: bool)
        ensures
            r == self@.disabled,
    {
        self.disabled
    }

    /// Whether the text is shown as one fixed glyph per character.
    pub fn is_masked(&self) -> (r: bool)
        ensures
            r == self@.masked,
    {
        self.masked
    }

    /// Whether the input draws its frame and background.
    pub fn has_appearance(&self) -> (r: bool)
        ensures
            r == self@.appearance,
    {
        self.appearance
    }

    /// Records the handle of the line that the renderer has just shaped.
    pub fn set_last_layout(&mut self, layout: u64)
        ensures
            final(self)@ == (InputView { layout: Some(layout), ..old(self)@ }),
    {
        self.last_layout = Some(layout);
    }

    /// The handle of the line that was shaped at the last paint.
    pub fn last_layout(&self) -> (r: Option<u64>)
        ensures
            r == self@.layout,
    {
        self.last_layout
    }

    /// What to measure in the line shaped last to place a range given in code
    /// units on the screen; `None` before any line was shaped. The line may
    /// be one edit behind the text.
    pub fn bounds_for_range(&self, range_utf16: Range<usize>) -> (r: Option<LayoutQuery>)
        ensures
            r == self@.bounds_query(span(range_utf16)),
    {
        match self.last_layout {
            None => None,
            Some(layout) => {
                let range = range_from_utf16(self.text.as_str(), &range_utf16);
                Some(
                    LayoutQuery {
                        layout,
                        start: self.display_offset(range.start),
                        end: self.display_offset(range.end),
                    },
                )
            },
        }
    }

    /// What to draw over the displayed text: a caret where nothing is selected,
    /// else the selection.
    pub fn highlight(&self) -> (r: Highlight)
        ensures
            r == self@.highlight(),
    {
        if self.selected_range.start == self.selected_range.end {
            Highlight::Caret(self.display_offset(self.cursor_offset()))
        } else {
            Highlight::Selection(
                self.display_offset(self.selected_range.start),
                self.display_offset(self.selected_range.end),
            )
        }
    }

    /// The byte offset in the displayed text that stands for the byte offset
    /// `offset` in the text: the number of characters before it where the text
    /// is shown masked, else `offset` itself.
    pub fn display_offset(&self, offset: usize) -> (r: usize)
        ensures
            r == self@.to_display(offset as nat),
    {
        if self.masked && self.text.as_str().unicode_len() > 0 {
            prefix_within(self.text.as_str(), false, offset).chars
        } else {
            offset
        }
    }

    /// What is drawn in the input: the placeholder while the text is empty, one
    /// `*` per character where the input is masked, else the text.
    pub fn display_text(&self) -> (r: String)
        ensures
            r@ == self@.display(),
    {
        let n: usize = self.text.as_str().unicode_len();
        if n == 0 {
            self.placeholder.clone()
        } else if self.masked {
            let mut r = String::new();
            let mut i: usize = 0;
            proof {
                reveal_strlit("*");
                assert(r@ =~= mask(0));
            }
            while i < n
                invariant
                    i <= n,
                    r@ == mask(i as nat),
                    "*"@ == seq!['*'],
                decreases n - i,
            {
                r.append("*");
                i = i + 1;
                proof {
                    assert(r@ =~= mask(i as nat));
                }
            }
            r
        } else {
            self.text.clone()
        }
    }

    /// The runs that the displayed text is drawn in, the composition underlined.
    pub fn text_runs(&self) -> (r: Vec<Run>)
        requires
            self.wf(),
        ensures
            r@ == self@.runs(),
            total_len(r@) == utf8_len(self@.display()),
    {
        let shown = self.display_text();
        let whole: usize = shown.as_str().as_bytes().len();
        proof {
            crate::offsets::lemma_encoded_len(shown@);
            crate::offsets::lemma_encoded_len(self@.text);
            lemma_units_positive();
        }
        match &self.ime {
            ImeState::Idle => {
                let r = vec![Run { len: whole, underline: false }];
                proof {
                    reveal_with_fuel(total_len, 2);
                    assert(r@.drop_last() =~= Seq::<Run>::empty());
                }
                r
            },
            ImeState::Composing(m) => {
                let a: usize = self.display_offset(m.start);
                let b: usize = self.display_offset(m.end);
                proof {
                    lemma_fitting_monotone(self@.text, utf8_units(), m.start as nat, m.end as nat);
                    crate::offsets::lemma_fitting(self@.text, utf8_units(), m.end as nat);
                    lemma_mask_len(self@.text.len());
                    if self@.text.len() == 0 {
                        assert(utf8_len(self@.text) == 0);
                    }
                }
                let marked: usize = b - a;
                let rest: usize = whole - b;
                let parts = vec![
                    Run { len: a, underline: false },
                    Run { len: marked, underline: true },
                    Run { len: rest, underline: false },
                ];
                let mut r: Vec<Run> = Vec::new();
                let mut i: usize = 0;
                proof {
                    assert(parts@.take(0) =~= Seq::<Run>::empty());
                    assert(parts@ =~= self@.parts(m.start as nat, m.end as nat));
                    reveal_with_fuel(total_len, 4);
                    assert(parts@.drop_last() =~= seq![parts@[0], parts@[1]]);
                    assert(parts@.drop_last().drop_last() =~= seq![parts@[0]]);
                    assert(parts@.drop_last().drop_last().drop_last() =~= Seq::<Run>::empty());
                    assert(total_len(parts@) == whole);
                }
                while i < 3
                    invariant
                        i <= 3,
                        parts@.len() == 3,
                        r@ == visible(parts@.take(i as int)),
                        total_len(r@) == total_len(parts@.take(i as int)),
                    decreases 3 - i,
                {
                    proof {
                        assert(parts@.take(i + 1).drop_last() =~= parts@.take(i as int));
                        lemma_visible_push(parts@.take(i as int), parts@[i as int]);
                        assert(parts@.take(i + 1) =~= parts@.take(i as int).push(parts@[i as int]));
                    }
                    if parts[i].len > 0 {
                        let ghost before = r@;
                        r.push(parts[i]);
                        proof {
                            assert(r@.drop_last() =~= before);
                        }
                    }
                    i = i + 1;
                }
                proof {
                    assert(parts@.take(3) =~= parts@);
                }
                r
            },
        }
    }
}

} // verus!
