//! The editor as a mathematical value: its text as a sequence of characters,
//! its selection, its two history stacks and its version. Every operation of
//! the editor is stated here as a function from one such value to the next,
//! and the laws that relate the operations are proved here.

use crate::indent::{ends_with_char, leading_indent_of, next_indent, starts_with_char};
use crate::selection::Selection;
use crate::text::{
    byte_column, byte_offset, count_lf, lemma_line_of_bound, lemma_line_start_of_line,
    lemma_visible_len_bound, line_of, line_start, splice, visible_len,
};
use vstd::prelude::*;

verus! {

/// A position in the text as a row and a column, the column counted in UTF-8
/// bytes from the start of the row.
#[derive(Debug, Clone, Copy, PartialEq, Eq, Structural)]
pub struct EditorPoint {
    pub row: usize,
    pub column: usize,
}

/// What one change did to the text, in byte offsets and points: where it
/// started, where the replaced text ended before the change, and where the
/// new text ends after it.
#[derive(Debug, Clone, Copy, PartialEq, Eq, Structural)]
pub struct EditorEdit {
    pub start_byte: usize,
    pub old_end_byte: usize,
    pub new_end_byte: usize,
    pub start_point: EditorPoint,
    pub old_end_point: EditorPoint,
    pub new_end_point: EditorPoint,
}

/// The point of character position `idx` in `text`.
pub open spec fn point_at(text: Seq<char>, idx: int) -> EditorPoint {
    EditorPoint { row: line_of(text, idx) as usize, column: byte_column(text, idx) as usize }
}

/// The descriptor of the change that replaces the characters of `text` from
/// `start` to `old_end` by `inserted`.
pub open spec fn edit_descriptor(
    text: Seq<char>,
    start: int,
    old_end: int,
    inserted: Seq<char>,
) -> EditorEdit {
    let after = splice(text, start, old_end, inserted);
    let new_end = start + inserted.len();
    EditorEdit {
        start_byte: byte_offset(text, start) as usize,
        old_end_byte: byte_offset(text, old_end) as usize,
        new_end_byte: byte_offset(after, new_end) as usize,
        start_point: point_at(text, start),
        old_end_point: point_at(text, old_end),
        new_end_point: point_at(after, new_end),
    }
}

/// Where a removal of `remove_len` characters at `start` ends: behind them,
/// or at the end of the text where there are fewer.
pub open spec fn raw_end(text: Seq<char>, start: int, remove_len: int) -> int {
    if start + remove_len <= text.len() {
        start + remove_len
    } else {
        text.len() as int
    }
}

/// One entry of the history: the text that a change put in at `start`, the
/// text that it took out there, and the selection before and after it.
pub struct EditRecordModel {
    pub start: usize,
    pub inserted: Seq<char>,
    pub deleted: Seq<char>,
    pub before: Selection,
    pub after: Selection,
}

impl EditRecordModel {
    /// `text` as it was before this change was made to it.
    pub open spec fn undone(self, text: Seq<char>) -> Seq<char> {
        splice(text, self.start as int, self.start + self.inserted.len(), self.deleted)
    }

    /// `text` as it is after this change is made to it.
    pub open spec fn redone(self, text: Seq<char>) -> Seq<char> {
        splice(text, self.start as int, self.start + self.deleted.len(), self.inserted)
    }

    /// `text` shows this change as made: it holds the inserted text at
    /// `start`, and both selections fit the texts that they belong to.
    pub open spec fn made_in(self, text: Seq<char>) -> bool {
        &&& self.start + self.inserted.len() <= text.len()
        &&& text.subrange(self.start as int, self.start + self.inserted.len()) == self.inserted
        &&& self.after.within(text.len())
        &&& self.before.within(self.undone(text).len())
    }

    /// `text` shows this change as not made: it holds the deleted text at
    /// `start`, and both selections fit the texts that they belong to.
    pub open spec fn unmade_in(self, text: Seq<char>) -> bool {
        &&& self.start + self.deleted.len() <= text.len()
        &&& text.subrange(self.start as int, self.start + self.deleted.len()) == self.deleted
        &&& self.before.within(text.len())
        &&& self.after.within(self.redone(text).len())
    }
}

/// Every entry of the undo stack, from the top down, is made in the text
/// that undoing the entries above it leaves.
pub open spec fn undo_chain(text: Seq<char>, stack: Seq<EditRecordModel>) -> bool
    decreases stack.len(),
{
    stack.len() > 0 ==> {
        &&& stack.last().made_in(text)
        &&& undo_chain(stack.last().undone(text), stack.drop_last())
    }
}

/// Every entry of the redo stack, from the top down, is unmade in the text
/// that redoing the entries above it leaves.
pub open spec fn redo_chain(text: Seq<char>, stack: Seq<EditRecordModel>) -> bool
    decreases stack.len(),
{
    stack.len() > 0 ==> {
        &&& stack.last().unmade_in(text)
        &&& redo_chain(stack.last().redone(text), stack.drop_last())
    }
}

/// The version that follows `version`.
pub open spec fn next_version(version: u64) -> u64 {
    version.wrapping_add(1)
}

/// The state of an editor.
#[verifier::ext_equal]
pub struct EditorModel {
    pub text: Seq<char>,
    pub selection: Selection,
    pub preferred_column: Option<usize>,
    pub undo: Seq<EditRecordModel>,
    pub redo: Seq<EditRecordModel>,
    pub version: u64,
    pub last_edit: Option<EditorEdit>,
}

impl EditorModel {
    /// The state of an editor that was just made from `text`.
    pub open spec fn new(text: Seq<char>) -> EditorModel {
        EditorModel {
            text,
            selection: Selection { anchor: 0, cursor: 0 },
            preferred_column: None,
            undo: Seq::empty(),
            redo: Seq::empty(),
            version: 0,
            last_edit: None,
        }
    }

    /// The selection lies within the text, and both history stacks fit it.
    pub open spec fn wf(self) -> bool {
        &&& self.selection.within(self.text.len())
        &&& undo_chain(self.text, self.undo)
        &&& redo_chain(self.text, self.redo)
    }

    /// `pos`, or the end of the text where `pos` lies behind it.
    pub open spec fn clamp(self, pos: usize) -> usize {
        if pos <= self.text.len() {
            pos
        } else {
            self.text.len() as usize
        }
    }

    /// Replacing the characters from `start` to `end`, both clamped to the
    /// text, by `inserted`, and leaving the cursor at `caret`, clamped to the
    /// new text, or behind what was inserted where no caret is given. With
    /// nothing to take out and nothing to put in, the state stays as it is.
    /// Else the change goes on the undo stack, with the selection before it
    /// and the selection that it leaves, and the redo stack is emptied.
    pub open spec fn replace_range_to(
        self,
        start: usize,
        end: usize,
        inserted: Seq<char>,
        caret: Option<usize>,
    ) -> EditorModel {
        let start = self.clamp(start);
        let end = self.clamp(end);
        if start == end && inserted.len() == 0 {
            self
        } else {
            let text = splice(self.text, start as int, end as int, inserted);
            let at = match caret {
                Some(caret) => if caret <= text.len() {
                    caret
                } else {
                    text.len() as usize
                },
                None => (start + inserted.len()) as usize,
            };
            let after = Selection { anchor: at, cursor: at };
            EditorModel {
                text,
                selection: after,
                preferred_column: None,
                undo: self.undo.push(
                    EditRecordModel {
                        start,
                        inserted,
                        deleted: self.text.subrange(start as int, end as int),
                        before: self.selection,
                        after,
                    },
                ),
                redo: Seq::empty(),
                version: next_version(self.version),
                last_edit: Some(edit_descriptor(self.text, start as int, end as int, inserted)),
            }
        }
    }

    /// Replacing the characters from `start` to `end`, both clamped to the
    /// text, by `inserted`, and leaving the cursor behind what was inserted.
    pub open spec fn replace_range(self, start: usize, end: usize, inserted: Seq<char>) -> EditorModel {
        self.replace_range_to(start, end, inserted, None)
    }

    /// Whether `replace_range` with these arguments changes the state.
    pub open spec fn replaces(self, start: usize, end: usize, inserted: Seq<char>) -> bool {
        !(self.clamp(start) == self.clamp(end) && inserted.len() == 0)
    }

    /// Typing `inserted` over the selection.
    pub open spec fn insert_text(self, inserted: Seq<char>) -> EditorModel {
        self.replace_range(self.selection.start(), self.selection.end(), inserted)
    }

    /// Deleting the selection, or else the character before the cursor.
    pub open spec fn backspace(self) -> EditorModel {
        if self.selection.anchor != self.selection.cursor {
            self.replace_range(self.selection.start(), self.selection.end(), Seq::empty())
        } else if self.selection.cursor == 0 {
            self
        } else {
            self.replace_range(
                (self.selection.cursor - 1) as usize,
                self.selection.cursor,
                Seq::empty(),
            )
        }
    }

    /// Deleting the selection, or else the character behind the cursor.
    pub open spec fn delete_forward(self) -> EditorModel {
        if self.selection.anchor != self.selection.cursor {
            self.replace_range(self.selection.start(), self.selection.end(), Seq::empty())
        } else if self.selection.cursor >= self.text.len() {
            self
        } else {
            self.replace_range(
                self.selection.cursor,
                (self.selection.cursor + 1) as usize,
                Seq::empty(),
            )
        }
    }

    /// Taking back the change on top of the undo stack. With an empty stack
    /// the state stays as it is.
    pub open spec fn undo(self) -> EditorModel {
        if self.undo.len() == 0 {
            self
        } else {
            let r = self.undo.last();
            EditorModel {
                text: r.undone(self.text),
                selection: r.before,
                preferred_column: None,
                undo: self.undo.drop_last(),
                redo: self.redo.push(r),
                version: next_version(self.version),
                last_edit: Some(
                    edit_descriptor(
                        self.text,
                        r.start as int,
                        r.start + r.inserted.len(),
                        r.deleted,
                    ),
                ),
            }
        }
    }

    /// Making again the change on top of the redo stack. With an empty stack
    /// the state stays as it is.
    pub open spec fn redo(self) -> EditorModel {
        if self.redo.len() == 0 {
            self
        } else {
            let r = self.redo.last();
            EditorModel {
                text: r.redone(self.text),
                selection: r.after,
                preferred_column: None,
                undo: self.undo.push(r),
                redo: self.redo.drop_last(),
                version: next_version(self.version),
                last_edit: Some(
                    edit_descriptor(
                        self.text,
                        r.start as int,
                        r.start + r.deleted.len(),
                        r.inserted,
                    ),
                ),
            }
        }
    }

    /// Putting the cursor at `cursor`, clamped to the text. Unless the
    /// selection is extended, the anchor follows and the remembered column
    /// is dropped.
    pub open spec fn set_cursor(self, cursor: usize, extend: bool) -> EditorModel {
        EditorModel {
            selection: self.selection.with_cursor(self.clamp(cursor), extend),
            preferred_column: if extend {
                self.preferred_column
            } else {
                None
            },
            ..self
        }
    }

    /// Selecting the whole text.
    pub open spec fn select_all(self) -> EditorModel {
        EditorModel {
            selection: Selection { anchor: 0, cursor: self.text.len() as usize },
            preferred_column: None,
            ..self
        }
    }

    /// Selecting from `start` to `end`, both clamped to the text.
    pub open spec fn select_range(self, start: usize, end: usize) -> EditorModel {
        EditorModel {
            selection: Selection { anchor: self.clamp(start), cursor: self.clamp(end) },
            preferred_column: None,
            ..self
        }
    }

    /// The selected characters.
    pub open spec fn selected_text(self) -> Seq<char> {
        self.text.subrange(self.selection.start() as int, self.selection.end() as int)
    }

    /// One step to the left. A selection that is not extended collapses to
    /// its start instead.
    pub open spec fn move_left(self, extend: bool) -> EditorModel {
        if !extend && self.selection.anchor != self.selection.cursor {
            let start = self.selection.start();
            EditorModel {
                selection: Selection { anchor: start, cursor: start },
                preferred_column: None,
                ..self
            }
        } else {
            let next = if self.selection.cursor == 0 {
                0usize
            } else {
                (self.selection.cursor - 1) as usize
            };
            EditorModel {
                selection: self.selection.with_cursor(next, extend),
                preferred_column: if extend {
                    self.preferred_column
                } else {
                    None
                },
                ..self
            }
        }
    }

    /// One step to the right. A selection that is not extended collapses to
    /// its end instead.
    pub open spec fn move_right(self, extend: bool) -> EditorModel {
        if !extend && self.selection.anchor != self.selection.cursor {
            let end = self.selection.end();
            EditorModel {
                selection: Selection { anchor: end, cursor: end },
                preferred_column: None,
                ..self
            }
        } else {
            let next = if self.selection.cursor < self.text.len() {
                (self.selection.cursor + 1) as usize
            } else {
                self.text.len() as usize
            };
            EditorModel {
                selection: self.selection.with_cursor(next, extend),
                preferred_column: if extend {
                    self.preferred_column
                } else {
                    None
                },
                ..self
            }
        }
    }

    /// The line that the cursor is on.
    pub open spec fn cursor_line(self) -> nat {
        line_of(self.text, self.selection.cursor as int)
    }

    /// The column that a move up or down aims at: the remembered one, or
    /// else the column of the cursor.
    pub open spec fn desired_column(self) -> usize {
        match self.preferred_column {
            Some(column) => column,
            None => (self.selection.cursor - line_start(self.text, self.cursor_line())) as usize,
        }
    }

    /// The line that a move up or down goes to: the neighbouring line, or
    /// the line of the cursor where that is the first or the last.
    pub open spec fn vertical_target(self, down: bool) -> nat {
        let line = self.cursor_line();
        if down {
            if line + 1 <= count_lf(self.text) {
                line + 1
            } else {
                count_lf(self.text)
            }
        } else {
            if line == 0 {
                0
            } else {
                (line - 1) as nat
            }
        }
    }

    /// One line up or down. The cursor goes to the desired column of the
    /// target line, or to the end of what that line shows where it is
    /// shorter. The desired column is remembered for the moves up and down
    /// that follow.
    pub open spec fn move_vertical(self, down: bool, extend: bool) -> EditorModel {
        let desired = self.desired_column();
        let target = self.vertical_target(down);
        let shown = visible_len(self.text, target);
        let column = if desired <= shown {
            desired as nat
        } else {
            shown
        };
        let next = (line_start(self.text, target) + column) as usize;
        EditorModel {
            selection: self.selection.with_cursor(next, extend),
            preferred_column: Some(desired),
            ..self
        }
    }

    /// To the start of the cursor's line.
    pub open spec fn move_line_start(self, extend: bool) -> EditorModel {
        let start = line_start(self.text, self.cursor_line()) as usize;
        EditorModel {
            selection: self.selection.with_cursor(start, extend),
            preferred_column: if extend {
                self.preferred_column
            } else {
                None
            },
            ..self
        }
    }

    /// To the end of what the cursor's line shows.
    pub open spec fn move_line_end(self, extend: bool) -> EditorModel {
        let line = self.cursor_line();
        let end = (line_start(self.text, line) + visible_len(self.text, line)) as usize;
        EditorModel {
            selection: self.selection.with_cursor(end, extend),
            preferred_column: if extend {
                self.preferred_column
            } else {
                None
            },
            ..self
        }
    }

    /// Where the shown part of the cursor's line ends.
    pub open spec fn cursor_line_end(self) -> nat {
        line_start(self.text, self.cursor_line()) + visible_len(self.text, self.cursor_line())
    }

    /// The cursor, or the end of what its line shows where the cursor
    /// stands behind that.
    pub open spec fn cursor_in_line(self) -> nat {
        if self.selection.cursor <= self.cursor_line_end() {
            self.selection.cursor as nat
        } else {
            self.cursor_line_end()
        }
    }

    /// The indentation of the cursor's line.
    pub open spec fn base_indent(self) -> Seq<char> {
        leading_indent_of(
            self.text.subrange(
                line_start(self.text, self.cursor_line()) as int,
                self.cursor_line_end() as int,
            ),
        )
    }

    /// The cursor stands behind an opening brace, white space aside.
    pub open spec fn opens_block(self) -> bool {
        ends_with_char(
            self.text.subrange(
                line_start(self.text, self.cursor_line()) as int,
                self.cursor_in_line() as int,
            ),
            '{',
        )
    }

    /// The cursor stands before a closing brace, white space aside.
    pub open spec fn closes_block(self) -> bool {
        starts_with_char(
            self.text.subrange(self.cursor_in_line() as int, self.cursor_line_end() as int),
            '}',
        )
    }

    /// Where the cursor goes when the line is broken between the braces of a
    /// block: behind the line feed and the indentation that follow the place
    /// where it stood.
    pub open spec fn caret_in_block(self, next: Seq<char>) -> usize {
        if self.selection.cursor + 1 + next.len() <= usize::MAX {
            (self.selection.cursor + 1 + next.len()) as usize
        } else {
            usize::MAX
        }
    }

    /// Breaking the line at the cursor. The new line is indented like the
    /// cursor's line; one step more behind an opening brace; one step less
    /// before a closing brace. Between the two braces of a block, the
    /// closing brace goes to a line of its own, indented like the cursor's
    /// line, and the cursor to the end of the indented line between them,
    /// all as one change.
    pub open spec fn newline_auto_indent(self) -> EditorModel {
        let base = self.base_indent();
        let next = next_indent(base, self.opens_block(), self.closes_block());
        if self.opens_block() && self.closes_block() {
            self.replace_range_to(
                self.selection.start(),
                self.selection.end(),
                seq!['\n'] + next + seq!['\n'] + base,
                Some(self.caret_in_block(next)),
            )
        } else {
            self.insert_text(seq!['\n'] + next)
        }
    }

    /// Handing out the descriptor of the last change.
    pub open spec fn without_last_edit(self) -> EditorModel {
        EditorModel { last_edit: None, ..self }
    }
}

/// The state after `k` calls of undo.
pub open spec fn undo_times(m: EditorModel, k: nat) -> EditorModel
    decreases k,
{
    if k == 0 {
        m
    } else {
        undo_times(m, (k - 1) as nat).undo()
    }
}

/// A replacement keeps the state well formed.
pub proof fn lemma_replace_range_wf(
    m: EditorModel,
    start: usize,
    end: usize,
    inserted: Seq<char>,
    caret: Option<usize>,
)
    requires
        m.wf(),
        start <= end,
        m.clamp(start) + inserted.len() <= usize::MAX,
    ensures
        m.replace_range_to(start, end, inserted, caret).wf(),
{
    let s = m.clamp(start);
    let e = m.clamp(end);
    if !(s == e && inserted.len() == 0) {
        let n = m.replace_range_to(start, end, inserted, caret);
        let r = n.undo.last();
        assert(n.text.subrange(s as int, s + inserted.len()) =~= inserted);
        assert(r.undone(n.text) =~= m.text);
        assert(n.undo.drop_last() =~= m.undo);
    }
}

/// Undo keeps the state well formed.
pub proof fn lemma_undo_wf(m: EditorModel)
    requires
        m.wf(),
    ensures
        m.undo().wf(),
{
    if m.undo.len() > 0 {
        let r = m.undo.last();
        let n = m.undo();
        assert(n.text.subrange(r.start as int, r.start + r.deleted.len()) =~= r.deleted);
        assert(r.redone(n.text) =~= m.text);
        assert(n.redo.drop_last() =~= m.redo);
    }
}

/// Redo keeps the state well formed.
pub proof fn lemma_redo_wf(m: EditorModel)
    requires
        m.wf(),
    ensures
        m.redo().wf(),
{
    if m.redo.len() > 0 {
        let r = m.redo.last();
        let n = m.redo();
        assert(n.text.subrange(r.start as int, r.start + r.inserted.len()) =~= r.inserted);
        assert(r.undone(n.text) =~= m.text);
        assert(n.undo.drop_last() =~= m.undo);
    }
}

/// A move up or down keeps the state well formed.
pub proof fn lemma_move_vertical_wf(m: EditorModel, down: bool, extend: bool)
    requires
        m.wf(),
        m.text.len() <= usize::MAX,
    ensures
        m.move_vertical(down, extend).wf(),
{
    lemma_visible_len_bound(m.text, m.vertical_target(down));
}

/// A move to either end of the line keeps the state well formed.
pub proof fn lemma_move_in_line_wf(m: EditorModel, extend: bool)
    requires
        m.wf(),
        m.text.len() <= usize::MAX,
    ensures
        m.move_line_start(extend).wf(),
        m.move_line_end(extend).wf(),
{
    lemma_visible_len_bound(m.text, m.cursor_line());
    lemma_line_start_of_line(m.text, m.selection.cursor as int);
}

/// The line of the cursor is one of the lines of the text.
pub proof fn lemma_cursor_line_bound(m: EditorModel)
    requires
        m.wf(),
    ensures
        m.cursor_line() <= count_lf(m.text),
        line_start(m.text, m.cursor_line()) <= m.selection.cursor,
{
    lemma_line_of_bound(m.text, m.selection.cursor as int);
    lemma_line_start_of_line(m.text, m.selection.cursor as int);
}

/// Undo followed at once by redo brings back the text and both history
/// stacks, and puts the selection where the change that was taken back and
/// made again had left it. That is the selection before the undo in every
/// state that a change or a redo left; see `lemma_change_then_undo_redo`.
pub proof fn lemma_undo_then_redo(m: EditorModel)
    requires
        m.wf(),
        m.undo.len() > 0,
    ensures
        m.undo().redo().text == m.text,
        m.undo().redo().undo == m.undo,
        m.undo().redo().redo == m.redo,
        m.undo().redo().selection == m.undo.last().after,
        m.selection == m.undo.last().after ==> m.undo().redo().selection == m.selection,
{
    let r = m.undo.last();
    let n = m.undo();
    assert(n.redo.last() == r);
    assert(r.redone(n.text) =~= m.text);
    assert(n.undo.push(r) =~= m.undo);
    assert(n.redo.drop_last() =~= m.redo);
}

/// Redo followed at once by undo brings back the text and both history
/// stacks, and leaves the selection where it was before the change that was
/// made again and taken back. So the selection comes back too wherever it had
/// not been moved since that change was undone.
pub proof fn lemma_redo_then_undo(m: EditorModel)
    requires
        m.wf(),
        m.redo.len() > 0,
    ensures
        m.redo().undo().text == m.text,
        m.redo().undo().undo == m.undo,
        m.redo().undo().redo == m.redo,
        m.redo().undo().selection == m.redo.last().before,
        m.selection == m.redo.last().before ==> m.redo().undo().selection == m.selection,
{
    let r = m.redo.last();
    let n = m.redo();
    assert(n.undo.last() == r);
    assert(r.undone(n.text) =~= m.text);
    assert(n.redo.push(r) =~= m.redo);
    assert(n.undo.drop_last() =~= m.undo);
}

/// Each of `k` calls of undo moves one entry from the undo stack to the redo
/// stack, as long as the undo stack holds one.
pub proof fn lemma_undo_times_fill_redo(m: EditorModel, k: nat)
    requires
        k <= m.undo.len(),
    ensures
        undo_times(m, k).undo.len() == m.undo.len() - k,
        undo_times(m, k).redo.len() == m.redo.len() + k,
    decreases k,
{
    if k > 0 {
        lemma_undo_times_fill_redo(m, (k - 1) as nat);
    }
}

/// A command that changes the text or the selection, other than undo and
/// redo.
pub enum Command {
    InsertText(Seq<char>),
    NewlineAutoIndent,
    Backspace,
    DeleteForward,
    SetCursor(usize, bool),
    SelectAll,
    SelectRange(usize, usize),
    MoveLeft(bool),
    MoveRight(bool),
    MoveUp(bool),
    MoveDown(bool),
    MoveLineStart(bool),
    MoveLineEnd(bool),
    TakeLastEdit,
}

impl EditorModel {
    /// The state after the command `c`.
    pub open spec fn apply(self, c: Command) -> EditorModel {
        match c {
            Command::InsertText(text) => self.insert_text(text),
            Command::NewlineAutoIndent => self.newline_auto_indent(),
            Command::Backspace => self.backspace(),
            Command::DeleteForward => self.delete_forward(),
            Command::SetCursor(cursor, extend) => self.set_cursor(cursor, extend),
            Command::SelectAll => self.select_all(),
            Command::SelectRange(start, end) => self.select_range(start, end),
            Command::MoveLeft(extend) => self.move_left(extend),
            Command::MoveRight(extend) => self.move_right(extend),
            Command::MoveUp(extend) => self.move_vertical(false, extend),
            Command::MoveDown(extend) => self.move_vertical(true, extend),
            Command::MoveLineStart(extend) => self.move_line_start(extend),
            Command::MoveLineEnd(extend) => self.move_line_end(extend),
            Command::TakeLastEdit => self.without_last_edit(),
        }
    }

    /// Whether the command `c` changes the text, and so the version.
    pub open spec fn mutates(self, c: Command) -> bool {
        self.apply(c).version != self.version || self.apply(c).undo.len() != self.undo.len()
    }
}

/// The state after the commands were given one after the other.
pub open spec fn run(m: EditorModel, commands: Seq<Command>) -> EditorModel
    decreases commands.len(),
{
    if commands.len() == 0 {
        m
    } else {
        run(m, commands.drop_last()).apply(commands.last())
    }
}

/// How many of the commands, given one after the other, changed the text.
pub open spec fn mutations(m: EditorModel, commands: Seq<Command>) -> nat
    decreases commands.len(),
{
    if commands.len() == 0 {
        0
    } else {
        mutations(m, commands.drop_last()) + if run(m, commands.drop_last()).mutates(
            commands.last(),
        ) {
            1nat
        } else {
            0nat
        }
    }
}

/// The text fits the machine after each of the commands.
pub open spec fn run_fits(m: EditorModel, commands: Seq<Command>) -> bool
    decreases commands.len(),
{
    m.text.len() <= usize::MAX && (commands.len() > 0 ==> run_fits(m, commands.drop_last())
        && run(m, commands).text.len() <= usize::MAX)
}

/// The text that is left when every entry of the undo stack is taken back.
pub open spec fn first_text(text: Seq<char>, undo: Seq<EditRecordModel>) -> Seq<char>
    decreases undo.len(),
{
    if undo.len() == 0 {
        text
    } else {
        first_text(undo.last().undone(text), undo.drop_last())
    }
}

/// The state after `k` calls of redo.
pub open spec fn redo_times(m: EditorModel, k: nat) -> EditorModel
    decreases k,
{
    if k == 0 {
        m
    } else {
        redo_times(m.redo(), (k - 1) as nat)
    }
}

/// A replacement leaves the first text as it is. Where it changes the text
/// it adds an entry to the undo stack, which holds the selection that it
/// leaves, and empties the redo stack.
proof fn lemma_replace_keeps_first_text(
    m: EditorModel,
    start: usize,
    end: usize,
    inserted: Seq<char>,
    caret: Option<usize>,
)
    requires
        m.clamp(start) <= m.clamp(end),
    ensures
        ({
            let n = m.replace_range_to(start, end, inserted, caret);
            &&& first_text(n.text, n.undo) == first_text(m.text, m.undo)
            &&& m.replaces(start, end, inserted) ==> n.undo.len() == m.undo.len() + 1
                && n.redo.len() == 0 && n.version != m.version && n.selection
                == n.undo.last().after
            &&& !m.replaces(start, end, inserted) ==> n == m
        }),
{
    if m.replaces(start, end, inserted) {
        let n = m.replace_range_to(start, end, inserted, caret);
        assert(n.undo.last().undone(n.text) =~= m.text);
        assert(n.undo.drop_last() =~= m.undo);
    }
}

/// A command leaves the first text as it is. Where it changes the text it
/// adds one entry to the undo stack, which holds the selection that the
/// command leaves, and empties the redo stack; where it does not, it leaves
/// the text and both stacks alone.
pub proof fn lemma_command_keeps_first_text(m: EditorModel, c: Command)
    requires
        m.text.len() <= usize::MAX,
    ensures
        first_text(m.apply(c).text, m.apply(c).undo) == first_text(m.text, m.undo),
        m.mutates(c) ==> m.apply(c).undo.len() == m.undo.len() + 1 && m.apply(c).redo.len() == 0
            && m.apply(c).selection == m.apply(c).undo.last().after,
        !m.mutates(c) ==> m.apply(c).undo == m.undo && m.apply(c).redo == m.redo && m.apply(
            c,
        ).text == m.text,
{
    let s = m.selection;
    match c {
        Command::InsertText(text) => {
            lemma_replace_keeps_first_text(m, s.start(), s.end(), text, None);
        },
        Command::NewlineAutoIndent => {
            let base = m.base_indent();
            let next = next_indent(base, m.opens_block(), m.closes_block());
            lemma_replace_keeps_first_text(m, s.start(), s.end(), seq!['\n'] + next, None);
            lemma_replace_keeps_first_text(
                m,
                s.start(),
                s.end(),
                seq!['\n'] + next + seq!['\n'] + base,
                Some(m.caret_in_block(next)),
            );
        },
        Command::Backspace => {
            lemma_replace_keeps_first_text(m, s.start(), s.end(), Seq::empty(), None);
            if s.cursor > 0 {
                lemma_replace_keeps_first_text(
                    m,
                    (s.cursor - 1) as usize,
                    s.cursor,
                    Seq::empty(),
                    None,
                );
            }
        },
        Command::DeleteForward => {
            lemma_replace_keeps_first_text(m, s.start(), s.end(), Seq::empty(), None);
            if s.cursor < m.text.len() {
                lemma_replace_keeps_first_text(
                    m,
                    s.cursor,
                    (s.cursor + 1) as usize,
                    Seq::empty(),
                    None,
                );
            }
        },
        _ => {},
    }
}

/// After a command that changed the text, undo followed at once by redo
/// brings back the text, both history stacks and the selection, exactly as
/// the command left them.
pub proof fn lemma_change_then_undo_redo(m: EditorModel, c: Command)
    requires
        m.text.len() <= usize::MAX,
        m.mutates(c),
        m.apply(c).wf(),
    ensures
        m.apply(c).undo().redo().text == m.apply(c).text,
        m.apply(c).undo().redo().selection == m.apply(c).selection,
        m.apply(c).undo().redo().undo == m.apply(c).undo,
        m.apply(c).undo().redo().redo == m.apply(c).redo,
{
    lemma_command_keeps_first_text(m, c);
    lemma_undo_then_redo(m.apply(c));
}

/// After a redo, undo followed at once by redo brings back the text, both
/// history stacks and the selection, exactly as the redo left them.
pub proof fn lemma_redo_then_undo_redo(m: EditorModel)
    requires
        m.wf(),
        m.redo.len() > 0,
    ensures
        m.redo().undo().redo().text == m.redo().text,
        m.redo().undo().redo().selection == m.redo().selection,
        m.redo().undo().redo().undo == m.redo().undo,
        m.redo().undo().redo().redo == m.redo().redo,
{
    lemma_redo_wf(m);
    lemma_undo_then_redo(m.redo());
}

/// After an undo, redo followed at once by undo brings back the text, both
/// history stacks and the selection, exactly as the undo left them.
pub proof fn lemma_undo_then_redo_undo(m: EditorModel)
    requires
        m.wf(),
        m.undo.len() > 0,
    ensures
        m.undo().redo().undo().text == m.undo().text,
        m.undo().redo().undo().selection == m.undo().selection,
        m.undo().redo().undo().undo == m.undo().undo,
        m.undo().redo().undo().redo == m.undo().redo,
{
    lemma_undo_wf(m);
    lemma_redo_then_undo(m.undo());
}

/// Commands other than undo and redo leave the first text as it is. Each
/// of them that changes the text adds one entry to the undo stack, and the
/// first of them empties the redo stack.
pub proof fn lemma_run_keeps_first_text(m: EditorModel, commands: Seq<Command>)
    requires
        run_fits(m, commands),
    ensures
        first_text(run(m, commands).text, run(m, commands).undo) == first_text(m.text, m.undo),
        run(m, commands).undo.len() == m.undo.len() + mutations(m, commands),
        mutations(m, commands) > 0 ==> run(m, commands).redo.len() == 0,
        mutations(m, commands) == 0 ==> run(m, commands).redo == m.redo,
    decreases commands.len(),
{
    if commands.len() > 0 {
        lemma_run_keeps_first_text(m, commands.drop_last());
        lemma_command_keeps_first_text(run(m, commands.drop_last()), commands.last());
    }
}

/// Each call of undo, while the undo stack holds an entry, leaves the first
/// text as it is.
pub proof fn lemma_undo_times_keeps_first_text(m: EditorModel, k: nat)
    requires
        k <= m.undo.len(),
    ensures
        undo_times(m, k).undo.len() == m.undo.len() - k,
        first_text(undo_times(m, k).text, undo_times(m, k).undo) == first_text(m.text, m.undo),
    decreases k,
{
    if k > 0 {
        lemma_undo_times_keeps_first_text(m, (k - 1) as nat);
    }
}

/// After any commands other than undo and redo, given to a fresh editor,
/// as many calls of undo as commands changed the text empty the undo stack
/// and bring back the text that the editor was made from.
pub proof fn lemma_undo_all_restores_first_text(text: Seq<char>, commands: Seq<Command>)
    requires
        run_fits(EditorModel::new(text), commands),
    ensures
        run(EditorModel::new(text), commands).undo.len() == mutations(
            EditorModel::new(text),
            commands,
        ),
        undo_times(
            run(EditorModel::new(text), commands),
            mutations(EditorModel::new(text), commands),
        ).undo.len() == 0,
        undo_times(
            run(EditorModel::new(text), commands),
            mutations(EditorModel::new(text), commands),
        ).text == text,
{
    let m = EditorModel::new(text);
    lemma_run_keeps_first_text(m, commands);
    lemma_undo_times_keeps_first_text(run(m, commands), mutations(m, commands));
}

/// Calls of undo keep the state well formed.
pub proof fn lemma_undo_times_wf(m: EditorModel, k: nat)
    requires
        m.wf(),
    ensures
        undo_times(m, k).wf(),
    decreases k,
{
    if k > 0 {
        lemma_undo_times_wf(m, (k - 1) as nat);
        lemma_undo_wf(undo_times(m, (k - 1) as nat));
    }
}

/// What calls of redo leave of the text and of both stacks depends on the
/// text and the stacks alone.
proof fn lemma_redo_times_same(a: EditorModel, b: EditorModel, k: nat)
    requires
        a.text == b.text,
        a.undo == b.undo,
        a.redo == b.redo,
    ensures
        redo_times(a, k).text == redo_times(b, k).text,
        redo_times(a, k).undo == redo_times(b, k).undo,
        redo_times(a, k).redo == redo_times(b, k).redo,
    decreases k,
{
    if k > 0 {
        lemma_redo_times_same(a.redo(), b.redo(), (k - 1) as nat);
    }
}

/// `k` calls of undo followed by `k` calls of redo bring back the text and
/// both history stacks.
pub proof fn lemma_undo_times_then_redo_times(m: EditorModel, k: nat)
    requires
        m.wf(),
        k <= m.undo.len(),
    ensures
        redo_times(undo_times(m, k), k).text == m.text,
        redo_times(undo_times(m, k), k).undo == m.undo,
        redo_times(undo_times(m, k), k).redo == m.redo,
    decreases k,
{
    if k > 0 {
        let u = undo_times(m, (k - 1) as nat);
        lemma_undo_times_wf(m, (k - 1) as nat);
        lemma_undo_times_fill_redo(m, (k - 1) as nat);
        lemma_undo_then_redo(u);
        lemma_redo_times_same(u.undo().redo(), u, (k - 1) as nat);
        lemma_undo_times_then_redo_times(m, (k - 1) as nat);
    }
}

/// After any commands other than undo and redo, given to a fresh editor,
/// the undo stack holds as many entries as commands changed the text and
/// the redo stack none; after `k` calls of undo that follow, the redo stack
/// holds `k`.
pub proof fn lemma_history_depths(text: Seq<char>, commands: Seq<Command>, k: nat)
    requires
        run_fits(EditorModel::new(text), commands),
        k <= mutations(EditorModel::new(text), commands),
    ensures
        run(EditorModel::new(text), commands).undo.len() == mutations(
            EditorModel::new(text),
            commands,
        ),
        run(EditorModel::new(text), commands).redo.len() == 0,
        undo_times(run(EditorModel::new(text), commands), k).redo.len() == k,
{
    let m = EditorModel::new(text);
    lemma_run_keeps_first_text(m, commands);
    lemma_undo_times_fill_redo(run(m, commands), k);
}

} // verus!
