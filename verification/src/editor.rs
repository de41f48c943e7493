//! The editor: a rope of text with a selection, a remembered column for
//! moves up and down, an undo and a redo stack, and a version that every
//! change advances.

use crate::indent::{
    decrease_indent, indent_unit, leading_indent, line_part_ends_with, line_part_starts_with,
};
use crate::model::{
    edit_descriptor, lemma_cursor_line_bound, lemma_move_in_line_wf, lemma_move_vertical_wf,
    lemma_redo_wf, lemma_replace_range_wf, lemma_undo_wf, point_at, raw_end, EditRecordModel,
    EditorEdit, EditorModel, EditorPoint,
};
use crate::rope::{
    rope_char, rope_char_to_byte, rope_char_to_line, rope_clone, rope_from_str, rope_insert,
    rope_len_bytes, rope_len_chars, rope_len_lines, rope_line_len, rope_line_to_char,
    rope_remove, rope_slice_string, rope_text,
};
use crate::selection::Selection;
use crate::text::{
    byte_len, column_of, lemma_byte_offset_split, lemma_line_of_bound, lemma_line_start_monotonic,
    lemma_line_start_of_line, lemma_visible_len_bound, line_count, line_start, splice,
    visible_len,
};
use ropey::Rope;
use std::ops::Range;
use vstd::prelude::*;
use vstd::string::*;

verus! {

/// One entry of the history.
#[derive(Debug)]
struct EditRecord {
    start: usize,
    inserted: String,
    deleted: String,
    before: Selection,
    after: Selection,
}

impl EditRecord {
    spec fn model(self) -> EditRecordModel {
        EditRecordModel {
            start: self.start,
            inserted: self.inserted@,
            deleted: self.deleted@,
            before: self.before,
            after: self.after,
        }
    }
}

spec fn stack_model(stack: Seq<EditRecord>) -> Seq<EditRecordModel> {
    stack.map_values(|r: EditRecord| r.model())
}

/// The undo stack and the redo stack, the latest entry last.
#[derive(Debug)]
struct History {
    undo: Vec<EditRecord>,
    redo: Vec<EditRecord>,
}

/// Character-indexed editor state over a rope, with a log of changes that
/// can be undone and redone.
#[derive(Debug)]
pub struct Editor {
    rope: Rope,
    selection: Selection,
    preferred_column: Option<usize>,
    history: History,
    version: u64,
    last_edit: Option<EditorEdit>,
}

impl View for Editor {
    type V = EditorModel;

    closed spec fn view(&self) -> EditorModel {
        EditorModel {
            text: rope_text(self.rope),
            selection: self.selection,
            preferred_column: self.preferred_column,
            undo: stack_model(self.history.undo@),
            redo: stack_model(self.history.redo@),
            version: self.version,
            last_edit: self.last_edit,
        }
    }
}

/// A copy of one entry of the history.
fn copy_record(record: &EditRecord) -> (copy: EditRecord)
    ensures
        copy.model() == record.model(),
{
    EditRecord {
        start: record.start,
        inserted: record.inserted.clone(),
        deleted: record.deleted.clone(),
        before: record.before,
        after: record.after,
    }
}

/// A copy of one of the history stacks.
fn copy_stack(stack: &Vec<EditRecord>) -> (copy: Vec<EditRecord>)
    ensures
        stack_model(copy@) == stack_model(stack@),
{
    let mut copy: Vec<EditRecord> = Vec::new();
    let mut i: usize = 0;
    while i < stack.len()
        invariant
            i <= stack.len(),
            stack_model(copy@) == stack_model(stack@.take(i as int)),
        decreases stack.len() - i,
    {
        let record = copy_record(&stack[i]);
        let ghost before = copy@;
        copy.push(record);
        proof {
            let prefix = stack@.take(i as int);
            assert(stack@.take(i + 1) =~= prefix.push(stack@[i as int]));
            assert(stack_model(before.push(record)) =~= stack_model(before).push(record.model()));
            assert(stack_model(prefix.push(stack@[i as int])) =~= stack_model(prefix).push(
                stack@[i as int].model(),
            ));
        }
        i += 1;
    }
    assert(stack@.take(i as int) =~= stack@);
    copy
}

impl Clone for Editor {
    fn clone(&self) -> (copy: Self)
        ensures
            copy@ == self@,
            copy.wf() == self.wf(),
    {
        Editor {
            rope: rope_clone(&self.rope),
            selection: self.selection,
            preferred_column: self.preferred_column,
            history: History {
                undo: copy_stack(&self.history.undo),
                redo: copy_stack(&self.history.redo),
            },
            version: self.version,
            last_edit: self.last_edit,
        }
    }
}

/// The row and byte column of position `idx`.
fn point_for_char(rope: &Rope, idx: usize) -> (p: EditorPoint)
    requires
        idx <= rope_text(*rope).len(),
    ensures
        p == point_at(rope_text(*rope), idx as int),
{
    proof {
        lemma_line_of_bound(rope_text(*rope), idx as int);
        lemma_line_start_of_line(rope_text(*rope), idx as int);
    }
    let row = rope_char_to_line(rope, idx);
    let line_start_char = rope_line_to_char(rope, row);
    proof {
        lemma_byte_offset_split(rope_text(*rope), line_start_char as int, idx as int);
    }
    let line_start_byte = rope_char_to_byte(rope, line_start_char);
    let column = rope_char_to_byte(rope, idx) - line_start_byte;
    EditorPoint { row, column }
}

impl Editor {
    /// The selection lies within the text, and the history fits the text.
    pub open spec fn wf(&self) -> bool {
        self@.wf() && self@.text.len() <= usize::MAX
    }

    pub fn empty() -> (e: Self)
        ensures
            e.wf(),
            e@ == EditorModel::new(Seq::empty()),
    {
        proof {
            reveal_strlit("");
        }
        let e = Self::from_text("");
        assert(""@ =~= Seq::<char>::empty());
        e
    }

    pub fn from_text(text: &str) -> (e: Self)
        ensures
            e.wf(),
            e@ == EditorModel::new(text@),
    {
        let rope = rope_from_str(text);
        let e = Self {
            rope,
            selection: Selection::collapsed(0),
            preferred_column: None,
            history: History { undo: Vec::new(), redo: Vec::new() },
            version: 0,
            last_edit: None,
        };
        assert(e@.undo =~= Seq::empty());
        assert(e@.redo =~= Seq::empty());
        e
    }

    pub fn rope(&self) -> (r: &Rope)
        ensures
            rope_text(*r) == self@.text,
    {
        &self.rope
    }

    pub fn version(&self) -> (v: u64)
        ensures
            v == self@.version,
    {
        self.version
    }

    pub fn selection(&self) -> (s: Selection)
        ensures
            s == self@.selection,
    {
        self.selection
    }

    /// Hands out the descriptor of the last change, once.
    pub fn take_last_edit(&mut self) -> (e: Option<EditorEdit>)
        ensures
            e == old(self)@.last_edit,
            final(self)@ == old(self)@.without_last_edit(),
    {
        self.last_edit.take()
    }

    pub fn set_cursor(&mut self, cursor: usize, extend: bool)
        requires
            old(self).wf(),
        ensures
            final(self).wf(),
            final(self)@ == old(self)@.set_cursor(cursor, extend),
    {
        let len = rope_len_chars(&self.rope);
        let cursor = if cursor <= len {
            cursor
        } else {
            len
        };
        self.selection.set_cursor(cursor, extend);
        if !extend {
            self.preferred_column = None;
        }
    }

    pub fn select_all(&mut self)
        requires
            old(self).wf(),
        ensures
            final(self).wf(),
            final(self)@ == old(self)@.select_all(),
    {
        self.selection.anchor = 0;
        self.selection.cursor = rope_len_chars(&self.rope);
        self.preferred_column = None;
    }

    pub fn select_range(&mut self, range: Range<usize>)
        requires
            old(self).wf(),
        ensures
            final(self).wf(),
            final(self)@ == old(self)@.select_range(range.start, range.end),
    {
        let len = rope_len_chars(&self.rope);
        let start = if range.start <= len {
            range.start
        } else {
            len
        };
        let end = if range.end <= len {
            range.end
        } else {
            len
        };
        self.selection.anchor = start;
        self.selection.cursor = end;
        self.preferred_column = None;
    }

    pub fn selected_text(&self) -> (s: String)
        requires
            self.wf(),
        ensures
            s@ == self@.selected_text(),
    {
        let range = self.selection.range();
        if range.start == range.end {
            let s = String::new();
            assert(s@ =~= self@.selected_text());
            return s;
        }
        rope_slice_string(&self.rope, range.start, range.end)
    }

    pub fn insert_text(&mut self, text: &str)
        requires
            old(self).wf(),
        ensures
            final(self).wf(),
            final(self)@ == old(self)@.insert_text(text@),
            text@.len() == 0 && old(self)@.selection.anchor == old(self)@.selection.cursor
                ==> final(self)@ == old(self)@,
    {
        let range = self.selection.range();
        self.replace_range(range, text, None);
    }

    /// Breaks the line at the cursor and indents the new line.
    pub fn insert_newline_auto_indent(&mut self)
        requires
            old(self).wf(),
        ensures
            final(self).wf(),
            final(self)@ == old(self)@.newline_auto_indent(),
    {
        proof {
            lemma_cursor_line_bound(self@);
            lemma_visible_len_bound(self@.text, self@.cursor_line());
            reveal_strlit("    ");
            reveal_strlit("\n");
            assert("    "@ =~= indent_unit());
            assert("\n"@ =~= seq!['\n']);
        }
        let cursor = self.selection.cursor;
        let (line_index, _col) = self.cursor_line_col();
        let line_start = rope_line_to_char(&self.rope, line_index);
        let line_end = line_start + self.line_visible_len(line_index);
        let split = if cursor <= line_end {
            cursor
        } else {
            line_end
        };

        let base_indent = leading_indent(&self.rope, line_start, line_end);
        let opens = line_part_ends_with(&self.rope, line_start, split, '{');
        let closes = line_part_starts_with(&self.rope, split, line_end, '}');

        let indent_unit = "    ";
        let mut next_indent = base_indent.clone();
        if opens {
            next_indent.append(indent_unit);
        }
        if closes {
            next_indent = decrease_indent(base_indent.as_str(), indent_unit);
        }
        let mut inner = String::new();
        inner.append("\n");
        inner.append(next_indent.as_str());
        assert(inner@ =~= seq!['\n'] + next_indent@);

        if opens && closes {
            inner.append("\n");
            inner.append(base_indent.as_str());
            assert(inner@ =~= seq!['\n'] + next_indent@ + seq!['\n'] + base_indent@);
            let caret = cursor.saturating_add(1).saturating_add(
                next_indent.as_str().unicode_len(),
            );
            let range = self.selection.range();
            self.replace_range(range, inner.as_str(), Some(caret));
            return ;
        }
        self.insert_text(inner.as_str());
    }

    pub fn backspace(&mut self)
        requires
            old(self).wf(),
        ensures
            final(self).wf(),
            final(self)@ == old(self)@.backspace(),
    {
        let range = self.selection.range();
        if range.start != range.end {
            self.delete_range(range);
            return ;
        }
        let cursor = self.selection.cursor;
        if cursor == 0 {
            return ;
        }
        self.delete_range(cursor - 1..cursor);
    }

    pub fn delete_forward(&mut self)
        requires
            old(self).wf(),
        ensures
            final(self).wf(),
            final(self)@ == old(self)@.delete_forward(),
    {
        let range = self.selection.range();
        if range.start != range.end {
            self.delete_range(range);
            return ;
        }
        let cursor = self.selection.cursor;
        if cursor >= rope_len_chars(&self.rope) {
            return ;
        }
        self.delete_range(cursor..cursor + 1);
    }

    /// The length of the text in UTF-8, in bytes.
    pub fn len_bytes(&self) -> (n: usize)
        ensures
            n == byte_len(self@.text),
    {
        rope_len_bytes(&self.rope)
    }

    /// Takes back the latest change. Returns whether there was one.
    pub fn undo(&mut self) -> (done: bool)
        requires
            old(self).wf(),
        ensures
            final(self).wf(),
            done == (old(self)@.undo.len() > 0),
            final(self)@ == old(self)@.undo(),
    {
        let ghost before = self@;
        match self.history.undo.pop() {
            None => false,
            Some(edit) => {
                assert(edit.model() == before.undo.last());
                assert(stack_model(self.history.undo@) =~= before.undo.drop_last());
                let inserted_len = edit.inserted.as_str().unicode_len();
                let info = self.apply_raw_edit(edit.start, inserted_len, edit.deleted.as_str());
                self.selection = edit.before;
                self.preferred_column = None;
                self.history.redo.push(edit);
                self.version = self.version.wrapping_add(1);
                self.last_edit = Some(info);
                proof {
                    assert(stack_model(self.history.redo@) =~= before.redo.push(edit.model()));
                    lemma_undo_wf(before);
                }
                true
            },
        }
    }

    /// Makes again the change that was taken back last. Returns whether
    /// there was one.
    pub fn redo(&mut self) -> (done: bool)
        requires
            old(self).wf(),
        ensures
            final(self).wf(),
            done == (old(self)@.redo.len() > 0),
            final(self)@ == old(self)@.redo(),
    {
        let ghost before = self@;
        match self.history.redo.pop() {
            None => false,
            Some(edit) => {
                assert(edit.model() == before.redo.last());
                assert(stack_model(self.history.redo@) =~= before.redo.drop_last());
                let deleted_len = edit.deleted.as_str().unicode_len();
                let info = self.apply_raw_edit(edit.start, deleted_len, edit.inserted.as_str());
                self.selection = edit.after;
                self.preferred_column = None;
                self.history.undo.push(edit);
                self.version = self.version.wrapping_add(1);
                self.last_edit = Some(info);
                proof {
                    assert(stack_model(self.history.undo@) =~= before.undo.push(edit.model()));
                    lemma_redo_wf(before);
                }
                true
            },
        }
    }

    pub fn move_left(&mut self, extend: bool)
        requires
            old(self).wf(),
        ensures
            final(self).wf(),
            final(self)@ == old(self)@.move_left(extend),
    {
        if !extend && !self.selection.is_empty() {
            let start = self.selection.range().start;
            self.selection.collapse_to(start);
            self.preferred_column = None;
            return ;
        }
        let cursor = self.selection.cursor;
        let next = if cursor == 0 {
            0
        } else {
            cursor - 1
        };
        self.selection.set_cursor(next, extend);
        if !extend {
            self.preferred_column = None;
        }
    }

    pub fn move_right(&mut self, extend: bool)
        requires
            old(self).wf(),
        ensures
            final(self).wf(),
            final(self)@ == old(self)@.move_right(extend),
    {
        if !extend && !self.selection.is_empty() {
            let end = self.selection.range().end;
            self.selection.collapse_to(end);
            self.preferred_column = None;
            return ;
        }
        let cursor = self.selection.cursor;
        let len = rope_len_chars(&self.rope);
        let next = if cursor < len {
            cursor + 1
        } else {
            len
        };
        self.selection.set_cursor(next, extend);
        if !extend {
            self.preferred_column = None;
        }
    }

    pub fn move_up(&mut self, extend: bool)
        requires
            old(self).wf(),
        ensures
            final(self).wf(),
            final(self)@ == old(self)@.move_vertical(false, extend),
    {
        self.move_vertical(false, extend);
    }

    pub fn move_down(&mut self, extend: bool)
        requires
            old(self).wf(),
        ensures
            final(self).wf(),
            final(self)@ == old(self)@.move_vertical(true, extend),
    {
        self.move_vertical(true, extend);
    }

    pub fn move_line_start(&mut self, extend: bool)
        requires
            old(self).wf(),
        ensures
            final(self).wf(),
            final(self)@ == old(self)@.move_line_start(extend),
    {
        proof {
            lemma_cursor_line_bound(self@);
            lemma_move_in_line_wf(self@, extend);
        }
        let (line, _col) = self.cursor_line_col();
        let start = rope_line_to_char(&self.rope, line);
        self.selection.set_cursor(start, extend);
        if !extend {
            self.preferred_column = None;
        }
    }

    pub fn move_line_end(&mut self, extend: bool)
        requires
            old(self).wf(),
        ensures
            final(self).wf(),
            final(self)@ == old(self)@.move_line_end(extend),
    {
        proof {
            lemma_cursor_line_bound(self@);
            lemma_move_in_line_wf(self@, extend);
            lemma_visible_len_bound(self@.text, self@.cursor_line());
        }
        let (line, _col) = self.cursor_line_col();
        let end = rope_line_to_char(&self.rope, line) + self.line_visible_len(line);
        self.selection.set_cursor(end, extend);
        if !extend {
            self.preferred_column = None;
        }
    }

    /// Takes out the characters of `range`, clamped to the text, and records
    /// the change.
    fn delete_range(&mut self, range: Range<usize>)
        requires
            old(self).wf(),
            range.start <= range.end,
        ensures
            final(self).wf(),
            final(self)@ == old(self)@.replace_range(range.start, range.end, Seq::empty()),
    {
        proof {
            reveal_strlit("");
            assert(""@ =~= Seq::<char>::empty());
        }
        self.replace_range(range, "", None);
    }

    /// Replaces the characters of `range`, clamped to the text, by
    /// `inserted`, leaves the cursor at `caret`, clamped to the new text, or
    /// behind what was inserted where no caret is given, and records the
    /// change.
    fn replace_range(&mut self, range: Range<usize>, inserted: &str, caret: Option<usize>)
        requires
            old(self).wf(),
            range.start <= range.end,
        ensures
            final(self).wf(),
            final(self)@ == old(self)@.replace_range_to(
                range.start,
                range.end,
                inserted@,
                caret,
            ),
    {
        let ghost prior = self@;
        let len = rope_len_chars(&self.rope);
        let start = if range.start <= len {
            range.start
        } else {
            len
        };
        let end = if range.end <= len {
            range.end
        } else {
            len
        };
        if start == end && inserted.is_empty() {
            return ;
        }
        let before = self.selection;
        let deleted = if start == end {
            String::new()
        } else {
            rope_slice_string(&self.rope, start, end)
        };
        assert(deleted@ =~= prior.text.subrange(start as int, end as int));

        let deleted_len = end - start;
        let info = self.apply_raw_edit(start, deleted_len, inserted);

        let cursor = match caret {
            Some(caret) => {
                let new_len = rope_len_chars(&self.rope);
                if caret <= new_len {
                    caret
                } else {
                    new_len
                }
            },
            None => start + inserted.unicode_len(),
        };
        let after = Selection::collapsed(cursor);
        self.selection = after;
        self.preferred_column = None;

        self.history.redo.clear();
        let record = EditRecord { start, inserted: inserted.to_owned(), deleted, before, after };
        self.history.undo.push(record);

        self.version = self.version.wrapping_add(1);
        self.last_edit = Some(info);
        proof {
            assert(stack_model(self.history.undo@) =~= prior.undo.push(record.model()));
            assert(stack_model(self.history.redo@) =~= Seq::empty());
            lemma_replace_range_wf(prior, range.start, range.end, inserted@, caret);
        }
    }

    /// Takes `remove_len` characters out of the rope at `start`, or those
    /// up to the end of the text where there are fewer, and puts `inserted`
    /// in there. Returns the descriptor of that change.
    fn apply_raw_edit(&mut self, start: usize, remove_len: usize, inserted: &str) -> (info:
        EditorEdit)
        requires
            start <= old(self)@.text.len(),
        ensures
            final(self)@ == (EditorModel {
                text: splice(
                    old(self)@.text,
                    start as int,
                    raw_end(old(self)@.text, start as int, remove_len as int),
                    inserted@,
                ),
                ..old(self)@
            }),
            info == edit_descriptor(
                old(self)@.text,
                start as int,
                raw_end(old(self)@.text, start as int, remove_len as int),
                inserted@,
            ),
            final(self)@.text.len() <= usize::MAX,
    {
        let ghost prior = self@.text;
        let len = rope_len_chars(&self.rope);
        let old_end = if remove_len <= len - start {
            start + remove_len
        } else {
            len
        };

        let start_byte = rope_char_to_byte(&self.rope, start);
        let old_end_byte = rope_char_to_byte(&self.rope, old_end);
        let start_point = point_for_char(&self.rope, start);
        let old_end_point = point_for_char(&self.rope, old_end);

        if start < old_end {
            rope_remove(&mut self.rope, start, old_end);
        }
        assert(rope_text(self.rope) =~= prior.take(start as int) + prior.skip(old_end as int));
        if !inserted.is_empty() {
            rope_insert(&mut self.rope, start, inserted);
        }
        assert(rope_text(self.rope) =~= splice(prior, start as int, old_end as int, inserted@));

        let new_end = start + inserted.unicode_len();
        let new_end_byte = rope_char_to_byte(&self.rope, new_end);
        let new_end_point = point_for_char(&self.rope, new_end);

        EditorEdit {
            start_byte,
            old_end_byte,
            new_end_byte,
            start_point,
            old_end_point,
            new_end_point,
        }
    }

    /// The line and the column of the cursor.
    fn cursor_line_col(&self) -> (r: (usize, usize))
        requires
            self.wf(),
        ensures
            r.0 == self@.cursor_line(),
            r.1 == column_of(self@.text, self@.selection.cursor as int),
    {
        proof {
            lemma_cursor_line_bound(self@);
        }
        let cursor = self.selection.cursor;
        let line = rope_char_to_line(&self.rope, cursor);
        let col = cursor - rope_line_to_char(&self.rope, line);
        (line, col)
    }

    /// The number of characters that line `line` shows.
    pub(crate) fn line_visible_len(&self, line: usize) -> (n: usize)
        requires
            self.wf(),
            line < line_count(self@.text),
        ensures
            n == visible_len(self@.text, line as nat),
    {
        proof {
            lemma_visible_len_bound(self@.text, line as nat);
            lemma_line_start_monotonic(self@.text, line as nat);
        }
        let start = rope_line_to_char(&self.rope, line);
        let mut len = rope_line_len(&self.rope, line);
        if len == 0 {
            return 0;
        }
        let end = start + len;
        if rope_char(&self.rope, end - 1) == '\n' {
            len -= 1;
            if len > 0 && rope_char(&self.rope, end - 2) == '\r' {
                len -= 1;
            }
        }
        len
    }

    /// Moves the cursor one line down or up.
    fn move_vertical(&mut self, down: bool, extend: bool)
        requires
            old(self).wf(),
        ensures
            final(self).wf(),
            final(self)@ == old(self)@.move_vertical(down, extend),
    {
        proof {
            lemma_cursor_line_bound(self@);
            lemma_move_vertical_wf(self@, down, extend);
            lemma_visible_len_bound(self@.text, self@.vertical_target(down));
        }
        let (line, col) = self.cursor_line_col();

        let desired = self.preferred_column.unwrap_or(col);
        let last_line = rope_len_lines(&self.rope) - 1;
        let target_line = if down {
            if line < last_line {
                line + 1
            } else {
                last_line
            }
        } else {
            if line == 0 {
                0
            } else {
                line - 1
            }
        };

        let line_start = rope_line_to_char(&self.rope, target_line);
        let shown = self.line_visible_len(target_line);
        let line_col = if desired <= shown {
            desired
        } else {
            shown
        };
        let next = line_start + line_col;

        self.selection.set_cursor(next, extend);
        self.preferred_column = Some(desired);
    }
}

} // verus!
