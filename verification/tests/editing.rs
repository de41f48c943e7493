use rustide::chars::char_is_whitespace;
use rustide::editor::Editor;
use rustide::indent::decrease_indent;
use rustide::model::{EditorEdit, EditorPoint};
use rustide::selection::Selection;

fn rope_text(editor: &Editor) -> String {
    editor.rope().to_string()
}

#[test]
fn insert_backspace_delete() {
    let mut editor = Editor::empty();
    editor.insert_text("abc");
    assert_eq!(rope_text(&editor), "abc");

    editor.backspace();
    assert_eq!(rope_text(&editor), "ab");

    editor.set_cursor(0, false);
    editor.delete_forward();
    assert_eq!(rope_text(&editor), "b");
}

#[test]
fn selection_replaces_range() {
    let mut editor = Editor::empty();
    editor.insert_text("hello");

    editor.set_cursor(1, false);
    editor.set_cursor(4, true); // select "ell"
    editor.insert_text("X");
    assert_eq!(rope_text(&editor), "hXo");
    assert_eq!(editor.selection().anchor, editor.selection().cursor);
}

#[test]
fn undo_redo_roundtrip() {
    let mut editor = Editor::empty();
    editor.insert_text("hello");
    editor.set_cursor(1, false);
    editor.set_cursor(4, true);
    editor.insert_text("X");

    assert_eq!(rope_text(&editor), "hXo");
    assert!(editor.undo());
    assert_eq!(rope_text(&editor), "hello");
    assert!(editor.redo());
    assert_eq!(rope_text(&editor), "hXo");
}

#[test]
fn auto_indent_newline_basic() {
    let mut ed = Editor::from_text("    let x = 1;");
    ed.set_cursor(ed.rope().len_chars(), false);
    ed.insert_newline_auto_indent();
    assert_eq!(ed.rope().to_string(), "    let x = 1;\n    ");
}

#[test]
fn auto_indent_newline_block_braces() {
    let mut ed = Editor::from_text("{\n}");
    ed.set_cursor(1, false); // between '{' and '\n'
    ed.insert_newline_auto_indent();
    assert_eq!(ed.rope().to_string(), "{\n    \n}");
    assert_eq!(ed.selection().cursor, 1 + 1 + 4);
}

#[test]
fn move_up_down_preserves_column_when_possible() {
    let mut editor = Editor::empty();
    editor.insert_text("aa\nbbbb\ncc");

    let line1_start = editor.rope().line_to_char(1);
    editor.set_cursor(line1_start + 3, false); // line 1 col 3

    editor.move_up(false);
    assert_eq!(editor.selection().cursor, 2); // "aa" (clamped)

    editor.move_down(false);
    assert_eq!(editor.selection().cursor, line1_start + 3); // preferred column restored
}

#[test]
fn selection_range_is_ordered() {
    let forward = Selection { anchor: 2, cursor: 7 };
    let backward = Selection { anchor: 7, cursor: 2 };
    assert_eq!(forward.range(), 2..7);
    assert_eq!(backward.range(), 2..7);
    assert!(backward.range().start <= backward.range().end);
    assert!(!forward.is_empty());
    assert!(Selection::collapsed(5).is_empty());
    assert_eq!(Selection::collapsed(5), Selection { anchor: 5, cursor: 5 });
}

#[test]
fn selection_set_cursor_and_collapse() {
    let mut s = Selection { anchor: 1, cursor: 3 };
    s.set_cursor(9, true);
    assert_eq!(s, Selection { anchor: 1, cursor: 9 });
    s.set_cursor(4, false);
    assert_eq!(s, Selection { anchor: 4, cursor: 4 });
    s.set_cursor(6, true);
    s.collapse_to(2);
    assert_eq!(s, Selection { anchor: 2, cursor: 2 });
}

#[test]
fn fresh_editor_state() {
    let editor = Editor::from_text("héllo");
    assert_eq!(rope_text(&editor), "héllo");
    assert_eq!(editor.version(), 0);
    assert_eq!(editor.selection(), Selection { anchor: 0, cursor: 0 });
    let mut editor = editor;
    assert_eq!(editor.take_last_edit(), None);
    assert!(!editor.undo());
    assert!(!editor.redo());
    assert_eq!(editor.version(), 0);
}

#[test]
fn empty_insert_with_empty_selection_changes_nothing() {
    let mut editor = Editor::from_text("abc");
    editor.set_cursor(2, false);
    editor.insert_text("");
    assert_eq!(editor.version(), 0);
    assert_eq!(rope_text(&editor), "abc");
    assert_eq!(editor.take_last_edit(), None);
    assert!(!editor.undo());
    assert_eq!(editor.selection(), Selection { anchor: 2, cursor: 2 });
}

#[test]
fn empty_insert_over_a_selection_deletes_it() {
    let mut editor = Editor::from_text("abcdef");
    editor.select_range(4..1);
    assert_eq!(editor.selected_text(), "bcd");
    editor.insert_text("");
    assert_eq!(rope_text(&editor), "aef");
    assert_eq!(editor.version(), 1);
    assert_eq!(editor.selection(), Selection { anchor: 1, cursor: 1 });
}

#[test]
fn undo_then_redo_restores_text_and_selection() {
    let mut editor = Editor::from_text("one two");
    editor.select_range(4..7);
    editor.insert_text("2");
    let text = rope_text(&editor);
    let selection = editor.selection();
    assert!(editor.undo());
    assert_eq!(rope_text(&editor), "one two");
    assert_eq!(editor.selection(), Selection { anchor: 4, cursor: 7 });
    assert!(editor.redo());
    assert_eq!(rope_text(&editor), text);
    assert_eq!(editor.selection(), selection);
}

#[test]
fn redo_then_undo_restores_text_and_selection() {
    let mut editor = Editor::from_text("one two");
    editor.set_cursor(3, false);
    editor.insert_text(",");
    assert!(editor.undo());
    let text = rope_text(&editor);
    let selection = editor.selection();
    assert!(editor.redo());
    assert_eq!(rope_text(&editor), "one, two");
    assert!(editor.undo());
    assert_eq!(rope_text(&editor), text);
    assert_eq!(editor.selection(), selection);
}

#[test]
fn history_depths_follow_edits_and_undos() {
    let mut editor = Editor::empty();
    for piece in ["a", "b", "c", "d"] {
        editor.insert_text(piece);
    }
    assert_eq!(editor.version(), 4);
    // Nothing to redo after fresh edits.
    assert!(!editor.redo());
    // Three undos leave one entry to undo and three to redo.
    assert!(editor.undo());
    assert!(editor.undo());
    assert!(editor.undo());
    assert_eq!(rope_text(&editor), "a");
    assert!(editor.redo());
    assert!(editor.redo());
    assert!(editor.redo());
    assert!(!editor.redo());
    assert_eq!(rope_text(&editor), "abcd");
    // Four entries to undo again, and no more.
    assert!(editor.undo());
    assert!(editor.undo());
    assert!(editor.undo());
    assert!(editor.undo());
    assert!(!editor.undo());
    assert_eq!(rope_text(&editor), "");
}

#[test]
fn new_edit_clears_redo() {
    let mut editor = Editor::empty();
    editor.insert_text("a");
    editor.insert_text("b");
    assert!(editor.undo());
    editor.insert_text("c");
    assert!(!editor.redo());
    assert_eq!(rope_text(&editor), "ac");
}

#[test]
fn version_counts_every_mutation() {
    let mut editor = Editor::empty();
    editor.insert_text("xy");
    assert_eq!(editor.version(), 1);
    editor.backspace();
    assert_eq!(editor.version(), 2);
    assert!(editor.undo());
    assert_eq!(editor.version(), 3);
    assert!(editor.redo());
    assert_eq!(editor.version(), 4);
    editor.move_left(false);
    editor.select_all();
    assert_eq!(editor.version(), 4);
}

#[test]
fn backspace_and_delete_at_the_edges_do_nothing() {
    let mut editor = Editor::from_text("ab");
    editor.backspace();
    assert_eq!(rope_text(&editor), "ab");
    assert_eq!(editor.version(), 0);
    editor.set_cursor(2, false);
    editor.delete_forward();
    assert_eq!(rope_text(&editor), "ab");
    assert_eq!(editor.version(), 0);
}

#[test]
fn cursor_is_clamped_to_the_text() {
    let mut editor = Editor::from_text("abc");
    editor.set_cursor(99, false);
    assert_eq!(editor.selection(), Selection { anchor: 3, cursor: 3 });
    editor.select_range(1..50);
    assert_eq!(editor.selection(), Selection { anchor: 1, cursor: 3 });
    editor.select_all();
    assert_eq!(editor.selection(), Selection { anchor: 0, cursor: 3 });
    assert_eq!(editor.selected_text(), "abc");
}

#[test]
fn horizontal_moves_collapse_a_selection() {
    let mut editor = Editor::from_text("abcdef");
    editor.select_range(2..5);
    editor.move_left(false);
    assert_eq!(editor.selection(), Selection { anchor: 2, cursor: 2 });
    editor.select_range(2..5);
    editor.move_right(false);
    assert_eq!(editor.selection(), Selection { anchor: 5, cursor: 5 });
    editor.move_right(true);
    assert_eq!(editor.selection(), Selection { anchor: 5, cursor: 6 });
    editor.move_right(true);
    assert_eq!(editor.selection(), Selection { anchor: 5, cursor: 6 });
    editor.set_cursor(0, false);
    editor.move_left(false);
    assert_eq!(editor.selection(), Selection { anchor: 0, cursor: 0 });
}

#[test]
fn line_start_and_end_skip_the_terminator() {
    let mut editor = Editor::from_text("ab\r\ncdef\ngh");
    editor.set_cursor(1, false);
    editor.move_line_end(false);
    assert_eq!(editor.selection().cursor, 2);
    editor.set_cursor(6, false);
    editor.move_line_end(true);
    assert_eq!(editor.selection(), Selection { anchor: 6, cursor: 8 });
    editor.move_line_start(false);
    assert_eq!(editor.selection(), Selection { anchor: 4, cursor: 4 });
    editor.set_cursor(11, false);
    editor.move_line_end(false);
    assert_eq!(editor.selection().cursor, 11);
    editor.move_line_start(false);
    assert_eq!(editor.selection().cursor, 9);
}

#[test]
fn vertical_moves_stop_at_first_and_last_line() {
    let mut editor = Editor::from_text("abc\nde\n");
    editor.set_cursor(1, false);
    editor.move_up(false);
    assert_eq!(editor.selection().cursor, 1);
    editor.move_down(false);
    assert_eq!(editor.selection().cursor, 5);
    editor.move_down(false);
    assert_eq!(editor.selection().cursor, 7);
    editor.move_down(false);
    assert_eq!(editor.selection().cursor, 7);
    // The column remembered from the first line is still aimed at.
    editor.move_up(true);
    assert_eq!(editor.selection(), Selection { anchor: 7, cursor: 5 });
}

#[test]
fn preferred_column_survives_a_move_that_is_stopped_at_the_first_line() {
    let mut e = Editor::from_text("aa\nbbbb\ncc");
    e.set_cursor(6, false);
    e.move_up(false);
    assert_eq!(e.selection(), Selection::collapsed(2));
    e.move_up(false);
    assert_eq!(e.selection(), Selection::collapsed(2));
    e.move_down(false);
    assert_eq!(e.selection(), Selection::collapsed(6));
    e.move_down(false);
    assert_eq!(e.selection(), Selection::collapsed(10));
    e.move_down(false);
    assert_eq!(e.selection(), Selection::collapsed(10));
    e.move_up(false);
    assert_eq!(e.selection(), Selection::collapsed(6));
}

#[test]
fn undo_of_every_change_brings_back_the_first_text() {
    let mut e = Editor::from_text("fn f() {}");
    e.set_cursor(8, false);
    e.insert_newline_auto_indent();
    e.insert_text("x");
    e.move_left(true);
    e.backspace();
    e.set_cursor(0, false);
    e.delete_forward();
    let text = e.rope().to_string();
    for _ in 0..4 {
        assert!(e.undo());
    }
    assert!(!e.undo());
    assert_eq!(e.rope().to_string(), "fn f() {}");
    for _ in 0..4 {
        assert!(e.redo());
    }
    assert!(!e.redo());
    assert_eq!(e.rope().to_string(), text);
}

#[test]
fn horizontal_move_drops_the_preferred_column() {
    let mut editor = Editor::from_text("aa\nbbbb\ncc");
    editor.set_cursor(6, false);
    editor.move_up(false);
    assert_eq!(editor.selection().cursor, 2);
    editor.move_left(false);
    assert_eq!(editor.selection().cursor, 1);
    editor.move_down(false);
    assert_eq!(editor.selection().cursor, 4);
}

#[test]
fn edit_descriptor_counts_bytes_and_rows() {
    let mut editor = Editor::from_text("é\nxyz");
    editor.select_range(3..4);
    editor.insert_text("ß\nq");
    assert_eq!(rope_text(&editor), "é\nxß\nqz");
    let edit = editor.take_last_edit();
    assert_eq!(
        edit,
        Some(EditorEdit {
            start_byte: 4,
            old_end_byte: 5,
            new_end_byte: 8,
            start_point: EditorPoint { row: 1, column: 1 },
            old_end_point: EditorPoint { row: 1, column: 2 },
            new_end_point: EditorPoint { row: 2, column: 1 },
        })
    );
    assert_eq!(editor.take_last_edit(), None);
    assert!(editor.undo());
    assert_eq!(
        editor.take_last_edit(),
        Some(EditorEdit {
            start_byte: 4,
            old_end_byte: 8,
            new_end_byte: 5,
            start_point: EditorPoint { row: 1, column: 1 },
            old_end_point: EditorPoint { row: 2, column: 1 },
            new_end_point: EditorPoint { row: 1, column: 2 },
        })
    );
}

#[test]
fn carriage_return_alone_breaks_no_line() {
    let mut editor = Editor::from_text("a\rb\nc");
    editor.set_cursor(5, false);
    editor.move_up(false);
    assert_eq!(editor.selection().cursor, 1);
    editor.move_line_end(false);
    assert_eq!(editor.selection().cursor, 3);
}

#[test]
fn newline_before_closing_brace_decreases_indent() {
    let mut ed = Editor::from_text("        }");
    ed.set_cursor(8, false);
    ed.insert_newline_auto_indent();
    assert_eq!(ed.rope().to_string(), "        \n    }");
    assert_eq!(ed.selection().cursor, 13);
}

#[test]
fn newline_after_opening_brace_increases_indent() {
    let mut ed = Editor::from_text("\tfn f() {  ");
    ed.set_cursor(11, false);
    ed.insert_newline_auto_indent();
    assert_eq!(ed.rope().to_string(), "\tfn f() {  \n\t    ");
}

#[test]
fn newline_between_braces_on_one_line() {
    let mut ed = Editor::from_text("    {}");
    ed.set_cursor(5, false);
    ed.insert_newline_auto_indent();
    assert_eq!(ed.rope().to_string(), "    {\n\n    }");
    assert_eq!(ed.selection().cursor, 6);
}

#[test]
fn decrease_indent_strips_one_step() {
    assert_eq!(decrease_indent("        ", "    "), "    ");
    assert_eq!(decrease_indent("  \t", "    "), "  ");
    assert_eq!(decrease_indent("  ", "    "), "  ");
    assert_eq!(decrease_indent("", "    "), "");
    assert_eq!(decrease_indent("\t    ", "    "), "\t");
}

#[test]
fn a_cloned_editor_goes_its_own_way() {
    let mut first = Editor::from_text("ab");
    first.set_cursor(2, false);
    first.insert_text("c");
    let mut second = first.clone();
    assert_eq!(second.rope().to_string(), "abc");
    assert_eq!(second.selection(), first.selection());
    assert_eq!(second.version(), 1);
    assert!(second.undo());
    assert_eq!(second.rope().to_string(), "ab");
    assert_eq!(first.rope().to_string(), "abc");
    assert!(first.undo());
    assert!(!first.undo());
}

#[test]
fn undo_then_redo_restores_the_cursor_between_braces() {
    let mut e = Editor::from_text("{}");
    e.set_cursor(1, false);
    e.insert_newline_auto_indent();
    let s = e.selection();
    let t = e.rope().to_string();
    assert_eq!(t, "{\n\n}");
    assert_eq!(s, Selection::collapsed(2));
    assert!(e.undo());
    assert_eq!(e.rope().to_string(), "{}");
    assert_eq!(e.selection(), Selection::collapsed(1));
    assert!(e.redo());
    assert_eq!(e.rope().to_string(), t);
    assert_eq!(e.selection(), s);
}

#[test]
fn undo_then_redo_restores_the_cursor_in_an_indented_block() {
    let mut e = Editor::from_text("    if x { }");
    e.set_cursor(10, false);
    e.insert_newline_auto_indent();
    let s = e.selection();
    let t = e.rope().to_string();
    assert_eq!(t, "    if x {\n\n     }");
    assert_eq!(s, Selection::collapsed(11));
    assert!(e.undo());
    assert!(e.redo());
    assert_eq!(e.rope().to_string(), t);
    assert_eq!(e.selection(), s);
    for _ in 0..3 {
        e.insert_text("y");
        let (text, selection) = (e.rope().to_string(), e.selection());
        assert!(e.undo());
        assert!(e.redo());
        assert_eq!((e.rope().to_string(), e.selection()), (text, selection));
    }
}

#[test]
fn white_space_is_what_the_standard_library_takes_for_it() {
    for c in '\0'..=char::MAX {
        assert_eq!(char_is_whitespace(c), c.is_whitespace(), "{:?}", c);
    }
}

#[test]
fn length_in_bytes() {
    let mut e = Editor::from_text("aé水");
    assert_eq!(e.len_bytes(), 6);
    e.set_cursor(3, false);
    e.insert_text("\u{1F600}");
    assert_eq!(e.len_bytes(), 10);
    assert_eq!(Editor::empty().len_bytes(), 0);
}

#[test]
fn only_the_line_feed_breaks_a_line() {
    let editor = Editor::from_text("a\u{2028}b\u{000B}c\u{0085}d\u{000C}e\u{2029}f\rg\nh");
    assert_eq!(editor.rope().len_lines(), 2);
    let mut editor = editor;
    editor.set_cursor(14, false);
    editor.move_line_start(false);
    assert_eq!(editor.selection().cursor, 14);
    editor.move_up(false);
    assert_eq!(editor.selection().cursor, 0);
    editor.move_line_end(false);
    assert_eq!(editor.selection().cursor, 13);
}
