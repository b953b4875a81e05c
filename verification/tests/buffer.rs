use ox::document::{Document, Effect};
use ox::event::EventKind;
use ox::render::scroll_to;
use ox::row_store::{EditError, Position, RowStore};

fn cs(s: &str) -> Vec<char> {
    s.chars().collect()
}

fn rows_of(store: &RowStore) -> Vec<String> {
    let mut out = Vec::new();
    for i in 0..store.len() {
        out.push(store.row(i).unwrap().iter().collect::<String>());
    }
    out
}

fn at(row: usize, col: usize) -> Position {
    Position { row, col }
}

#[test]
fn new_store_is_one_empty_row() {
    let store = RowStore::new();
    assert_eq!(store.len(), 1);
    assert_eq!(rows_of(&store), vec![String::new()]);
}

#[test]
fn delete_across_rows_returns_removed_text() {
    let mut store = RowStore::from_text(&cs("abc\ndef"));
    assert_eq!(rows_of(&store), vec!["abc", "def"]);
    let removed = store.delete_range(at(0, 1), at(1, 1)).unwrap();
    assert_eq!(removed, cs("bc\nd"));
    assert_eq!(rows_of(&store), vec!["aef"]);
}

#[test]
fn delete_whole_single_row_leaves_one_empty_row() {
    let mut store = RowStore::from_text(&cs("hello"));
    let removed = store.delete_range(at(0, 0), at(0, 5)).unwrap();
    assert_eq!(removed, cs("hello"));
    assert_eq!(store.len(), 1);
    assert_eq!(rows_of(&store), vec![""]);
}

#[test]
fn delete_whole_multi_row_document_leaves_one_empty_row() {
    let mut store = RowStore::from_text(&cs("ab\ncd\nef"));
    let removed = store.delete_range(at(0, 0), at(2, 2)).unwrap();
    assert_eq!(removed, cs("ab\ncd\nef"));
    assert_eq!(rows_of(&store), vec![""]);
}

#[test]
fn delete_empty_range_changes_nothing() {
    let mut store = RowStore::from_text(&cs("ab\ncd"));
    let removed = store.delete_range(at(1, 1), at(1, 1)).unwrap();
    assert_eq!(removed, cs(""));
    assert_eq!(rows_of(&store), vec!["ab", "cd"]);
}

#[test]
fn delete_with_start_behind_end_is_invalid_range() {
    let mut store = RowStore::from_text(&cs("abc\ndef"));
    assert_eq!(store.delete_range(at(1, 1), at(0, 1)), Err(EditError::InvalidRange));
    assert_eq!(store.delete_range(at(0, 2), at(0, 1)), Err(EditError::InvalidRange));
    assert_eq!(rows_of(&store), vec!["abc", "def"]);
}

#[test]
fn delete_outside_the_text_is_out_of_bounds() {
    let mut store = RowStore::from_text(&cs("abc\ndef"));
    assert_eq!(store.delete_range(at(0, 1), at(2, 0)), Err(EditError::OutOfBounds));
    assert_eq!(store.delete_range(at(0, 1), at(1, 4)), Err(EditError::OutOfBounds));
    assert_eq!(store.delete_range(at(0, 4), at(1, 0)), Err(EditError::OutOfBounds));
    assert_eq!(rows_of(&store), vec!["abc", "def"]);
}

#[test]
fn insert_without_terminator_splices_into_row() {
    let mut store = RowStore::from_text(&cs("held"));
    let end = store.insert_at(at(0, 3), &cs("lo wor")).unwrap();
    assert_eq!(end, at(0, 9));
    assert_eq!(rows_of(&store), vec!["hello word"]);
}

#[test]
fn insert_with_terminators_splits_row() {
    let mut store = RowStore::from_text(&cs("abcd\nxyz"));
    let end = store.insert_at(at(0, 2), &cs("1\n22\n333")).unwrap();
    assert_eq!(end, at(2, 3));
    assert_eq!(rows_of(&store), vec!["ab1", "22", "333cd", "xyz"]);
}

#[test]
fn insert_single_terminator_splits_row_in_two() {
    let mut store = RowStore::from_text(&cs("abcd"));
    let end = store.insert_at(at(0, 2), &cs("\n")).unwrap();
    assert_eq!(end, at(1, 0));
    assert_eq!(rows_of(&store), vec!["ab", "cd"]);
}

#[test]
fn insert_at_end_of_row_and_of_text() {
    let mut store = RowStore::from_text(&cs("ab\ncd"));
    let end = store.insert_at(at(1, 2), &cs("!")).unwrap();
    assert_eq!(end, at(1, 3));
    assert_eq!(rows_of(&store), vec!["ab", "cd!"]);
}

#[test]
fn insert_outside_the_text_is_out_of_bounds() {
    let mut store = RowStore::from_text(&cs("ab\ncd"));
    assert_eq!(store.insert_at(at(2, 0), &cs("x")), Err(EditError::OutOfBounds));
    assert_eq!(store.insert_at(at(0, 3), &cs("x")), Err(EditError::OutOfBounds));
    assert_eq!(rows_of(&store), vec!["ab", "cd"]);
}

#[test]
fn insert_then_delete_restores_rows() {
    let mut store = RowStore::from_text(&cs("abcd\nxyz"));
    let text = cs("1\n22\n333");
    let end = store.insert_at(at(0, 2), &text).unwrap();
    let removed = store.delete_range(at(0, 2), end).unwrap();
    assert_eq!(removed, text);
    assert_eq!(rows_of(&store), vec!["abcd", "xyz"]);
}

#[test]
fn row_accessors_are_bounds_checked() {
    let store = RowStore::from_text(&cs("ab\ncde"));
    assert_eq!(store.row(1).unwrap(), &cs("cde"));
    assert_eq!(store.row(2), Err(EditError::OutOfBounds));
    assert_eq!(store.row_len(1), Ok(3));
    assert_eq!(store.row_len(7), Err(EditError::OutOfBounds));
    assert!(store.contains(at(1, 3)));
    assert!(!store.contains(at(1, 4)));
    assert!(!store.contains(at(2, 0)));
}

#[test]
fn load_then_save_is_identical() {
    for text in ["", "abc", "abc\n", "a\r\nb\r\n", "\n\n", "one\ntwo\n\nfour", "tab\there\r"] {
        let mut doc = Document::open(&cs(text), false);
        assert_eq!(doc.save(), cs(text));
        assert_eq!(RowStore::from_text(&cs(text)).text(), cs(text));
    }
}

#[test]
fn trailing_terminator_gives_trailing_empty_row() {
    let store = RowStore::from_text(&cs("abc\n"));
    assert_eq!(rows_of(&store), vec!["abc", ""]);
}

#[test]
fn apply_insert_moves_cursor_and_marks_dirty() {
    let mut doc = Document::open(&cs("ab"), false);
    assert!(!doc.dirty);
    let ev = doc.apply(Effect::Insert { at: at(0, 1), text: cs("x\ny"), typed: false }).unwrap();
    assert_eq!(ev.kind, EventKind::Insertion);
    assert_eq!(ev.at, at(0, 1));
    assert_eq!(ev.end, at(1, 1));
    assert_eq!(ev.text, cs("x\ny"));
    assert_eq!(ev.seq, 0);
    assert_eq!(doc.cursor, at(1, 1));
    assert!(doc.dirty);
    assert_eq!(doc.edits, 1);
    assert_eq!(rows_of(&doc.store), vec!["ax", "yb"]);
}

#[test]
fn apply_delete_returns_event_with_removed_text() {
    let mut doc = Document::open(&cs("abc\ndef"), false);
    doc.start_selection();
    let ev = doc.apply(Effect::Delete { start: at(0, 1), end: at(1, 1) }).unwrap();
    assert_eq!(ev.kind, EventKind::Deletion);
    assert_eq!(ev.text, cs("bc\nd"));
    assert_eq!(doc.cursor, at(0, 1));
    assert_eq!(doc.anchor, None);
    assert_eq!(rows_of(&doc.store), vec!["aef"]);
}

#[test]
fn read_only_document_rejects_edits() {
    let mut doc = Document::open(&cs("abc"), true);
    let r = doc.apply(Effect::Insert { at: at(0, 0), text: cs("x"), typed: true });
    assert_eq!(r.unwrap_err(), EditError::ReadOnly);
    let r = doc.apply(Effect::Delete { start: at(0, 0), end: at(0, 1) });
    assert_eq!(r.unwrap_err(), EditError::ReadOnly);
    assert_eq!(rows_of(&doc.store), vec!["abc"]);
    assert!(!doc.dirty);
}

#[test]
fn apply_reports_bounds_and_range_errors() {
    let mut doc = Document::open(&cs("abc"), false);
    let r = doc.apply(Effect::Insert { at: at(3, 0), text: cs("x"), typed: true });
    assert_eq!(r.unwrap_err(), EditError::OutOfBounds);
    let r = doc.apply(Effect::Delete { start: at(0, 2), end: at(0, 1) });
    assert_eq!(r.unwrap_err(), EditError::InvalidRange);
    let r = doc.apply(Effect::Delete { start: at(0, 2), end: at(0, 9) });
    assert_eq!(r.unwrap_err(), EditError::OutOfBounds);
    assert!(!doc.dirty);
}

#[test]
fn cursor_moves_clamp_at_the_edges() {
    let mut doc = Document::open(&cs("abcd\nxy"), false);
    doc.move_left();
    assert_eq!(doc.cursor, at(0, 0));
    doc.move_up();
    assert_eq!(doc.cursor, at(0, 0));
    doc.move_line_end();
    assert_eq!(doc.cursor, at(0, 4));
    doc.move_down();
    assert_eq!(doc.cursor, at(1, 2));
    doc.move_down();
    assert_eq!(doc.cursor, at(1, 2));
    doc.move_right();
    assert_eq!(doc.cursor, at(1, 2));
    doc.move_line_start();
    assert_eq!(doc.cursor, at(1, 0));
    doc.move_left();
    assert_eq!(doc.cursor, at(0, 4));
    doc.move_right();
    assert_eq!(doc.cursor, at(1, 0));
    doc.move_right();
    assert_eq!(doc.cursor, at(1, 1));
    doc.move_up();
    assert_eq!(doc.cursor, at(0, 1));
    doc.move_to(at(9, 9));
    assert_eq!(doc.cursor, at(1, 2));
    doc.move_to(at(0, 9));
    assert_eq!(doc.cursor, at(0, 4));
    assert!(!doc.dirty);
}

#[test]
fn selection_is_normalised_and_collapses_without_edit() {
    let mut doc = Document::open(&cs("abcd\nxy"), false);
    assert_eq!(doc.selection(), None);
    assert!(doc.selection_effect().is_none());
    doc.move_to(at(1, 1));
    doc.start_selection();
    doc.move_to(at(0, 2));
    assert_eq!(doc.selection(), Some((at(0, 2), at(1, 1))));
    match doc.selection_effect() {
        Some(Effect::Delete { start, end }) => {
            assert_eq!(start, at(0, 2));
            assert_eq!(end, at(1, 1));
        }
        other => panic!("{:?}", other),
    }
    doc.collapse_selection();
    assert_eq!(doc.anchor, None);
    assert_eq!(doc.cursor, at(0, 2));
    assert_eq!(rows_of(&doc.store), vec!["abcd", "xy"]);
}

#[test]
fn carriage_returns_before_every_terminator_are_not_row_content() {
    let mut doc = Document::open(&cs("ab\r\ncd\r\n"), false);
    assert_eq!(doc.ending, ox::text::LineEnding::CrLf);
    assert_eq!(rows_of(&doc.store), vec!["ab", "cd", ""]);
    doc.apply(Effect::Insert { at: at(1, 2), text: cs("\nef"), typed: false }).unwrap();
    assert_eq!(doc.save(), cs("ab\r\ncd\r\nef\r\n"));
    assert!(!doc.dirty);
}

#[test]
fn mixed_terminators_keep_their_carriage_returns() {
    let mut doc = Document::open(&cs("ab\r\ncd\nef"), false);
    assert_eq!(doc.ending, ox::text::LineEnding::Lf);
    assert_eq!(rows_of(&doc.store), vec!["ab\r", "cd", "ef"]);
    assert_eq!(doc.save(), cs("ab\r\ncd\nef"));
    let lone = Document::open(&cs("ab\r"), false);
    assert_eq!(lone.ending, ox::text::LineEnding::Lf);
    assert_eq!(rows_of(&lone.store), vec!["ab\r"]);
}

#[test]
fn save_writes_the_chosen_terminator() {
    let store = RowStore::from_text(&cs("a\nb\n"));
    assert_eq!(store.save(ox::text::LineEnding::CrLf), cs("a\r\nb\r\n"));
    assert_eq!(store.save(ox::text::LineEnding::Lf), cs("a\nb\n"));
    assert!(store.is_well_formed());
}

#[test]
fn search_finds_the_first_match_at_or_behind_a_position() {
    let store = RowStore::from_text(&cs("abcabc\nxx\nabc"));
    assert_eq!(store.find_from(&cs("abc"), at(0, 0)), Some(at(0, 0)));
    assert_eq!(store.find_from(&cs("abc"), at(0, 1)), Some(at(0, 3)));
    assert_eq!(store.find_from(&cs("abc"), at(0, 4)), Some(at(2, 0)));
    assert_eq!(store.find_from(&cs("abc"), at(2, 1)), None);
    assert_eq!(store.find_from(&cs("abc"), at(5, 0)), None);
    assert_eq!(store.find_from(&cs("c\nx"), at(0, 0)), None);
    assert_eq!(store.find_from(&cs(""), at(1, 2)), Some(at(1, 2)));
    assert_eq!(store.find_from(&cs(""), at(1, 3)), Some(at(2, 0)));
    assert_eq!(store.find_from(&cs("zz"), at(0, 0)), None);
}

#[test]
fn word_motion_stops_at_word_starts() {
    let mut doc = Document::open(&cs("ab  cd e\nxy"), false);
    doc.move_word_right();
    assert_eq!(doc.cursor, at(0, 4));
    doc.move_word_right();
    assert_eq!(doc.cursor, at(0, 7));
    doc.move_word_right();
    assert_eq!(doc.cursor, at(0, 8));
    doc.move_word_right();
    assert_eq!(doc.cursor, at(1, 0));
    doc.move_word_right();
    assert_eq!(doc.cursor, at(1, 2));
    doc.move_word_right();
    assert_eq!(doc.cursor, at(1, 2));
    doc.move_word_left();
    assert_eq!(doc.cursor, at(1, 0));
    doc.move_word_left();
    assert_eq!(doc.cursor, at(0, 8));
    doc.move_word_left();
    assert_eq!(doc.cursor, at(0, 7));
    doc.move_word_left();
    assert_eq!(doc.cursor, at(0, 4));
    doc.move_word_left();
    assert_eq!(doc.cursor, at(0, 0));
    doc.move_word_left();
    assert_eq!(doc.cursor, at(0, 0));
}

#[test]
fn render_width_expands_tabs_to_the_next_stop() {
    let row = cs("a\tbc\t\td");
    assert_eq!(ox::render::render_width(&row, 0, 4), 0);
    assert_eq!(ox::render::render_width(&row, 1, 4), 1);
    assert_eq!(ox::render::render_width(&row, 2, 4), 4);
    assert_eq!(ox::render::render_width(&row, 4, 4), 6);
    assert_eq!(ox::render::render_width(&row, 5, 4), 8);
    assert_eq!(ox::render::render_width(&row, 6, 4), 12);
    assert_eq!(ox::render::render_width(&row, 7, 4), 13);
    assert_eq!(ox::render::render_width(&row, 7, 1), 7);
    assert_eq!(ox::render::render_width(&row, 7, 0), 4);
}

#[test]
fn events_name_the_rows_to_highlight_anew() {
    let mut doc = Document::open(&cs("abc\ndef\nghi"), false);
    let ev = doc.apply(Effect::Insert { at: at(1, 1), text: cs("1\n2\n3"), typed: false }).unwrap();
    assert_eq!(ev.dirty_rows(false), (1, 3));
    assert_eq!(ev.dirty_rows(true), (1, 1));
    let ev = doc.apply(Effect::Delete { start: at(0, 2), end: at(2, 0) }).unwrap();
    assert_eq!(ev.dirty_rows(false), (0, 0));
    assert_eq!(ev.dirty_rows(true), (0, 2));
}

#[test]
fn window_scrolls_no_further_than_needed() {
    assert_eq!(scroll_to(0, 10, 3), 0);
    assert_eq!(scroll_to(0, 10, 9), 0);
    assert_eq!(scroll_to(0, 10, 10), 1);
    assert_eq!(scroll_to(5, 10, 2), 2);
    assert_eq!(scroll_to(5, 10, 30), 21);
    assert_eq!(scroll_to(5, 0, 7), 7);
}

#[test]
fn cursor_screen_column_counts_tab_stops() {
    let mut doc = Document::open(&cs("\tab\tc"), false);
    assert_eq!(doc.path, None);
    doc.set_path(cs("notes.txt"));
    assert_eq!(doc.path, Some(cs("notes.txt")));
    doc.move_to(at(0, 4));
    assert_eq!(doc.screen_column(4), 8);
    doc.move_to(at(0, 1));
    assert_eq!(doc.screen_column(8), 8);
    assert!(doc.is_well_formed());
}

#[test]
fn find_next_goes_on_behind_the_cursor_and_wraps() {
    let mut doc = Document::open(&cs("abc abc\nabc"), false);
    assert_eq!(doc.find_next(&cs("abc")), Some(at(0, 4)));
    doc.move_to(at(0, 4));
    assert_eq!(doc.find_next(&cs("abc")), Some(at(1, 0)));
    doc.move_to(at(1, 0));
    assert_eq!(doc.find_next(&cs("abc")), Some(at(0, 0)));
    assert_eq!(doc.find_next(&cs("abd")), None);
}
