use ox::document::{Document, Effect};
use ox::event::{Event, EventKind};
use ox::row_store::{EditError, Position};
use ox::undo::UndoEngine;

fn text_of(s: &str) -> Vec<char> {
    s.chars().collect()
}

fn content(doc: &Document) -> String {
    doc.store.text().iter().collect()
}

fn pos(row: usize, col: usize) -> Position {
    Position { row, col }
}

fn type_char(doc: &mut Document, history: &mut UndoEngine, c: char) {
    let at = doc.cursor;
    let ev = doc.apply(Effect::Insert { at, text: vec![c], typed: true }).unwrap();
    history.record(ev);
}

#[test]
fn typing_hello_is_one_event_and_one_undo() {
    let mut doc = Document::new();
    let mut history = UndoEngine::new(100, 64);
    for c in "hello".chars() {
        type_char(&mut doc, &mut history, c);
    }
    assert_eq!(content(&doc), "hello");
    assert_eq!(history.undo_len(), 1);
    assert_eq!(history.undo[0].text, text_of("hello"));
    assert_eq!(history.undo[0].at, pos(0, 0));
    assert_eq!(history.undo[0].end, pos(0, 5));
    assert_eq!(history.undo(&mut doc), Ok(()));
    assert_eq!(content(&doc), "");
    assert_eq!(doc.cursor, pos(0, 0));
    assert_eq!(history.undo_len(), 0);
    assert_eq!(history.redo_len(), 1);
    assert_eq!(history.redo(&mut doc), Ok(()));
    assert_eq!(content(&doc), "hello");
    assert_eq!(doc.cursor, pos(0, 5));
}

#[test]
fn a_space_starts_a_new_event() {
    let mut doc = Document::new();
    let mut history = UndoEngine::new(100, 64);
    for c in "hi you".chars() {
        type_char(&mut doc, &mut history, c);
    }
    assert_eq!(history.undo_len(), 2);
    assert_eq!(history.undo[0].text, text_of("hi"));
    assert_eq!(history.undo[1].text, text_of(" you"));
    assert_eq!(history.undo(&mut doc), Ok(()));
    assert_eq!(content(&doc), "hi");
}

#[test]
fn merge_limit_bounds_an_event() {
    let mut doc = Document::new();
    let mut history = UndoEngine::new(100, 3);
    for c in "abcdefg".chars() {
        type_char(&mut doc, &mut history, c);
    }
    assert_eq!(history.undo_len(), 3);
    assert_eq!(history.undo[0].text, text_of("abc"));
    assert_eq!(history.undo[1].text, text_of("def"));
    assert_eq!(history.undo[2].text, text_of("g"));
}

#[test]
fn a_cursor_jump_starts_a_new_event() {
    let mut doc = Document::new();
    let mut history = UndoEngine::new(100, 64);
    type_char(&mut doc, &mut history, 'a');
    type_char(&mut doc, &mut history, 'b');
    doc.move_left();
    type_char(&mut doc, &mut history, 'c');
    assert_eq!(content(&doc), "acb");
    assert_eq!(history.undo_len(), 2);
}

#[test]
fn bulk_and_terminator_insertions_do_not_merge() {
    let mut doc = Document::new();
    let mut history = UndoEngine::new(100, 64);
    type_char(&mut doc, &mut history, 'a');
    type_char(&mut doc, &mut history, '\n');
    type_char(&mut doc, &mut history, 'b');
    let at = doc.cursor;
    let ev = doc.apply(Effect::Insert { at, text: vec!['c'], typed: false }).unwrap();
    history.record(ev);
    assert_eq!(content(&doc), "a\nbc");
    assert_eq!(history.undo_len(), 4);
}

#[test]
fn undo_all_then_redo_all_restores_both_states() {
    let initial = "abc\ndef\nghi";
    let mut doc = Document::open(&text_of(initial), false);
    let mut history = UndoEngine::new(100, 64);
    let effects = vec![
        Effect::Insert { at: pos(1, 1), text: text_of("X\nY"), typed: false },
        Effect::Delete { start: pos(0, 2), end: pos(2, 1) },
        Effect::Insert { at: pos(0, 0), text: text_of("\n\n"), typed: false },
        Effect::Delete { start: pos(2, 0), end: pos(3, 3) },
        Effect::Insert { at: pos(2, 0), text: text_of("tail"), typed: false },
    ];
    let n = effects.len();
    for e in effects {
        let ev = doc.apply(e).unwrap();
        history.record(ev);
    }
    let edited = content(&doc);
    assert_eq!(edited, "\n\ntail");
    assert_eq!(history.undo_len(), n);
    for _ in 0..n {
        assert_eq!(history.undo(&mut doc), Ok(()));
    }
    assert_eq!(content(&doc), initial);
    assert_eq!(history.undo(&mut doc), Err(EditError::NothingToUndo));
    for _ in 0..n {
        assert_eq!(history.redo(&mut doc), Ok(()));
    }
    assert_eq!(content(&doc), edited);
    assert_eq!(history.redo(&mut doc), Err(EditError::NothingToRedo));
}

#[test]
fn new_insertion_clears_redo() {
    let mut doc = Document::new();
    let mut history = UndoEngine::new(100, 64);
    let ev = doc.apply(Effect::Insert { at: pos(0, 0), text: text_of("abc"), typed: false }).unwrap();
    history.record(ev);
    assert_eq!(history.undo(&mut doc), Ok(()));
    assert_eq!(history.redo_len(), 1);
    let ev = doc.apply(Effect::Insert { at: pos(0, 0), text: text_of("z"), typed: false }).unwrap();
    history.record(ev);
    assert_eq!(history.redo_len(), 0);
    assert_eq!(history.redo(&mut doc), Err(EditError::NothingToRedo));
    assert_eq!(content(&doc), "z");
}

#[test]
fn empty_history_reports_nothing_to_undo_or_redo() {
    let mut doc = Document::open(&text_of("abc"), false);
    let mut history = UndoEngine::new(10, 10);
    assert_eq!(history.undo(&mut doc), Err(EditError::NothingToUndo));
    assert_eq!(history.redo(&mut doc), Err(EditError::NothingToRedo));
    assert_eq!(content(&doc), "abc");
}

#[test]
fn cap_discards_the_oldest_event() {
    let mut doc = Document::new();
    let mut history = UndoEngine::new(2, 64);
    for t in ["one", "two", "three"] {
        let at = doc.cursor;
        let ev = doc.apply(Effect::Insert { at, text: text_of(t), typed: false }).unwrap();
        history.record(ev);
    }
    assert_eq!(history.undo_len(), 2);
    assert_eq!(history.undo[0].text, text_of("two"));
    assert_eq!(history.undo[1].text, text_of("three"));
    assert_eq!(history.undo(&mut doc), Ok(()));
    assert_eq!(history.undo(&mut doc), Ok(()));
    assert_eq!(history.undo(&mut doc), Err(EditError::NothingToUndo));
    assert_eq!(content(&doc), "one");
}

#[test]
fn undo_of_a_deletion_puts_the_text_back() {
    let mut doc = Document::open(&text_of("abc\ndef"), false);
    let mut history = UndoEngine::new(10, 10);
    let ev = doc.apply(Effect::Delete { start: pos(0, 1), end: pos(1, 1) }).unwrap();
    history.record(ev);
    assert_eq!(content(&doc), "aef");
    assert_eq!(history.undo(&mut doc), Ok(()));
    assert_eq!(content(&doc), "abc\ndef");
    assert_eq!(doc.cursor, pos(1, 1));
}

#[test]
fn undo_on_a_read_only_document_is_refused() {
    let mut doc = Document::open(&text_of("abc"), false);
    let mut history = UndoEngine::new(10, 10);
    let ev = doc.apply(Effect::Insert { at: pos(0, 3), text: text_of("d"), typed: false }).unwrap();
    history.record(ev);
    doc.read_only = true;
    assert_eq!(history.undo(&mut doc), Err(EditError::ReadOnly));
    assert_eq!(history.undo_len(), 1);
    assert_eq!(content(&doc), "abcd");
}

#[test]
fn an_event_that_does_not_fit_is_refused_and_kept() {
    let mut doc = Document::open(&text_of("abc"), false);
    let mut history = UndoEngine::new(10, 10);
    history.record(Event {
        kind: EventKind::Insertion,
        at: pos(0, 1),
        end: pos(4, 0),
        text: text_of("zz"),
        old_end: pos(0, 1),
        removed: Vec::new(),
        seq: 0,
        typed: false,
    });
    assert_eq!(history.undo(&mut doc), Err(EditError::OutOfBounds));
    assert_eq!(history.undo_len(), 1);
    history.record(Event {
        kind: EventKind::Insertion,
        at: pos(0, 2),
        end: pos(0, 1),
        text: text_of("z"),
        old_end: pos(0, 2),
        removed: Vec::new(),
        seq: 1,
        typed: false,
    });
    assert_eq!(history.undo(&mut doc), Err(EditError::InvalidRange));
    assert_eq!(content(&doc), "abc");
}

#[test]
fn replacing_a_range_is_one_event() {
    let mut doc = Document::open(&text_of("abc\ndef\nghi"), false);
    let mut history = UndoEngine::new(10, 10);
    let ev = doc
        .apply(Effect::Replace { start: pos(0, 1), end: pos(1, 2), text: text_of("X\nY\nZ") })
        .unwrap();
    assert_eq!(ev.kind, EventKind::Replacement);
    assert_eq!(ev.removed, text_of("bc\nde"));
    assert_eq!(ev.old_end, pos(1, 2));
    assert_eq!(ev.end, pos(2, 1));
    assert_eq!(ev.dirty_rows(false), (0, 2));
    assert_eq!(ev.dirty_rows(true), (0, 1));
    history.record(ev);
    assert_eq!(content(&doc), "aX\nY\nZf\nghi");
    assert_eq!(doc.cursor, pos(2, 1));
    assert_eq!(history.undo(&mut doc), Ok(()));
    assert_eq!(content(&doc), "abc\ndef\nghi");
    assert_eq!(doc.cursor, pos(1, 2));
    assert_eq!(history.redo(&mut doc), Ok(()));
    assert_eq!(content(&doc), "aX\nY\nZf\nghi");
    assert_eq!(doc.cursor, pos(2, 1));
    let r = doc.apply(Effect::Replace { start: pos(1, 0), end: pos(0, 0), text: text_of("q") });
    assert_eq!(r.unwrap_err(), EditError::InvalidRange);
    let r = doc.apply(Effect::Replace { start: pos(1, 0), end: pos(9, 0), text: text_of("q") });
    assert_eq!(r.unwrap_err(), EditError::OutOfBounds);
    assert_eq!(content(&doc), "aX\nY\nZf\nghi");
}
