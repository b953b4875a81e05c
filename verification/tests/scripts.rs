use ox::config::{config_path, config_path_or_default, file_target};
use ox::document::Document;
use ox::interp::{execute, perform, plan, run_line, step_script, Machine, Outcome, Plan};
use ox::row_store::{EditError, Position};
use ox::script::{op_of_name, parse_arg, parse_line, parse_number, tokenize, Arg, Op, Token, Value};
use ox::undo::UndoEngine;
use ox::vars::{resolve, VarTable};

fn line(s: &str) -> Vec<char> {
    s.chars().collect()
}

fn buffer(doc: &Document) -> String {
    doc.store.text().iter().collect()
}

fn session(text: &str) -> (Document, UndoEngine, VarTable) {
    (Document::open(&line(text), false), UndoEngine::new(100, 64), VarTable::new())
}

#[test]
fn tokenize_splits_on_spaces_commas_and_tabs() {
    let toks = tokenize(&line("  move 1,2\t 3 ")).unwrap();
    let words: Vec<String> = toks.iter().map(|t| t.text.iter().collect()).collect();
    assert_eq!(words, vec!["move", "1", "2", "3"]);
    assert!(toks.iter().all(|t| !t.quoted));
}

#[test]
fn tokenize_keeps_delimiters_inside_quotes() {
    let toks = tokenize(&line("insert \"a, b\" \"\"")).unwrap();
    assert_eq!(toks.len(), 3);
    assert_eq!(toks[1].text, line("a, b"));
    assert!(toks[1].quoted);
    assert_eq!(toks[2].text, line(""));
    assert!(toks[2].quoted);
}

#[test]
fn tokenize_rejects_open_and_misplaced_quotes() {
    assert_eq!(tokenize(&line("insert \"abc")).unwrap_err(), EditError::ArgumentError);
    assert_eq!(tokenize(&line("insert ab\"c\"")).unwrap_err(), EditError::ArgumentError);
    assert_eq!(tokenize(&line("")).unwrap().len(), 0);
}

#[test]
fn numbers_parse_to_exact_values() {
    assert_eq!(parse_number(&line("0")), Some(0));
    assert_eq!(parse_number(&line("007")), Some(7));
    assert_eq!(parse_number(&line("1234")), Some(1234));
    assert_eq!(parse_number(&line("-12")), Some(-12));
    assert_eq!(parse_number(&line("9223372036854775807")), Some(i64::MAX));
    assert_eq!(parse_number(&line("-9223372036854775807")), Some(-i64::MAX));
    assert_eq!(parse_number(&line("9223372036854775808")), None);
    assert_eq!(parse_number(&line("99999999999999999999999")), None);
    assert_eq!(parse_number(&line("")), None);
    assert_eq!(parse_number(&line("-")), None);
    assert_eq!(parse_number(&line("12a")), None);
    assert_eq!(parse_number(&line("1-2")), None);
}

#[test]
fn words_become_arguments() {
    let tok = |s: &str, quoted: bool| Token { text: line(s), quoted };
    assert!(matches!(parse_arg(&tok("5", false)), Some(Arg::Lit(Value::Num(5)))));
    assert!(matches!(parse_arg(&tok("true", false)), Some(Arg::Lit(Value::Bool(true)))));
    assert!(matches!(parse_arg(&tok("false", false)), Some(Arg::Lit(Value::Bool(false)))));
    match parse_arg(&tok("true", true)) {
        Some(Arg::Lit(Value::Str(s))) => assert_eq!(s, line("true")),
        other => panic!("{:?}", other),
    }
    match parse_arg(&tok("$name", false)) {
        Some(Arg::Var(n)) => assert_eq!(n, line("name")),
        other => panic!("{:?}", other),
    }
    assert!(parse_arg(&tok("$", false)).is_none());
    assert!(parse_arg(&tok("word", false)).is_none());
}

#[test]
fn operation_names_are_a_closed_set() {
    assert_eq!(op_of_name(&line("left")), Some(Op::Left));
    assert_eq!(op_of_name(&line("insert")), Some(Op::Insert));
    assert_eq!(op_of_name(&line("set")), Some(Op::Assign));
    assert_eq!(op_of_name(&line("goto")), Some(Op::Jump));
    assert_eq!(op_of_name(&line("run")), Some(Op::Run));
    assert_eq!(op_of_name(&line("Left")), None);
    assert_eq!(op_of_name(&line("lef")), None);
    assert_eq!(op_of_name(&line("")), None);
}

#[test]
fn blank_and_comment_lines_are_ignored() {
    assert!(parse_line(&line("")).unwrap().is_none());
    assert!(parse_line(&line("   \t ")).unwrap().is_none());
    assert!(parse_line(&line("# a \"comment")).unwrap().is_none());
    assert!(parse_line(&line("   # indented")).unwrap().is_none());
}

#[test]
fn parse_line_reports_unknown_commands_and_bad_arguments() {
    assert_eq!(parse_line(&line("frobnicate 1")).unwrap_err(), EditError::UnknownCommand);
    assert_eq!(parse_line(&line("\"insert\" \"x\"")).unwrap_err(), EditError::UnknownCommand);
    assert_eq!(parse_line(&line("insert")).unwrap_err(), EditError::ArgumentError);
    assert_eq!(parse_line(&line("left 1")).unwrap_err(), EditError::ArgumentError);
    assert_eq!(parse_line(&line("move 1 word")).unwrap_err(), EditError::ArgumentError);
    assert_eq!(parse_line(&line("set 5 5")).unwrap_err(), EditError::ArgumentError);
    assert_eq!(parse_line(&line("insert \"abc")).unwrap_err(), EditError::ArgumentError);
    let cmd = parse_line(&line("delete 0, 1, $r, 1")).unwrap().unwrap();
    assert_eq!(cmd.op, Op::Delete);
    assert_eq!(cmd.args.len(), 4);
    assert!(matches!(cmd.args[2], Arg::Var(_)));
}

#[test]
fn set_then_reference_resolves_to_the_value() {
    let (mut doc, mut history, mut vars) = session("");
    let r = run_line(&line("set $x 5"), &mut doc, &mut history, &mut vars);
    assert!(matches!(r, Ok(Outcome::Done)));
    assert!(matches!(vars.get(&line("x")), Some(Value::Num(5))));
    let cmd = parse_line(&line("goto $x")).unwrap().unwrap();
    assert!(matches!(resolve(&cmd.args[0], &vars), Ok(Value::Num(5))));
    assert!(matches!(plan(&cmd, &vars), Ok(Plan::Jump(5))));
    let r = execute(&cmd, &mut doc, &mut history, &mut vars);
    assert!(matches!(r, Ok(Outcome::Jump(5))));
}

#[test]
fn unset_variable_is_undefined() {
    let (mut doc, mut history, mut vars) = session("abc");
    let r = run_line(&line("goto $y"), &mut doc, &mut history, &mut vars);
    assert_eq!(r.unwrap_err(), EditError::UndefinedVariable);
    let r = run_line(&line("insert $text"), &mut doc, &mut history, &mut vars);
    assert_eq!(r.unwrap_err(), EditError::UndefinedVariable);
    assert!(vars.get(&line("y")).is_none());
    assert_eq!(buffer(&doc), "abc");
}

#[test]
fn variables_bind_late_and_can_be_set_again() {
    let (mut doc, mut history, mut vars) = session("");
    let cmd = parse_line(&line("insert $greeting")).unwrap().unwrap();
    assert_eq!(
        execute(&cmd, &mut doc, &mut history, &mut vars).unwrap_err(),
        EditError::UndefinedVariable
    );
    run_line(&line("set $greeting \"hi\""), &mut doc, &mut history, &mut vars).unwrap();
    assert!(matches!(execute(&cmd, &mut doc, &mut history, &mut vars), Ok(Outcome::Done)));
    run_line(&line("set $greeting \" you\""), &mut doc, &mut history, &mut vars).unwrap();
    run_line(&line("set $other 1"), &mut doc, &mut history, &mut vars).unwrap();
    assert!(matches!(execute(&cmd, &mut doc, &mut history, &mut vars), Ok(Outcome::Done)));
    assert_eq!(buffer(&doc), "hi you");
    assert!(matches!(vars.get(&line("other")), Some(Value::Num(1))));
    run_line(&line("set $copy $greeting"), &mut doc, &mut history, &mut vars).unwrap();
    match vars.get(&line("copy")) {
        Some(Value::Str(s)) => assert_eq!(s, line(" you")),
        other => panic!("{:?}", other),
    }
}

#[test]
fn wrong_argument_types_are_argument_errors() {
    let (mut doc, mut history, mut vars) = session("abc");
    for l in ["insert 5", "goto \"x\"", "move 1 true", "if 1 2", "goto -1", "open true"] {
        let r = run_line(&line(l), &mut doc, &mut history, &mut vars);
        assert_eq!(r.unwrap_err(), EditError::ArgumentError, "{}", l);
    }
    assert_eq!(buffer(&doc), "abc");
    assert_eq!(history.undo_len(), 0);
}

#[test]
fn commands_edit_and_record() {
    let (mut doc, mut history, mut vars) = session("abc\ndef");
    run_line(&line("move 0 1"), &mut doc, &mut history, &mut vars).unwrap();
    run_line(&line("insert \"XY\""), &mut doc, &mut history, &mut vars).unwrap();
    assert_eq!(buffer(&doc), "aXYbc\ndef");
    assert_eq!(doc.cursor, Position { row: 0, col: 3 });
    run_line(&line("delete 0 1 1 1"), &mut doc, &mut history, &mut vars).unwrap();
    assert_eq!(buffer(&doc), "aef");
    assert_eq!(history.undo_len(), 2);
    run_line(&line("undo"), &mut doc, &mut history, &mut vars).unwrap();
    assert_eq!(buffer(&doc), "aXYbc\ndef");
    run_line(&line("undo"), &mut doc, &mut history, &mut vars).unwrap();
    assert_eq!(buffer(&doc), "abc\ndef");
    let r = run_line(&line("undo"), &mut doc, &mut history, &mut vars);
    assert_eq!(r.unwrap_err(), EditError::NothingToUndo);
    run_line(&line("redo"), &mut doc, &mut history, &mut vars).unwrap();
    run_line(&line("redo"), &mut doc, &mut history, &mut vars).unwrap();
    assert_eq!(buffer(&doc), "aef");
    let r = run_line(&line("redo"), &mut doc, &mut history, &mut vars);
    assert_eq!(r.unwrap_err(), EditError::NothingToRedo);
}

#[test]
fn typed_commands_coalesce() {
    let (mut doc, mut history, mut vars) = session("");
    for c in ["h", "e", "l", "l", "o"] {
        let l = format!("insert \"{}\"", c);
        run_line(&line(&l), &mut doc, &mut history, &mut vars).unwrap();
    }
    assert_eq!(history.undo_len(), 1);
    run_line(&line("undo"), &mut doc, &mut history, &mut vars).unwrap();
    assert_eq!(buffer(&doc), "");
}

#[test]
fn cursor_commands_move_without_editing() {
    let (mut doc, mut history, mut vars) = session("abcd\nxy");
    for (l, row, col) in [
        ("end", 0, 4),
        ("down", 1, 2),
        ("home", 1, 0),
        ("left", 0, 4),
        ("right", 1, 0),
        ("up", 0, 0),
        ("word_right", 0, 4),
        ("word_left", 0, 0),
        ("move 7 7", 1, 2),
    ] {
        let r = run_line(&line(l), &mut doc, &mut history, &mut vars);
        assert!(matches!(r, Ok(Outcome::Done)));
        assert_eq!(doc.cursor, Position { row, col }, "{}", l);
    }
    assert!(!doc.dirty);
    assert_eq!(history.undo_len(), 0);
}

#[test]
fn editor_level_effects_are_handed_back() {
    let (mut doc, mut history, mut vars) = session("abc");
    assert!(matches!(run_line(&line("quit"), &mut doc, &mut history, &mut vars), Ok(Outcome::Quit)));
    assert!(matches!(run_line(&line("save"), &mut doc, &mut history, &mut vars), Ok(Outcome::Save)));
    match run_line(&line("open \"a b.txt\""), &mut doc, &mut history, &mut vars) {
        Ok(Outcome::Open(p)) => assert_eq!(p, line("a b.txt")),
        other => panic!("{:?}", other),
    }
    match run_line(&line("search \"needle\""), &mut doc, &mut history, &mut vars) {
        Ok(Outcome::Search(p)) => assert_eq!(p, line("needle")),
        other => panic!("{:?}", other),
    }
    match run_line(&line("run \"macro\""), &mut doc, &mut history, &mut vars) {
        Ok(Outcome::Run(p)) => assert_eq!(p, line("macro")),
        other => panic!("{:?}", other),
    }
    assert!(matches!(
        run_line(&line("if true 3"), &mut doc, &mut history, &mut vars),
        Ok(Outcome::Jump(3))
    ));
    assert!(matches!(
        run_line(&line("if false 3"), &mut doc, &mut history, &mut vars),
        Ok(Outcome::Done)
    ));
    assert_eq!(buffer(&doc), "abc");
}

#[test]
fn read_only_document_refuses_script_edits() {
    let mut doc = Document::open(&line("abc"), true);
    let mut history = UndoEngine::new(10, 10);
    let mut vars = VarTable::new();
    let r = perform(Plan::Insert(line("x")), &mut doc, &mut history, &mut vars);
    assert_eq!(r.unwrap_err(), EditError::ReadOnly);
    assert_eq!(history.undo_len(), 0);
    assert_eq!(buffer(&doc), "abc");
}

#[test]
fn nested_scripts_stop_at_the_limit() {
    let mut m = Machine::new(2);
    assert_eq!(m.current(), None);
    assert_eq!(m.enter(), Ok(()));
    assert_eq!(m.enter(), Ok(()));
    assert_eq!(m.enter(), Err(EditError::RecursionLimit));
    assert_eq!(m.depth(), 2);
    assert_eq!(m.current(), Some(0));
}

#[test]
fn instruction_pointer_steps_jumps_and_ends() {
    let mut m = Machine::new(4);
    m.advance(None, 3);
    assert_eq!(m.depth(), 0);
    m.enter().unwrap();
    m.advance(None, 3);
    assert_eq!(m.current(), Some(1));
    m.enter().unwrap();
    m.advance(Some(2), 3);
    assert_eq!(m.current(), Some(2));
    m.advance(None, 3);
    assert_eq!(m.depth(), 1);
    assert_eq!(m.current(), Some(1));
    m.advance(Some(0), 3);
    assert_eq!(m.current(), Some(0));
    m.advance(Some(3), 3);
    assert_eq!(m.depth(), 0);
}

#[test]
fn config_file_lies_under_the_config_directory() {
    assert_eq!(config_path("/home/me/.config"), "/home/me/.config/ox/ox.ron");
    assert_eq!(config_path_or_default(Some("/etc")), "/etc/ox/ox.ron");
    assert_eq!(config_path_or_default(None), "~/.config/ox/ox.ron");
}

#[test]
fn inserting_over_a_selection_replaces_it() {
    let (mut doc, mut history, mut vars) = session("hello world");
    doc.move_to(Position { row: 0, col: 5 });
    doc.start_selection();
    doc.move_to(Position { row: 0, col: 0 });
    run_line(&line("insert \"bye\""), &mut doc, &mut history, &mut vars).unwrap();
    assert_eq!(buffer(&doc), "bye world");
    assert_eq!(doc.anchor, None);
    assert_eq!(history.undo_len(), 1);
    run_line(&line("undo"), &mut doc, &mut history, &mut vars).unwrap();
    assert_eq!(buffer(&doc), "hello world");
}

#[test]
fn file_arguments_may_name_a_line() {
    assert_eq!(file_target(&line("file.txt:100")), (line("file.txt"), Some(100)));
    assert_eq!(file_target(&line("file.txt")), (line("file.txt"), None));
    assert_eq!(file_target(&line("a:b")), (line("a:b"), None));
    assert_eq!(file_target(&line("a:")), (line("a:"), None));
    assert_eq!(file_target(&line("a:-1")), (line("a:-1"), None));
    assert_eq!(file_target(&line("a:1:2")), (line("a:1"), Some(2)));
    assert_eq!(file_target(&line(":7")), (line(""), Some(7)));
    assert_eq!(file_target(&line("")), (line(""), None));
}

#[test]
fn scripts_run_line_by_line_and_follow_jumps() {
    let (mut doc, mut history, mut vars) = session("");
    let script: Vec<Vec<char>> = [
        "set $go true",
        "# skip the next line",
        "if $go 4",
        "insert \"never\"",
        "insert \"a\"",
        "frobnicate",
        "insert \"unreached\"",
    ]
    .iter()
    .map(|l| line(l))
    .collect();
    let mut m = Machine::new(4);
    assert!(step_script(&script, &mut m, &mut doc, &mut history, &mut vars).is_none());
    m.enter().unwrap();
    assert!(matches!(
        step_script(&script, &mut m, &mut doc, &mut history, &mut vars),
        Some(Ok(Outcome::Done))
    ));
    assert_eq!(m.current(), Some(1));
    assert!(matches!(
        step_script(&script, &mut m, &mut doc, &mut history, &mut vars),
        Some(Ok(Outcome::Done))
    ));
    assert!(matches!(
        step_script(&script, &mut m, &mut doc, &mut history, &mut vars),
        Some(Ok(Outcome::Jump(4)))
    ));
    assert_eq!(m.current(), Some(4));
    assert!(matches!(
        step_script(&script, &mut m, &mut doc, &mut history, &mut vars),
        Some(Ok(Outcome::Done))
    ));
    assert_eq!(buffer(&doc), "a");
    assert_eq!(m.current(), Some(5));
    match step_script(&script, &mut m, &mut doc, &mut history, &mut vars) {
        Some(Err(e)) => assert_eq!(e, EditError::UnknownCommand),
        other => panic!("{:?}", other),
    }
    assert_eq!(m.depth(), 0);
    assert_eq!(buffer(&doc), "a");
    m.enter().unwrap();
    m.advance(Some(6), 7);
    assert!(step_script(&script, &mut m, &mut doc, &mut history, &mut vars).is_some());
    assert_eq!(m.depth(), 0);
    assert_eq!(buffer(&doc), "aunreached");
}
