use nezumi_ai_core::cli::db::candidate_file_name;
use nezumi_ai_core::cli::tui::{
    chat_view_start, commit_int_field, field_kind, handle_key, position_of, reselect,
    int_field_value, step_int_field, wrap_words, FieldKind, Focus, KeyInput, KeyPress, Mode, Screen, TuiAction,
    TuiState,
};

fn key(k: KeyInput) -> KeyPress {
    KeyPress { key: k, ctrl: false, shift: false }
}

fn ch(c: char) -> KeyPress {
    key(KeyInput::Char(c))
}

#[test]
fn list_navigation_stays_in_range() {
    let mut s = TuiState::new(2);
    assert_eq!(s.selected, Some(0));
    assert!(matches!(handle_key(&mut s, key(KeyInput::Up), 2, true), TuiAction::Nothing));
    assert_eq!(s.selected, Some(0));
    handle_key(&mut s, key(KeyInput::Down), 2, true);
    assert_eq!(s.selected, Some(1));
    handle_key(&mut s, ch('j'), 2, true);
    assert_eq!(s.selected, Some(1));
    handle_key(&mut s, ch('k'), 2, true);
    assert_eq!(s.selected, Some(0));
    assert!(TuiState::new(0).selected.is_none());
}

#[test]
fn settings_pane_steps_and_edits() {
    let mut s = TuiState::new(1);
    handle_key(&mut s, key(KeyInput::Tab), 1, true);
    assert_eq!(s.focus, Focus::Settings);
    for _ in 0..10 {
        handle_key(&mut s, key(KeyInput::Down), 1, true);
    }
    assert_eq!(s.field_sel, 4);
    handle_key(&mut s, ch('k'), 1, true);
    assert_eq!(s.field_sel, 3);
    match handle_key(&mut s, KeyPress { key: KeyInput::Left, ctrl: false, shift: true }, 1, true) {
        TuiAction::StepField { field, dir, fine } => assert_eq!((field, dir, fine), (3, -1, true)),
        _ => panic!("expected a step"),
    }
    assert!(matches!(handle_key(&mut s, key(KeyInput::Enter), 1, true), TuiAction::BeginEdit(3)));
    assert_eq!(s.mode, Mode::Editing);
    s.edit_buf = "5".to_string();
    handle_key(&mut s, ch('0'), 1, true);
    handle_key(&mut s, key(KeyInput::Backspace), 1, true);
    handle_key(&mut s, ch('1'), 1, true);
    match handle_key(&mut s, key(KeyInput::Enter), 1, true) {
        TuiAction::CommitEdit { field, text } => assert_eq!((field, text.as_str()), (3, "51")),
        _ => panic!("expected a commit"),
    }
    assert_eq!(s.mode, Mode::Normal);
    assert!(s.edit_buf.is_empty());
    // Without a model nothing is edited, and Left/Right do nothing in the list.
    assert!(matches!(handle_key(&mut s, key(KeyInput::Enter), 1, false), TuiAction::Nothing));
    handle_key(&mut s, key(KeyInput::Tab), 1, true);
    assert!(matches!(handle_key(&mut s, key(KeyInput::Right), 1, true), TuiAction::Nothing));
    assert!(matches!(handle_key(&mut s, key(KeyInput::Enter), 1, true), TuiAction::LoadSelected));
}

#[test]
fn import_dialog_flow() {
    let mut s = TuiState::new(0);
    handle_key(&mut s, ch('i'), 0, false);
    assert_eq!(s.mode, Mode::ImportPath);
    assert!(matches!(handle_key(&mut s, key(KeyInput::Enter), 0, false), TuiAction::Nothing));
    for c in "a.gguf".chars() {
        handle_key(&mut s, ch(c), 0, false);
    }
    assert!(matches!(handle_key(&mut s, key(KeyInput::Enter), 0, false), TuiAction::ProposeName));
    assert_eq!(s.mode, Mode::ImportName);
    assert_eq!(s.import_path, "a.gguf");
    s.edit_buf = "a".to_string();
    match handle_key(&mut s, key(KeyInput::Enter), 0, false) {
        TuiAction::Import { name, path } => assert_eq!((name.as_str(), path.as_str()), ("a", "a.gguf")),
        _ => panic!("expected an import"),
    }
    assert_eq!(s.mode, Mode::Normal);
    assert!(s.edit_buf.is_empty() && s.import_path.is_empty());
    handle_key(&mut s, ch('I'), 0, false);
    handle_key(&mut s, ch('x'), 0, false);
    handle_key(&mut s, key(KeyInput::Esc), 0, false);
    assert_eq!(s.mode, Mode::Normal);
    assert!(s.edit_buf.is_empty());
}

#[test]
fn remove_needs_confirmation() {
    let mut s = TuiState::new(3);
    handle_key(&mut s, key(KeyInput::Down), 3, true);
    assert!(matches!(handle_key(&mut s, ch('d'), 3, false), TuiAction::Nothing));
    assert_eq!(s.mode, Mode::Normal);
    handle_key(&mut s, ch('d'), 3, true);
    assert!(matches!(s.mode, Mode::Confirm(_)));
    assert!(matches!(handle_key(&mut s, ch('x'), 3, true), TuiAction::Nothing));
    assert!(matches!(handle_key(&mut s, ch('n'), 3, true), TuiAction::Nothing));
    assert_eq!(s.mode, Mode::Normal);
    handle_key(&mut s, ch('D'), 3, true);
    assert!(matches!(handle_key(&mut s, ch('y'), 3, true), TuiAction::RemoveAt(1)));
    assert_eq!(s.mode, Mode::Normal);
}

#[test]
fn chat_screen_keys() {
    let mut s = TuiState::new(1);
    s.screen = Screen::Chat;
    for c in " hi ".chars() {
        handle_key(&mut s, ch(c), 1, true);
    }
    handle_key(&mut s, key(KeyInput::PageUp), 1, true);
    handle_key(&mut s, key(KeyInput::Up), 1, true);
    assert_eq!(s.chat_scroll, 6);
    handle_key(&mut s, key(KeyInput::PageDown), 1, true);
    handle_key(&mut s, key(KeyInput::PageDown), 1, true);
    assert_eq!(s.chat_scroll, 0);
    assert!(matches!(handle_key(&mut s, ch('q'), 1, true), TuiAction::Nothing));
    handle_key(&mut s, key(KeyInput::Backspace), 1, true);
    match handle_key(&mut s, key(KeyInput::Enter), 1, true) {
        TuiAction::SendChat(t) => assert_eq!(t, "hi"),
        _ => panic!("expected a message"),
    }
    assert!(s.chat_input.is_empty());
    assert!(matches!(handle_key(&mut s, key(KeyInput::Enter), 1, true), TuiAction::Nothing));
    let ctrl_c = KeyPress { key: KeyInput::Char('c'), ctrl: true, shift: false };
    assert!(matches!(handle_key(&mut s, ctrl_c, 1, true), TuiAction::Quit));
    handle_key(&mut s, key(KeyInput::Esc), 1, true);
    assert_eq!(s.screen, Screen::Manager);
    assert!(matches!(handle_key(&mut s, ch('Q'), 1, true), TuiAction::Quit));
    assert!(matches!(handle_key(&mut s, ch('s'), 1, true), TuiAction::Save));
}

#[test]
fn integer_settings() {
    assert_eq!(field_kind(0), FieldKind::Int);
    assert_eq!(field_kind(2), FieldKind::Float);
    assert_eq!(field_kind(4), FieldKind::Str);
    assert_eq!(step_int_field(0, 999, 1, false), 999);
    assert_eq!(step_int_field(0, 995, -1, false), 985);
    assert_eq!(step_int_field(1, 2048, 1, true), 2176);
    assert_eq!(step_int_field(1, 200, -1, false), 128);
    assert_eq!(step_int_field(3, 512, 1, false), 640);
    assert_eq!(commit_int_field(1, "99999999"), Some(131072));
    assert_eq!(commit_int_field(3, "-3"), Some(16));
    assert_eq!(commit_int_field(0, "50"), Some(50));
    assert_eq!(commit_int_field(0, "fifty"), None);
}

#[test]
fn list_rebuild_keeps_selection() {
    let names: Vec<String> = ["a", "b", "c"].iter().map(|s| s.to_string()).collect();
    let b = "b".to_string();
    let z = "z".to_string();
    assert_eq!(reselect(&names, Some(&b)), Some(1));
    assert_eq!(reselect(&names, Some(&z)), Some(0));
    assert_eq!(reselect(&names, None), Some(0));
    assert_eq!(reselect(&[], Some(&b)), None);
    assert_eq!(position_of(&names, "c"), Some(2));
    assert_eq!(position_of(&names, "d"), None);
}

#[test]
fn chat_window_and_wrapping() {
    assert_eq!(chat_view_start(10, 4, 0), 6);
    assert_eq!(chat_view_start(10, 4, 2), 4);
    assert_eq!(chat_view_start(10, 4, 100), 0);
    assert_eq!(chat_view_start(3, 4, 1), 0);
    assert_eq!(wrap_words("the quick brown fox", 10), vec!["the quick", "brown fox"]);
    assert_eq!(wrap_words("  a  b\n", 1), vec!["a", "b"]);
    assert_eq!(wrap_words("extraordinary x", 5), vec!["extraordinary", "x"]);
    assert!(wrap_words(" \t ", 5).is_empty());
    // Width is counted in bytes: "日本" is six.
    assert_eq!(wrap_words("日本 a", 7), vec!["日本", "a"]);
    assert_eq!(wrap_words("日本 a", 8), vec!["日本 a"]);
}

#[test]
fn integer_settings_default_when_unset() {
    assert_eq!(int_field_value(0, None), 999);
    assert_eq!(int_field_value(1, None), 2048);
    assert_eq!(int_field_value(3, None), 512);
    assert_eq!(int_field_value(1, Some(4096)), 4096);
    assert_eq!(int_field_value(0, Some(0)), 0);
}

#[test]
fn wrapped_lines_rejoin_to_the_words() {
    let text = "  one two\tthree   four five six seven  ";
    for w in [1usize, 3, 8, 12, 40] {
        let lines = wrap_words(text, w);
        let words: Vec<&str> = text.split_whitespace().collect();
        assert_eq!(lines.join(" "), words.join(" "), "width {w}");
    }
}

#[test]
fn candidate_names() {
    assert_eq!(candidate_file_name("model", "gguf", 1), "model-1.gguf");
    assert_eq!(candidate_file_name("model", "", 12), "model-12");
    assert_eq!(candidate_file_name("m", "bin", 0), "m-0.bin");
}
