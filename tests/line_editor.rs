use diwan::keymap::{EditorInput, Modes};
use diwan::line_editor::{Editor, EditorAction};
use diwan::screen::MainScreen;
use diwan::text_buffer::TextBuffer;
use diwan::keymap::EditorInput::{Backspace, Char, Enter, Escape, LeftArrow, UpArrow};

fn type_keys(editor: &mut Editor, keys: &[EditorInput]) {
    for k in keys {
        assert_eq!(editor.handle_modes(&Modes::Insert, k), None);
    }
}

#[test]
fn line_editor_starts_empty() {
    let editor = Editor::new();
    assert_eq!(editor.line_strings(), vec![""]);
    assert_eq!(editor.cursor(), (0, 0));
}

#[test]
fn line_editor_types_splits_and_joins() {
    let mut editor = Editor::new();
    type_keys(&mut editor, &[Char('a'), Char('b'), Enter, Char('c')]);
    assert_eq!(editor.line_strings(), vec!["ab", "c"]);
    assert_eq!(editor.cursor(), (1, 1));
    type_keys(&mut editor, &[Backspace, Backspace]);
    assert_eq!(editor.line_strings(), vec!["ab"]);
    assert_eq!(editor.cursor(), (2, 0));
    type_keys(&mut editor, &[Backspace, Backspace, Backspace]);
    assert_eq!(editor.line_strings(), vec![""]);
    assert_eq!(editor.cursor(), (0, 0));
}

#[test]
fn line_editor_hands_back_navigation() {
    let mut editor = Editor::new();
    let mut mode = Modes::Normal;
    assert_eq!(editor.handle_modes(&mode, &Char('q')), Some(EditorAction::Quit));
    assert_eq!(editor.handle_modes(&mode, &Char('x')), None);
    assert_eq!(editor.handle_modes(&mode, &Backspace), None);
    let enter = editor.handle_modes(&mode, &Char('i')).unwrap();
    assert_eq!(enter, EditorAction::EnterMode(Modes::Insert));
    assert!(!editor.perform(enter, &mut mode));
    assert_eq!(mode, Modes::Insert);
    assert_eq!(editor.handle_modes(&mode, &Char('q')), None);
    type_keys(&mut editor, &[Enter, Char('x'), Char('y')]);
    assert_eq!(editor.line_strings(), vec!["q", "xy"]);
    let up = editor.handle_modes(&mode, &UpArrow).unwrap();
    editor.perform(up, &mut mode);
    assert_eq!(editor.cursor(), (1, 0));
    let left = editor.handle_modes(&mode, &LeftArrow).unwrap();
    editor.perform(left, &mut mode);
    editor.perform(left, &mut mode);
    assert_eq!(editor.cursor(), (0, 0));
    editor.perform(EditorAction::Down, &mut mode);
    editor.perform(EditorAction::Right, &mut mode);
    editor.perform(EditorAction::Right, &mut mode);
    editor.perform(EditorAction::Right, &mut mode);
    assert_eq!(editor.cursor(), (2, 1));
    let esc = editor.handle_modes(&mode, &Escape).unwrap();
    assert!(!editor.perform(esc, &mut mode));
    assert_eq!(mode, Modes::Normal);
    assert!(editor.perform(EditorAction::Quit, &mut mode));
}

#[test]
fn document_editor_loads_and_returns_text() {
    let mut editor = diwan::editor::Editor::new();
    assert_eq!(editor.get_contents(), "");
    editor.load_contents("one\ntwo".to_string());
    assert_eq!(editor.get_contents(), "one\ntwo");
}

#[test]
fn line_editor_matches_document_editing() {
    let keys = [Char('a'), Char('b'), Enter, Char('c'), LeftArrow, Backspace, Char('d'), Enter, Backspace, Backspace];
    let mut editor = Editor::new();
    let mut mode = Modes::Insert;
    let mut screen = MainScreen::new_with_widget(TextBuffer::new());
    screen.process_event(&Char('i'));
    for k in &keys {
        if let Some(action) = editor.handle_modes(&mode, k) {
            editor.perform(action, &mut mode);
        }
        screen.process_event(k);
        assert_eq!(editor.line_strings(), screen.visible_lines());
        assert_eq!(editor.cursor(), (screen.cursor_x, screen.cursor_y));
    }
    assert_eq!(screen.text.get_contents(), "abc");
}

#[test]
fn line_editor_round_trips_in_the_middle_of_a_line() {
    let mut editor = Editor::new();
    type_keys(&mut editor, &[Char('a'), Char('b'), Char('c'), Enter, Char('d')]);
    let mut mode = Modes::Insert;
    editor.perform(EditorAction::Up, &mut mode);
    editor.perform(EditorAction::Right, &mut mode);
    assert_eq!(editor.cursor(), (2, 0));
    type_keys(&mut editor, &[Char('x'), Backspace]);
    assert_eq!(editor.line_strings(), vec!["abc", "d"]);
    assert_eq!(editor.cursor(), (2, 0));
    type_keys(&mut editor, &[Enter]);
    assert_eq!(editor.line_strings(), vec!["ab", "c", "d"]);
    assert_eq!(editor.cursor(), (0, 1));
    type_keys(&mut editor, &[Backspace]);
    assert_eq!(editor.line_strings(), vec!["abc", "d"]);
    assert_eq!(editor.cursor(), (2, 0));
}
