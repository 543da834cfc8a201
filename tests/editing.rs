use diwan::keymap::{Actions, EditorInput, Keymap, Modes};
use diwan::screen::MainScreen;
use diwan::text_buffer::TextBuffer;
use diwan::keymap::EditorInput::{Backspace, Char, DownArrow, Enter, Escape, LeftArrow, Other, Paste, RightArrow, UpArrow};

fn buffer(text: &str) -> TextBuffer {
    let mut b = TextBuffer::new();
    b.load_contents(text.to_string());
    b
}

fn apply(action: Actions, text: &str, pos: (usize, usize)) -> (String, (usize, usize)) {
    let mut content = buffer(text);
    let (mut x, mut y) = pos;
    let mut mode = Modes::Insert;
    Keymap::handle_action(action, &mut content, &mut x, &mut y, &mut mode);
    (content.get_contents(), (x, y))
}

fn type_str(screen: &mut MainScreen, s: &str) {
    for c in s.chars() {
        screen.process_event(&EditorInput::Char(c));
    }
}

#[test]
fn typing_session_from_empty_document() {
    let mut screen = MainScreen::new_with_widget(TextBuffer::new());
    screen.process_event(&EditorInput::Char('i'));
    assert_eq!(screen.mode, Modes::Insert);
    assert_eq!((screen.cursor_x, screen.cursor_y), (0, 0));
    type_str(&mut screen, "ab");
    assert_eq!(screen.text.get_contents(), "ab");
    assert_eq!((screen.cursor_x, screen.cursor_y), (2, 0));
    screen.process_event(&EditorInput::Enter);
    assert_eq!(screen.text.get_contents(), "ab\n");
    assert_eq!((screen.cursor_x, screen.cursor_y), (0, 1));
    type_str(&mut screen, "c");
    assert_eq!(screen.text.get_contents(), "ab\nc");
    assert_eq!((screen.cursor_x, screen.cursor_y), (1, 1));
    screen.process_event(&EditorInput::Backspace);
    assert_eq!(screen.text.get_contents(), "ab\n");
    screen.process_event(&EditorInput::Backspace);
    assert_eq!(screen.text.get_contents(), "ab");
    assert_eq!((screen.cursor_x, screen.cursor_y), (2, 0));
}

#[test]
fn paste_into_empty_document() {
    assert_eq!(apply(Actions::Paste("hello".to_string()), "", (0, 0)), ("hello".to_string(), (5, 0)));
}

#[test]
fn move_left_wraps_to_previous_line_end() {
    assert_eq!(apply(Actions::MoveLeft, "ab\ncd", (0, 1)), ("ab\ncd".to_string(), (2, 0)));
}

#[test]
fn move_right_stops_at_end_of_last_line() {
    assert_eq!(apply(Actions::MoveRight, "a", (1, 0)), ("a".to_string(), (1, 0)));
}

#[test]
fn moves_stay_in_bounds() {
    let text = "abcd\n\nxy\nlonger line";
    let lines: Vec<&str> = text.split('\n').collect();
    let moves = [
        Actions::MoveRight, Actions::MoveRight, Actions::MoveRight, Actions::MoveRight,
        Actions::MoveRight, Actions::MoveDown, Actions::MoveDown, Actions::MoveRight,
        Actions::MoveRight, Actions::MoveRight, Actions::MoveDown, Actions::MoveDown,
        Actions::MoveDown, Actions::MoveUp, Actions::MoveLeft, Actions::MoveLeft,
        Actions::MoveLeft, Actions::MoveLeft, Actions::MoveUp, Actions::MoveUp, Actions::MoveUp,
        Actions::MoveLeft, Actions::MoveLeft,
    ];
    let mut content = buffer(text);
    let (mut x, mut y) = (0usize, 0usize);
    let mut mode = Modes::Normal;
    for m in moves {
        Keymap::handle_action(m, &mut content, &mut x, &mut y, &mut mode);
        assert!(y < lines.len());
        assert!(x <= lines[y].chars().count());
        assert_eq!(content.get_contents(), text);
    }
    assert_eq!((x, y), (2, 0));
}

#[test]
fn move_up_and_down_clamp_the_column() {
    assert_eq!(apply(Actions::MoveUp, "ab\nlonger", (5, 1)).1, (2, 0));
    assert_eq!(apply(Actions::MoveDown, "longer\nab", (5, 0)).1, (2, 1));
    assert_eq!(apply(Actions::MoveDown, "ab\nlonger", (1, 0)).1, (1, 1));
    assert_eq!(apply(Actions::MoveUp, "ab", (1, 0)).1, (1, 0));
    assert_eq!(apply(Actions::MoveDown, "ab", (1, 0)).1, (1, 0));
    assert_eq!(apply(Actions::MoveLeft, "ab", (0, 0)).1, (0, 0));
    assert_eq!(apply(Actions::MoveRight, "ab\ncd", (2, 0)).1, (0, 1));
}

#[test]
fn insert_then_delete_restores() {
    for (text, pos) in [("", (0, 0)), ("abc", (1, 0)), ("ab\ncd", (2, 1)), ("x\n\ny", (0, 1))] {
        let (after, p) = apply(Actions::InsertChar('Z'), text, pos);
        assert_eq!(p, (pos.0 + 1, pos.1));
        assert_eq!(apply(Actions::DeleteChar, &after, p), (text.to_string(), pos));
    }
}

#[test]
fn newline_then_delete_restores() {
    for (text, pos) in [("", (0, 0)), ("abc", (1, 0)), ("ab\ncd", (2, 1)), ("ab\ncd", (0, 1))] {
        let (after, p) = apply(Actions::NewLine, text, pos);
        assert_eq!(p, (0, pos.1 + 1));
        assert_eq!(apply(Actions::DeleteChar, &after, p), (text.to_string(), pos));
    }
}

#[test]
fn newline_splits_the_line() {
    assert_eq!(apply(Actions::NewLine, "abcd", (2, 0)), ("ab\ncd".to_string(), (0, 1)));
}

#[test]
fn delete_at_start_of_document_is_a_no_op() {
    assert_eq!(apply(Actions::DeleteChar, "ab", (0, 0)), ("ab".to_string(), (0, 0)));
}

#[test]
fn delete_at_line_start_joins_lines() {
    assert_eq!(apply(Actions::DeleteChar, "ab\ncd", (0, 1)), ("abcd".to_string(), (2, 0)));
}

#[test]
fn columns_count_characters_not_bytes() {
    assert_eq!(apply(Actions::InsertChar('x'), "é\nü", (1, 1)), ("é\nüx".to_string(), (2, 1)));
    assert_eq!(apply(Actions::DeleteChar, "aéb", (2, 0)), ("ab".to_string(), (1, 0)));
}

#[test]
fn paste_with_newlines_moves_to_the_end_of_the_paste() {
    assert_eq!(
        apply(Actions::Paste("x\nyz".to_string()), "ab", (1, 0)),
        ("ax\nyzb".to_string(), (2, 1))
    );
    assert_eq!(apply(Actions::Paste("\n".to_string()), "ab", (2, 0)), ("ab\n".to_string(), (0, 1)));
    assert_eq!(apply(Actions::Paste(String::new()), "ab", (1, 0)), ("ab".to_string(), (1, 0)));
}

#[test]
fn insert_newline_char_behaves_as_newline() {
    assert_eq!(apply(Actions::InsertChar('\n'), "ab", (1, 0)), ("a\nb".to_string(), (0, 1)));
}

#[test]
fn mode_actions_change_only_the_mode() {
    let mut content = buffer("ab");
    let (mut x, mut y) = (1usize, 0usize);
    let mut mode = Modes::Normal;
    Keymap::handle_action(Actions::EnterInsertMode, &mut content, &mut x, &mut y, &mut mode);
    assert_eq!(mode, Modes::Insert);
    Keymap::handle_action(Actions::EnterInsertMode, &mut content, &mut x, &mut y, &mut mode);
    assert_eq!(mode, Modes::Insert);
    Keymap::handle_action(Actions::EnterNormalMode, &mut content, &mut x, &mut y, &mut mode);
    assert_eq!(mode, Modes::Normal);
    Keymap::handle_action(Actions::InsertChar('q'), &mut content, &mut x, &mut y, &mut mode);
    assert_eq!(mode, Modes::Normal);
    assert_eq!((content.get_contents(), x, y), ("aqb".to_string(), 2, 0));
}

#[test]
fn key_table() {
    let n = Modes::Normal;
    let i = Modes::Insert;
    assert_eq!(Keymap::map_key_to_action(&Char('h'), &n), Some(Actions::MoveLeft));
    assert_eq!(Keymap::map_key_to_action(&Char('j'), &n), Some(Actions::MoveDown));
    assert_eq!(Keymap::map_key_to_action(&Char('k'), &n), Some(Actions::MoveUp));
    assert_eq!(Keymap::map_key_to_action(&Char('l'), &n), Some(Actions::MoveRight));
    assert_eq!(Keymap::map_key_to_action(&Char('i'), &n), Some(Actions::EnterInsertMode));
    assert_eq!(Keymap::map_key_to_action(&Char('x'), &n), None);
    assert_eq!(Keymap::map_key_to_action(&LeftArrow, &n), Some(Actions::MoveLeft));
    assert_eq!(Keymap::map_key_to_action(&Backspace, &n), None);
    assert_eq!(Keymap::map_key_to_action(&Enter, &n), None);
    assert_eq!(Keymap::map_key_to_action(&Escape, &n), None);
    assert_eq!(Keymap::map_key_to_action(&Escape, &i), Some(Actions::EnterNormalMode));
    assert_eq!(Keymap::map_key_to_action(&Char('h'), &i), Some(Actions::InsertChar('h')));
    assert_eq!(Keymap::map_key_to_action(&Char('i'), &i), Some(Actions::InsertChar('i')));
    assert_eq!(Keymap::map_key_to_action(&Char('é'), &i), Some(Actions::InsertChar('é')));
    assert_eq!(Keymap::map_key_to_action(&Char('\u{7}'), &i), None);
    assert_eq!(Keymap::map_key_to_action(&DownArrow, &i), Some(Actions::MoveDown));
    assert_eq!(Keymap::map_key_to_action(&UpArrow, &i), Some(Actions::MoveUp));
    assert_eq!(Keymap::map_key_to_action(&RightArrow, &i), Some(Actions::MoveRight));
    assert_eq!(Keymap::map_key_to_action(&Backspace, &i), Some(Actions::DeleteChar));
    assert_eq!(Keymap::map_key_to_action(&Enter, &i), Some(Actions::NewLine));
    assert_eq!(Keymap::map_key_to_action(&Other, &i), None);
    for mode in [n, i] {
        assert_eq!(
            Keymap::map_key_to_action(&Paste("p".to_string()), &mode),
            Some(Actions::Paste("p".to_string()))
        );
    }
}

#[test]
fn mode_actions_offered_only_from_the_other_mode() {
    let mut events = vec![
        EditorInput::LeftArrow, EditorInput::RightArrow, EditorInput::UpArrow,
        EditorInput::DownArrow, EditorInput::Escape, EditorInput::Backspace,
        EditorInput::Enter, EditorInput::Other, EditorInput::Paste("i".to_string()),
    ];
    for c in ['a', 'h', 'i', 'j', 'k', 'l', 'q', ' ', '\u{1b}'] {
        events.push(EditorInput::Char(c));
    }
    for e in &events {
        assert_ne!(Keymap::map_key_to_action(e, &Modes::Insert), Some(Actions::EnterInsertMode));
        assert_ne!(Keymap::map_key_to_action(e, &Modes::Normal), Some(Actions::EnterNormalMode));
    }
}

#[test]
fn text_buffer_round_trips_and_splits_lines() {
    let b = buffer("héllo\n\nworld\n");
    assert_eq!(b.get_contents(), "héllo\n\nworld\n");
    assert_eq!(b.len(), 13);
    assert_eq!(b.line_lengths(), vec![5, 0, 5, 0]);
    assert_eq!(b.line_strings(), vec!["héllo", "", "world", ""]);
    let empty = TextBuffer::new();
    assert!(empty.is_empty());
    assert_eq!(empty.line_lengths(), vec![0]);
    assert_eq!(empty.line_strings(), vec![""]);
}

#[test]
fn screen_exposes_lines_and_status() {
    let mut screen = MainScreen::new_with_widget(buffer("ab\ncd"));
    screen.process_event(&EditorInput::Char('j'));
    assert_eq!(screen.visible_lines(), vec!["ab", "cd"]);
    assert_eq!((screen.cursor_x, screen.cursor_y), (0, 1));
    let line = screen.status_line(80);
    assert_eq!(line, format!("  {:<20}{:^36}{:>20}  ", "NORMAL", "[SCRATCH]", "1:2"));
}
