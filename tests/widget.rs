use diwan::screen::{EditorInput, Keymap, MainScreen, Modes};
use diwan::text_buffer::TextBuffer;

#[test]
fn test_create_widget_at_normal() {
    let yank: Vec<String> = vec![];
    let dnwidget = MainScreen::new_with_widget(TextBuffer::new());

    assert_eq!(dnwidget.mode, Modes::Normal);
    assert_eq!(dnwidget.cursor_x, 0);
    assert_eq!(dnwidget.cursor_y, 0);
    assert_eq!(dnwidget.yank, yank);
    assert_eq!(dnwidget.status_bar.filename, "[SCRATCH]".to_string());
    assert_eq!(dnwidget.status_bar.status_mode, Modes::Normal.to_string());
}

#[test]
fn test_create_widget_in_insert_mode() {
    let mut dnwidget = MainScreen::new_with_widget(TextBuffer::new());

    let key_event = EditorInput::Char('i');
    let action = Keymap::map_key_to_action(&key_event, &dnwidget.mode)
        .expect("Key mapping failed for 'i' in Normal mode");

    // Handle the action (Switch to Insert mode)
    let mut cursor_x = dnwidget.cursor_x;
    let mut cursor_y = dnwidget.cursor_y;
    let mut mode = dnwidget.mode;
    Keymap::handle_action(action, &mut dnwidget.text, &mut cursor_x, &mut cursor_y, &mut mode);

    assert_eq!(mode, Modes::Insert, "Mode should change to Insert after pressing 'i'");
    assert_eq!(cursor_x, 0, "Cursor X should be initialized to 0");
    assert_eq!(cursor_y, 0, "Cursor Y should be initialized to 0");
    assert!(dnwidget.text.is_empty(), "Content should be empty initially");
    assert!(dnwidget.yank.is_empty(), "Yank buffer should be empty initially");
    assert_eq!(dnwidget.status_bar.filename, "[SCRATCH]", "Filename should be [SCRATCH]");
    // handle_action alone leaves the status bar as it was
    assert_eq!(
        dnwidget.status_bar.status_mode,
        Modes::Normal.to_string(),
        "Status mode should be Normal"
    );
}

#[test]
fn process_event_refreshes_status_bar() {
    let mut screen = MainScreen::new_with_widget(TextBuffer::new());
    assert!(screen.process_event(&EditorInput::Char('i')));
    assert_eq!(screen.mode, Modes::Insert);
    assert_eq!(screen.status_bar.status_mode, "INSERT");
    assert!(screen.process_event(&EditorInput::Escape));
    assert_eq!(screen.mode, Modes::Normal);
    assert_eq!(screen.status_bar.status_mode, "NORMAL");
}

#[test]
fn process_event_ignores_unmapped_keys() {
    let mut text = TextBuffer::new();
    text.load_contents("ab".to_string());
    let mut screen = MainScreen::new_with_widget(text);
    assert!(screen.process_event(&EditorInput::Char('x')));
    assert!(screen.process_event(&EditorInput::Backspace));
    assert!(screen.process_event(&EditorInput::Other));
    assert_eq!(screen.text.get_contents(), "ab");
    assert_eq!((screen.cursor_x, screen.cursor_y), (0, 0));
    assert_eq!(screen.mode, Modes::Normal);
}
