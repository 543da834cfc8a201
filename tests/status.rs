use diwan::keymap::Modes;
use diwan::status::{layout_status_line, StatusBar};

#[test]
fn default_status_bar() {
    let bar = StatusBar::default();
    assert_eq!(bar.status_mode, "NORMAL");
    assert_eq!(bar.filename, "[SCRATCH]");
}

#[test]
fn update_shows_the_mode() {
    let mut bar = StatusBar::new("dummy.rs", "NORMAL");
    bar.update(&Modes::Insert);
    assert_eq!(bar.status_mode, "INSERT");
    assert_eq!(bar.filename, "dummy.rs");
    assert_eq!(Modes::Insert.to_string(), "INSERT");
    assert_eq!(Modes::Normal.to_string(), "NORMAL");
}

#[test]
fn status_line_layout_matches_format_padding() {
    let bar = StatusBar::new("dummy.rs", "INSERT");
    for (width, x, y) in [(80usize, 0usize, 0usize), (100, 9, 41), (45, 3, 4), (0, 123456, 7), (121, 99, 999)] {
        let center = width.saturating_sub(4).saturating_sub(40);
        let expected = format!(
            "  {:<20}{:^center$}{:>20}  ",
            "INSERT",
            "dummy.rs",
            format!("{}:{}", x + 1, y + 1),
            center = center
        );
        assert_eq!(bar.render(width, x, y), expected);
    }
}

#[test]
fn status_line_exact_value() {
    let bar = StatusBar::default();
    assert_eq!(
        bar.render(60, 0, 9),
        "  NORMAL              ".to_string() + "   [SCRATCH]    " + "                1:10  "
    );
}

#[test]
fn status_line_largest_cursor() {
    let bar = StatusBar::new("f", "NORMAL");
    let line = bar.render(44, usize::MAX, usize::MAX);
    let n = (usize::MAX as u128 + 1).to_string();
    assert!(line.ends_with(&format!("{}:{}  ", n, n)));
}

#[test]
fn status_line_shows_mode_in_upper_case() {
    let bar = StatusBar::new("f", "ab");
    assert_eq!(bar.render(44, 0, 0), format!("  {:<20}{:^0}{:>20}  ", "AB", "f", "1:1"));
    let bar = StatusBar::new("notes.txt", "insert ä");
    assert!(bar.render(80, 0, 0).starts_with("  INSERT Ä "));
}

#[test]
fn layout_keeps_the_mode_text_as_given() {
    let line = layout_status_line(&"ab".to_string(), &"f".to_string(), 44, 0, 0);
    assert_eq!(line, format!("  {:<20}{:^0}{:>20}  ", "ab", "f", "1:1"));
}
