//! The status line: the mode, the file name and the cursor position, as shown at the
//! bottom of the screen.
use vstd::prelude::*;

use crate::keymap::Modes;
use crate::text_buffer::push_char;

verus! {

/// The name of a mode as the status line shows it.
pub open spec fn mode_name(mode: Modes) -> Seq<char> {
    match mode {
        Modes::Normal => "NORMAL"@,
        Modes::Insert => "INSERT"@,
    }
}

/// The file name shown when no file is associated.
pub open spec fn scratch_name() -> Seq<char> {
    "[SCRATCH]"@
}

/// The decimal digit for `d`.
pub open spec fn digit(d: int) -> char {
    (d + 48) as char
}

/// `n` written in decimal, without leading zeros.
pub open spec fn decimal(n: nat) -> Seq<char>
    decreases n,
{
    if n < 10 {
        seq![digit(n as int)]
    } else {
        decimal(n / 10).push(digit((n % 10) as int))
    }
}

/// `n` spaces.
pub open spec fn spaces(n: int) -> Seq<char> {
    Seq::new(if n > 0 { n as nat } else { 0 }, |i: int| ' ')
}

/// `t` followed by spaces up to `width` characters.
pub open spec fn pad_right(t: Seq<char>, width: int) -> Seq<char> {
    t + spaces(width - t.len())
}

/// `t` preceded by spaces up to `width` characters.
pub open spec fn pad_left(t: Seq<char>, width: int) -> Seq<char> {
    spaces(width - t.len()) + t
}

/// `t` centered in `width` characters; the odd space goes to the right.
pub open spec fn pad_center(t: Seq<char>, width: int) -> Seq<char> {
    let pad = width - t.len();
    spaces(pad / 2) + t + spaces(pad - pad / 2)
}

/// `a - b`, or zero when `b` is larger.
pub open spec fn saturating_sub(a: int, b: int) -> int {
    if a > b {
        a - b
    } else {
        0
    }
}

/// The cursor as the status line shows it: column and row counted from one.
pub open spec fn position_text(col: int, row: int) -> Seq<char> {
    decimal((col + 1) as nat) + ":"@ + decimal((row + 1) as nat)
}

/// The upper-case form of a text, as `str::to_uppercase` gives it.
pub uninterp spec fn upper_of(s: Seq<char>) -> Seq<char>;

/// Relies on str::to_uppercase: the upper-case form depends on the characters alone.
#[verifier::external_body]
fn to_upper(s: &str) -> (r: String)
    ensures
        r@ == upper_of(s@),
{
    s.to_uppercase()
}

/// The status line for a screen `width` characters wide: two spaces of margin on each
/// side, the mode in upper case on the left in 20 characters, the position on the right
/// in 20, and the file name centered in what is left.
pub open spec fn status_line(
    mode: Seq<char>,
    filename: Seq<char>,
    col: int,
    row: int,
    width: int,
) -> Seq<char> {
    status_layout(upper_of(mode), filename, col, row, width)
}

/// The layout of the status line around the mode text as it is shown.
pub open spec fn status_layout(
    mode: Seq<char>,
    filename: Seq<char>,
    col: int,
    row: int,
    width: int,
) -> Seq<char> {
    let center = saturating_sub(saturating_sub(width, 4), 40);
    "  "@ + pad_right(mode, 20) + pad_center(filename, center) + pad_left(
        position_text(col, row),
        20,
    ) + "  "@
}

/// Appends `n` in decimal.
fn push_decimal(s: &mut String, n: u128)
    ensures
        final(s)@ == old(s)@ + decimal(n as nat),
    decreases n,
{
    if n >= 10 {
        push_decimal(s, n / 10);
    }
    let d = (n % 10) as u8;
    push_char(s, (d + 48) as char);
    proof {
        if n < 10 {
            assert(decimal(n as nat) == seq![digit(n as int)]);
        }
    }
    assert(final(s)@ =~= old(s)@ + decimal(n as nat));
}

/// Appends `n` spaces.
fn push_spaces(s: &mut String, n: usize)
    ensures
        final(s)@ == old(s)@ + spaces(n as int),
{
    let ghost start = s@;
    let mut i: usize = 0;
    while i < n
        invariant
            i <= n,
            s@ == start + spaces(i as int),
        decreases n - i,
    {
        push_char(s, ' ');
        i += 1;
        assert(s@ =~= start + spaces(i as int));
    }
}

/// Appends `t`.
fn push_str(s: &mut String, t: &String)
    ensures
        final(s)@ == old(s)@ + t@,
{
    s.append(t.as_str());
}

/// Appends `t` and then spaces up to `width` characters.
fn push_padded_right(s: &mut String, t: &String, width: usize)
    ensures
        final(s)@ == old(s)@ + pad_right(t@, width as int),
{
    let len = t.as_str().unicode_len();
    push_str(s, t);
    push_spaces(s, if len < width { width - len } else { 0 });
    assert(spaces(width - t@.len()) =~= spaces((if len < width { width - len } else { 0 }) as int));
}

/// Appends spaces up to `width` characters and then `t`.
fn push_padded_left(s: &mut String, t: &String, width: usize)
    ensures
        final(s)@ == old(s)@ + pad_left(t@, width as int),
{
    let len = t.as_str().unicode_len();
    push_spaces(s, if len < width { width - len } else { 0 });
    push_str(s, t);
    assert(spaces(width - t@.len()) =~= spaces((if len < width { width - len } else { 0 }) as int));
}

/// Appends `t` centered in `width` characters.
fn push_centered(s: &mut String, t: &String, width: usize)
    ensures
        final(s)@ == old(s)@ + pad_center(t@, width as int),
{
    let len = t.as_str().unicode_len();
    let pad: usize = if len < width { width - len } else { 0 };
    push_spaces(s, pad / 2);
    push_str(s, t);
    push_spaces(s, pad - pad / 2);
    let ghost p = width - t@.len();
    assert(spaces(p / 2) =~= spaces((pad / 2) as int));
    assert(spaces(p - p / 2) =~= spaces((pad - pad / 2) as int));
}

/// The cursor position as the status line shows it.
fn position_string(cursor_x: usize, cursor_y: usize) -> (r: String)
    ensures
        r@ == position_text(cursor_x as int, cursor_y as int),
{
    let mut position = String::new();
    push_decimal(&mut position, cursor_x as u128 + 1);
    push_char(&mut position, ':');
    push_decimal(&mut position, cursor_y as u128 + 1);
    proof {
        reveal_strlit(":");
    }
    assert(position@ =~= position_text(cursor_x as int, cursor_y as int));
    position
}

impl Modes {
    /// The mode's name as the status line shows it.
    pub fn to_string(&self) -> (r: String)
        ensures
            r@ == mode_name(*self),
    {
        match self {
            Modes::Normal => String::from_str("NORMAL"),
            Modes::Insert => String::from_str("INSERT"),
        }
    }
}

/// What the status line shows: the current mode and the file being edited.
pub struct StatusBar {
    /// The current mode's name.
    pub status_mode: String,
    /// The name of the file being edited.
    pub filename: String,
}

impl StatusBar {
    /// A status bar with the given file name and mode name.
    pub fn new(filename: &str, status_mode: &str) -> (r: Self)
        ensures
            r.status_mode@ == status_mode@,
            r.filename@ == filename@,
    {
        StatusBar { status_mode: String::from_str(status_mode), filename: String::from_str(filename) }
    }

    /// Shows the given mode.
    pub fn update(&mut self, mode: &Modes)
        ensures
            final(self).status_mode@ == mode_name(*mode),
            final(self).filename == old(self).filename,
    {
        self.status_mode = mode.to_string();
    }

    /// The status line for a screen `width` characters wide, with the cursor at
    /// (`cursor_x`, `cursor_y`), both counted from zero.
    pub fn render(&self, width: usize, cursor_x: usize, cursor_y: usize) -> (r: String)
        ensures
            r@ == status_line(
                self.status_mode@,
                self.filename@,
                cursor_x as int,
                cursor_y as int,
                width as int,
            ),
    {
        let shown_mode = to_upper(self.status_mode.as_str());
        layout_status_line(&shown_mode, &self.filename, width, cursor_x, cursor_y)
    }
}

/// Lays out the status line around the mode text as it is to be shown.
pub fn layout_status_line(
    shown_mode: &String,
    filename: &String,
    width: usize,
    cursor_x: usize,
    cursor_y: usize,
) -> (r: String)
    ensures
        r@ == status_layout(shown_mode@, filename@, cursor_x as int, cursor_y as int, width as int),
{
    let available_width: usize = if width > 4 { width - 4 } else { 0 };
    let center: usize = if available_width > 40 { available_width - 40 } else { 0 };
    let position = position_string(cursor_x, cursor_y);
    let mut line = String::new();
    push_spaces(&mut line, 2);
    push_padded_right(&mut line, shown_mode, 20);
    push_centered(&mut line, filename, center);
    push_padded_left(&mut line, &position, 20);
    push_spaces(&mut line, 2);
    proof {
        reveal_strlit("  ");
        assert(spaces(2) =~= "  "@);
        assert(line@ =~= status_layout(
            shown_mode@,
            filename@,
            cursor_x as int,
            cursor_y as int,
            width as int,
        ));
    }
    line
}

impl Default for StatusBar {
    /// Normal mode, no file.
    fn default() -> (r: Self)
        ensures
            r.status_mode@ == mode_name(Modes::Normal),
            r.filename@ == scratch_name(),
    {
        StatusBar { status_mode: Modes::Normal.to_string(), filename: String::from_str("[SCRATCH]") }
    }
}

} // verus!
