//! Key mapping and the application of actions to a document, its cursor and the
//! editing mode.
use vstd::prelude::*;

use crate::text::{
    delete_before, insert_at, lemma_delete, lemma_flat_append, lemma_flat_single, lemma_insert,
    lemma_line_count_bound, lemma_moves_valid, lemma_split, lines, move_down, move_left,
    move_right, move_up, offset, position_after_delete, position_after_insert, valid_position,
};
use crate::text_buffer::{
    chars_of, last_line_of, lemma_rows_len, lemma_rows_len_monotone, lengths_of_lines, rows_len,
    TextBuffer,
};

verus! {

/// Key handling for the editor: what a key means in a mode, and what an action does.
pub struct Keymap;

/// The modes in which the editor can operate.
#[derive(Debug, Clone, Copy, PartialEq, Eq, Structural)]
pub enum Modes {
    /// Navigation.
    Normal,
    /// Text input.
    Insert,
}

/// The actions that can be performed in the editor.
#[derive(Debug, Clone, PartialEq, Eq)]
pub enum Actions {
    /// Enter insert mode.
    EnterInsertMode,
    /// Enter normal mode.
    EnterNormalMode,
    /// Move the cursor left.
    MoveLeft,
    /// Move the cursor right.
    MoveRight,
    /// Move the cursor up.
    MoveUp,
    /// Move the cursor down.
    MoveDown,
    /// Insert a character at the cursor.
    InsertChar(char),
    /// Delete the character before the cursor.
    DeleteChar,
    /// Split the line at the cursor.
    NewLine,
    /// Insert a pasted string at the cursor.
    Paste(String),
}

/// One input event as the terminal reports it: a key, or a pasted string.
#[derive(Debug, Clone, PartialEq, Eq)]
pub enum EditorInput {
    Char(char),
    LeftArrow,
    RightArrow,
    UpArrow,
    DownArrow,
    Escape,
    Backspace,
    Enter,
    Paste(String),
    /// Any other key or event.
    Other,
}

/// A character that shows as itself: not a control character.
pub open spec fn printable(c: char) -> bool {
    let u = c as u32;
    !(u < 0x20 || (0x7f <= u && u < 0xa0))
}

/// The key table. Arrows move in both modes; letters navigate in normal mode and are
/// typed in insert mode; a paste is a paste in both modes.
pub open spec fn action_for_key(event: EditorInput, mode: Modes) -> Option<Actions> {
    match event {
        EditorInput::Paste(s) => Some(Actions::Paste(s)),
        EditorInput::LeftArrow => Some(Actions::MoveLeft),
        EditorInput::RightArrow => Some(Actions::MoveRight),
        EditorInput::UpArrow => Some(Actions::MoveUp),
        EditorInput::DownArrow => Some(Actions::MoveDown),
        EditorInput::Char(c) => match mode {
            Modes::Normal => if c == 'h' {
                Some(Actions::MoveLeft)
            } else if c == 'j' {
                Some(Actions::MoveDown)
            } else if c == 'k' {
                Some(Actions::MoveUp)
            } else if c == 'l' {
                Some(Actions::MoveRight)
            } else if c == 'i' {
                Some(Actions::EnterInsertMode)
            } else {
                None
            },
            Modes::Insert => if printable(c) {
                Some(Actions::InsertChar(c))
            } else {
                None
            },
        },
        EditorInput::Escape => if mode == Modes::Insert {
            Some(Actions::EnterNormalMode)
        } else {
            None
        },
        EditorInput::Backspace => if mode == Modes::Insert {
            Some(Actions::DeleteChar)
        } else {
            None
        },
        EditorInput::Enter => if mode == Modes::Insert {
            Some(Actions::NewLine)
        } else {
            None
        },
        EditorInput::Other => None,
    }
}

/// The mode after an action: only the two mode actions change it.
pub open spec fn next_mode(action: Actions, mode: Modes) -> Modes {
    match action {
        Actions::EnterInsertMode => Modes::Insert,
        Actions::EnterNormalMode => Modes::Normal,
        _ => mode,
    }
}

/// Text and cursor after splicing `p` in at the cursor.
pub open spec fn inserted(s: Seq<char>, col: int, row: int, p: Seq<char>) -> (Seq<char>, int, int) {
    (
        insert_at(s, col, row, p),
        position_after_insert(col, row, p).0,
        position_after_insert(col, row, p).1,
    )
}

/// Text and cursor (column, row) after an action.
pub open spec fn apply_action(action: Actions, s: Seq<char>, col: int, row: int) -> (
    Seq<char>,
    int,
    int,
) {
    match action {
        Actions::MoveLeft => (s, move_left(s, col, row).0, move_left(s, col, row).1),
        Actions::MoveRight => (s, move_right(s, col, row).0, move_right(s, col, row).1),
        Actions::MoveUp => (s, move_up(s, col, row).0, move_up(s, col, row).1),
        Actions::MoveDown => (s, move_down(s, col, row).0, move_down(s, col, row).1),
        Actions::InsertChar(c) => inserted(s, col, row, seq![c]),
        Actions::NewLine => inserted(s, col, row, seq!['\n']),
        Actions::Paste(p) => inserted(s, col, row, p@),
        Actions::DeleteChar => (
            delete_before(s, col, row),
            position_after_delete(s, col, row).0,
            position_after_delete(s, col, row).1,
        ),
        Actions::EnterInsertMode => (s, col, row),
        Actions::EnterNormalMode => (s, col, row),
    }
}

/// Whether `c` is a printable character.
pub fn is_printable(c: char) -> (r: bool)
    ensures
        r == printable(c),
{
    let u = c as u32;
    !(u < 0x20 || (0x7f <= u && u < 0xa0))
}

impl Keymap {
    /// The action that an input event stands for in the given mode, if any.
    pub fn map_key_to_action(event: &EditorInput, mode: &Modes) -> (r: Option<Actions>)
        ensures
            r == action_for_key(*event, *mode),
    {
        match event {
            EditorInput::Paste(pasted_string) => Some(Actions::Paste(pasted_string.clone())),
            EditorInput::LeftArrow => Some(Actions::MoveLeft),
            EditorInput::RightArrow => Some(Actions::MoveRight),
            EditorInput::UpArrow => Some(Actions::MoveUp),
            EditorInput::DownArrow => Some(Actions::MoveDown),
            EditorInput::Char(c) => match mode {
                Modes::Normal => {
                    let c = *c;
                    if c == 'h' {
                        Some(Actions::MoveLeft)
                    } else if c == 'j' {
                        Some(Actions::MoveDown)
                    } else if c == 'k' {
                        Some(Actions::MoveUp)
                    } else if c == 'l' {
                        Some(Actions::MoveRight)
                    } else if c == 'i' {
                        Some(Actions::EnterInsertMode)
                    } else {
                        None
                    }
                },
                Modes::Insert => {
                    if is_printable(*c) {
                        Some(Actions::InsertChar(*c))
                    } else {
                        None
                    }
                },
            },
            EditorInput::Escape => match mode {
                Modes::Insert => Some(Actions::EnterNormalMode),
                Modes::Normal => None,
            },
            EditorInput::Backspace => match mode {
                Modes::Insert => Some(Actions::DeleteChar),
                Modes::Normal => None,
            },
            EditorInput::Enter => match mode {
                Modes::Insert => Some(Actions::NewLine),
                Modes::Normal => None,
            },
            EditorInput::Other => None,
        }
    }

    /// Performs an action on the document, the cursor (`cursor_x` is the column,
    /// `cursor_y` the row, both counted in characters from zero) and the mode.
    pub fn handle_action(
        action: Actions,
        content: &mut TextBuffer,
        cursor_x: &mut usize,
        cursor_y: &mut usize,
        mode: &mut Modes,
    )
        requires
            valid_position(old(content)@, *old(cursor_x) as int, *old(cursor_y) as int),
        ensures
            (final(content)@, *final(cursor_x) as int, *final(cursor_y) as int) == apply_action(
                action,
                old(content)@,
                *old(cursor_x) as int,
                *old(cursor_y) as int,
            ),
            *final(mode) == next_mode(action, *old(mode)),
            valid_position(final(content)@, *final(cursor_x) as int, *final(cursor_y) as int),
    {
        let lines = content.line_lengths();
        proof {
            lemma_moves_valid(content@, *cursor_x as int, *cursor_y as int);
        }
        match action {
            Actions::MoveLeft => Self::move_cursor_left(cursor_x, cursor_y, &lines, Ghost(content@)),
            Actions::MoveRight => Self::move_cursor_right(cursor_x, cursor_y, &lines, Ghost(content@)),
            Actions::MoveUp => Self::move_cursor_up(cursor_x, cursor_y, &lines, Ghost(content@)),
            Actions::MoveDown => Self::move_cursor_down(cursor_x, cursor_y, &lines, Ghost(content@)),
            Actions::NewLine => Self::insert_newline(cursor_x, cursor_y, content, &lines),
            Actions::EnterInsertMode => *mode = Modes::Insert,
            Actions::EnterNormalMode => *mode = Modes::Normal,
            Actions::InsertChar(c) => Self::insert_char(c, cursor_x, cursor_y, content, &lines),
            Actions::Paste(pasted_string) => {
                Self::insert_string(pasted_string, cursor_x, cursor_y, content, &lines)
            },
            Actions::DeleteChar => Self::delete_char(cursor_x, cursor_y, content, &lines),
        }
    }

    /// Inserts a character at the cursor.
    fn insert_char(
        c: char,
        cursor_x: &mut usize,
        cursor_y: &mut usize,
        content: &mut TextBuffer,
        lines: &Vec<usize>,
    )
        requires
            lengths_of_lines(lines@, old(content)@),
            valid_position(old(content)@, *old(cursor_x) as int, *old(cursor_y) as int),
        ensures
            (final(content)@, *final(cursor_x) as int, *final(cursor_y) as int) == inserted(
                old(content)@,
                *old(cursor_x) as int,
                *old(cursor_y) as int,
                seq![c],
            ),
            valid_position(final(content)@, *final(cursor_x) as int, *final(cursor_y) as int),
    {
        let text = vec![c];
        assert(text@ =~= seq![c]);
        Self::insert_chars(&text, cursor_x, cursor_y, content, lines);
    }

    /// Splits the line at the cursor.
    fn insert_newline(
        cursor_x: &mut usize,
        cursor_y: &mut usize,
        content: &mut TextBuffer,
        lines: &Vec<usize>,
    )
        requires
            lengths_of_lines(lines@, old(content)@),
            valid_position(old(content)@, *old(cursor_x) as int, *old(cursor_y) as int),
        ensures
            (final(content)@, *final(cursor_x) as int, *final(cursor_y) as int) == inserted(
                old(content)@,
                *old(cursor_x) as int,
                *old(cursor_y) as int,
                seq!['\n'],
            ),
            valid_position(final(content)@, *final(cursor_x) as int, *final(cursor_y) as int),
    {
        let text = vec!['\n'];
        assert(text@ =~= seq!['\n']);
        Self::insert_chars(&text, cursor_x, cursor_y, content, lines);
    }

    /// Inserts a pasted string at the cursor.
    fn insert_string(
        pasted_string: String,
        cursor_x: &mut usize,
        cursor_y: &mut usize,
        content: &mut TextBuffer,
        lines: &Vec<usize>,
    )
        requires
            lengths_of_lines(lines@, old(content)@),
            valid_position(old(content)@, *old(cursor_x) as int, *old(cursor_y) as int),
        ensures
            (final(content)@, *final(cursor_x) as int, *final(cursor_y) as int) == inserted(
                old(content)@,
                *old(cursor_x) as int,
                *old(cursor_y) as int,
                pasted_string@,
            ),
            valid_position(final(content)@, *final(cursor_x) as int, *final(cursor_y) as int),
    {
        let text = chars_of(pasted_string.as_str());
        Self::insert_chars(&text, cursor_x, cursor_y, content, lines);
    }

    /// Splices `text` in at the cursor and puts the cursor just after it.
    fn insert_chars(
        text: &Vec<char>,
        cursor_x: &mut usize,
        cursor_y: &mut usize,
        content: &mut TextBuffer,
        lines: &Vec<usize>,
    )
        requires
            lengths_of_lines(lines@, old(content)@),
            valid_position(old(content)@, *old(cursor_x) as int, *old(cursor_y) as int),
        ensures
            (final(content)@, *final(cursor_x) as int, *final(cursor_y) as int) == inserted(
                old(content)@,
                *old(cursor_x) as int,
                *old(cursor_y) as int,
                text@,
            ),
            valid_position(final(content)@, *final(cursor_x) as int, *final(cursor_y) as int),
    {
        let ghost s = content@;
        let ghost col = *cursor_x as int;
        let ghost row = *cursor_y as int;
        // the text's length, hence every offset into it, fits in a usize
        let _len = content.len();
        proof {
            lemma_split(s, col, row);
            lemma_rows_len(lines@, s, row);
        }
        let at = Self::get_byte_position(lines, (*cursor_x, *cursor_y));
        content.insert_text(at, text);
        let (breaks, tail) = last_line_of(text);
        // so does the grown text's length, which bounds the new cursor
        let _len = content.len();
        let ghost s2 = content@;
        let ghost pos = position_after_insert(col, row, text@);
        proof {
            lemma_insert(s, col, row, text@);
            assert(s2 == insert_at(s, col, row, text@));
            lemma_split(s2, pos.0, pos.1);
            lemma_line_count_bound(s2);
        }
        if breaks == 0 {
            *cursor_x = *cursor_x + text.len();
        } else {
            *cursor_y = *cursor_y + breaks;
            *cursor_x = tail;
        }
    }

    /// Deletes the character before the cursor; at the start of a line, joins the line
    /// to the one above.
    fn delete_char(
        cursor_x: &mut usize,
        cursor_y: &mut usize,
        content: &mut TextBuffer,
        lines: &Vec<usize>,
    )
        requires
            lengths_of_lines(lines@, old(content)@),
            valid_position(old(content)@, *old(cursor_x) as int, *old(cursor_y) as int),
        ensures
            final(content)@ == delete_before(
                old(content)@,
                *old(cursor_x) as int,
                *old(cursor_y) as int,
            ),
            (*final(cursor_x) as int, *final(cursor_y) as int) == position_after_delete(
                old(content)@,
                *old(cursor_x) as int,
                *old(cursor_y) as int,
            ),
            valid_position(final(content)@, *final(cursor_x) as int, *final(cursor_y) as int),
    {
        if *cursor_x == 0 && *cursor_y == 0 {
            return;
        }
        let ghost s = content@;
        // the text's length, hence every offset into it, fits in a usize
        let _len = content.len();
        proof {
            lemma_split(s, *cursor_x as int, *cursor_y as int);
            lemma_delete(s, *cursor_x as int, *cursor_y as int);
            lemma_rows_len(lines@, s, *cursor_y as int);
        }
        let byte_pos = Self::get_byte_position(lines, (*cursor_x, *cursor_y));
        if *cursor_x > 0 {
            content.remove_char(byte_pos - 1);
            *cursor_x -= 1;
        } else {
            *cursor_y -= 1;
            *cursor_x = lines[*cursor_y];
            content.remove_char(byte_pos - 1);
        }
    }

    /// Moves the cursor up.
    fn move_cursor_up(
        cursor_x: &mut usize,
        cursor_y: &mut usize,
        lines: &Vec<usize>,
        Ghost(s): Ghost<Seq<char>>,
    )
        requires
            lengths_of_lines(lines@, s),
            valid_position(s, *old(cursor_x) as int, *old(cursor_y) as int),
        ensures
            (*final(cursor_x) as int, *final(cursor_y) as int) == move_up(
                s,
                *old(cursor_x) as int,
                *old(cursor_y) as int,
            ),
    {
        if *cursor_y > 0 {
            *cursor_y -= 1;
            if *cursor_x > lines[*cursor_y] {
                *cursor_x = lines[*cursor_y];
            }
        }
    }

    /// Moves the cursor down.
    fn move_cursor_down(
        cursor_x: &mut usize,
        cursor_y: &mut usize,
        lines: &Vec<usize>,
        Ghost(s): Ghost<Seq<char>>,
    )
        requires
            lengths_of_lines(lines@, s),
            valid_position(s, *old(cursor_x) as int, *old(cursor_y) as int),
        ensures
            (*final(cursor_x) as int, *final(cursor_y) as int) == move_down(
                s,
                *old(cursor_x) as int,
                *old(cursor_y) as int,
            ),
    {
        if *cursor_y < lines.len() - 1 {
            *cursor_y += 1;
            if *cursor_x > lines[*cursor_y] {
                *cursor_x = lines[*cursor_y];
            }
        }
    }

    /// Moves the cursor left.
    fn move_cursor_left(
        cursor_x: &mut usize,
        cursor_y: &mut usize,
        lines: &Vec<usize>,
        Ghost(s): Ghost<Seq<char>>,
    )
        requires
            lengths_of_lines(lines@, s),
            valid_position(s, *old(cursor_x) as int, *old(cursor_y) as int),
        ensures
            (*final(cursor_x) as int, *final(cursor_y) as int) == move_left(
                s,
                *old(cursor_x) as int,
                *old(cursor_y) as int,
            ),
    {
        if *cursor_x > 0 {
            *cursor_x -= 1;
        } else if *cursor_y > 0 {
            *cursor_y -= 1;
            *cursor_x = lines[*cursor_y];
        }
    }

    /// Moves the cursor right.
    fn move_cursor_right(
        cursor_x: &mut usize,
        cursor_y: &mut usize,
        lines: &Vec<usize>,
        Ghost(s): Ghost<Seq<char>>,
    )
        requires
            lengths_of_lines(lines@, s),
            valid_position(s, *old(cursor_x) as int, *old(cursor_y) as int),
        ensures
            (*final(cursor_x) as int, *final(cursor_y) as int) == move_right(
                s,
                *old(cursor_x) as int,
                *old(cursor_y) as int,
            ),
    {
        if *cursor_x < lines[*cursor_y] {
            *cursor_x += 1;
        } else if *cursor_y < lines.len() - 1 {
            *cursor_y += 1;
            *cursor_x = 0;
        }
    }

    /// The character offset of a cursor position, given the line lengths: the rows above,
    /// each with its newline, plus the column.
    fn get_byte_position(lines: &Vec<usize>, cursor_pos: (usize, usize)) -> (r: usize)
        requires
            cursor_pos.1 <= lines@.len(),
            rows_len(lines@, cursor_pos.1 as int) + cursor_pos.0 <= usize::MAX,
        ensures
            r == rows_len(lines@, cursor_pos.1 as int) + cursor_pos.0,
    {
        let (x, y) = cursor_pos;
        let mut line_start: usize = 0;
        let mut i: usize = 0;
        while i < y
            invariant
                i <= y,
                y <= lines@.len(),
                line_start == rows_len(lines@, i as int),
                rows_len(lines@, y as int) + x <= usize::MAX,
            decreases y - i,
        {
            proof {
                lemma_rows_len_monotone(lines@, i + 1, y as int);
            }
            line_start = line_start + lines[i] + 1;
            i += 1;
        }
        line_start + x
    }
}

/// Whether an action only moves the cursor.
pub open spec fn is_move(action: Actions) -> bool {
    ||| action is MoveLeft
    ||| action is MoveRight
    ||| action is MoveUp
    ||| action is MoveDown
}

/// The cursor after the actions, applied in order to the text `s`.
pub open spec fn cursor_after(s: Seq<char>, actions: Seq<Actions>, col: int, row: int) -> (
    int,
    int,
)
    decreases actions.len(),
{
    if actions.len() == 0 {
        (col, row)
    } else {
        let before = cursor_after(s, actions.drop_last(), col, row);
        let after = apply_action(actions.last(), s, before.0, before.1);
        (after.1, after.2)
    }
}

proof fn lemma_moves_valid_all(s: Seq<char>, moves: Seq<Actions>, col: int, row: int)
    requires
        valid_position(s, col, row),
        forall|i: int| 0 <= i < moves.len() ==> is_move(#[trigger] moves[i]),
    ensures
        valid_position(s, cursor_after(s, moves, col, row).0, cursor_after(s, moves, col, row).1),
    decreases moves.len(),
{
    if moves.len() > 0 {
        let rest = moves.drop_last();
        assert(forall|i: int| 0 <= i < rest.len() ==> #[trigger] rest[i] == moves[i]);
        lemma_moves_valid_all(s, rest, col, row);
        let before = cursor_after(s, rest, col, row);
        lemma_moves_valid(s, before.0, before.1);
        assert(is_move(moves[moves.len() - 1]));
    }
}

/// Cursor movements keep the cursor inside the text: starting from a valid position, the
/// cursor is at a valid position after every step of any sequence of movements, and
/// movements leave the text as it is.
pub proof fn lemma_moves_stay_in_bounds(s: Seq<char>, moves: Seq<Actions>, col: int, row: int)
    requires
        valid_position(s, col, row),
        forall|i: int| 0 <= i < moves.len() ==> is_move(#[trigger] moves[i]),
    ensures
        forall|k: int|
            0 <= k <= moves.len() ==> valid_position(
                s,
                #[trigger] cursor_after(s, moves.take(k), col, row).0,
                cursor_after(s, moves.take(k), col, row).1,
            ),
        forall|i: int, c: int, r: int|
            0 <= i < moves.len() ==> (#[trigger] apply_action(moves[i], s, c, r)).0 == s,
{
    assert forall|k: int| 0 <= k <= moves.len() implies valid_position(
        s,
        #[trigger] cursor_after(s, moves.take(k), col, row).0,
        cursor_after(s, moves.take(k), col, row).1,
    ) by {
        let prefix = moves.take(k);
        assert(forall|i: int| 0 <= i < prefix.len() ==> #[trigger] prefix[i] == moves[i]);
        lemma_moves_valid_all(s, prefix, col, row);
    }
    assert forall|i: int, c: int, r: int| 0 <= i < moves.len() implies (#[trigger] apply_action(
        moves[i],
        s,
        c,
        r,
    )).0 == s by {
        assert(is_move(moves[i]));
    }
}

/// Splitting a line with a newline and then deleting at the start of the new line
/// restores the text and the cursor.
pub proof fn lemma_newline_delete_round_trip(s: Seq<char>, col: int, row: int)
    requires
        valid_position(s, col, row),
    ensures
        ({
            let t = apply_action(Actions::NewLine, s, col, row);
            apply_action(Actions::DeleteChar, t.0, t.1, t.2) == (s, col, row)
        }),
{
    let p = seq!['\n'];
    let ls = lines(s);
    let l = ls[row];
    let o = offset(s, col, row);
    assert(p.drop_last() =~= Seq::<char>::empty());
    assert(lines(p.drop_last()) =~= seq![Seq::<char>::empty()]);
    assert(p.last() == '\n');
    assert(lines(p) =~= seq![Seq::<char>::empty(), Seq::<char>::empty()]);
    lemma_split(s, col, row);
    lemma_insert(s, col, row, p);
    let s2 = insert_at(s, col, row, p);
    let head = ls.take(row) + seq![l.take(col) + lines(p)[0]] + lines(p).drop_first();
    assert(head.drop_last() =~= ls.take(row) + seq![l.take(col)]);
    assert(lines(s2).take(row + 1) =~= ls.take(row) + seq![l.take(col)]);
    assert(lines(s2)[row] =~= l.take(col));
    lemma_flat_append(ls.take(row), seq![l.take(col)]);
    lemma_flat_single(l.take(col));
    assert(offset(s2, 0, row + 1) == o + 1);
    assert(s2.remove(o) =~= s);
}

/// Typing a character and then deleting the character before the cursor restores the
/// text and the cursor.
pub proof fn lemma_insert_delete_round_trip(s: Seq<char>, col: int, row: int, c: char)
    requires
        valid_position(s, col, row),
    ensures
        ({
            let t = apply_action(Actions::InsertChar(c), s, col, row);
            apply_action(Actions::DeleteChar, t.0, t.1, t.2) == (s, col, row)
        }),
{
    if c == '\n' {
        lemma_newline_delete_round_trip(s, col, row);
    } else {
        let p = seq![c];
        let ls = lines(s);
        let l = ls[row];
        let o = offset(s, col, row);
        assert(p.drop_last() =~= Seq::<char>::empty());
        assert(lines(p.drop_last()) =~= seq![Seq::<char>::empty()]);
        assert(p.last() == c);
        assert(Seq::<char>::empty().push(c) =~= seq![c]);
        assert(lines(p) =~= seq![seq![c]]);
        lemma_split(s, col, row);
        lemma_insert(s, col, row, p);
        let s2 = insert_at(s, col, row, p);
        assert(lines(s2).take(row) =~= ls.take(row));
        assert(offset(s2, col + 1, row) == o + 1);
        assert(s2.remove(o) =~= s);
    }
}

/// Entering insert mode is only offered in normal mode, entering normal mode only in
/// insert mode, and no other action changes the mode.
pub proof fn lemma_mode_transitions(event: EditorInput, mode: Modes, action: Actions)
    ensures
        action_for_key(event, mode) == Some(Actions::EnterInsertMode) ==> mode == Modes::Normal,
        action_for_key(event, mode) == Some(Actions::EnterNormalMode) ==> mode == Modes::Insert,
        next_mode(action, mode) != mode ==> {
            ||| action == Actions::EnterInsertMode && mode == Modes::Normal
            ||| action == Actions::EnterNormalMode && mode == Modes::Insert
        },
{
}

} // verus!
