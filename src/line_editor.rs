//! A small modal editor that keeps its text as a list of lines and handles typing
//! itself; cursor movement, mode changes and quitting are handed back to its caller.
use std::collections::VecDeque;

use vstd::prelude::*;

use crate::keymap::{EditorInput, Modes};
use crate::text_buffer::push_char;
use crate::text::{
    delete_before, flat, insert_at, lemma_delete, lemma_insert, lemma_lines_unique, lines,
    position_after_delete, position_after_insert, proper_lines, valid_position,
};

verus! {

/// What a key asks of the caller of the line editor.
#[derive(Debug, Clone, Copy, PartialEq, Eq, Structural)]
pub enum EditorAction {
    Quit,
    Up,
    Down,
    Left,
    Right,
    EnterMode(Modes),
}

/// The key table of the line editor: `q` quits and `hjkl` or the arrows move in normal
/// mode, `i` enters insert mode; in insert mode the arrows move and escape leaves.
pub open spec fn key_action(key: EditorInput, mode: Modes) -> Option<EditorAction> {
    match key {
        EditorInput::LeftArrow => Some(EditorAction::Left),
        EditorInput::DownArrow => Some(EditorAction::Down),
        EditorInput::UpArrow => Some(EditorAction::Up),
        EditorInput::RightArrow => Some(EditorAction::Right),
        EditorInput::Char(c) => if mode == Modes::Insert {
            None
        } else if c == 'q' {
            Some(EditorAction::Quit)
        } else if c == 'h' {
            Some(EditorAction::Left)
        } else if c == 'j' {
            Some(EditorAction::Down)
        } else if c == 'k' {
            Some(EditorAction::Up)
        } else if c == 'l' {
            Some(EditorAction::Right)
        } else if c == 'i' {
            Some(EditorAction::EnterMode(Modes::Insert))
        } else {
            None
        },
        EditorInput::Escape => if mode == Modes::Insert {
            Some(EditorAction::EnterMode(Modes::Normal))
        } else {
            None
        },
        _ => None,
    }
}

/// The lines after a deletion before (`col`, `row`), and the cursor after it.
pub open spec fn rows_after_delete(rows: Seq<Seq<char>>, col: int, row: int) -> (
    Seq<Seq<char>>,
    int,
    int,
) {
    if col > 0 {
        (rows.update(row, rows[row].remove(col - 1)), col - 1, row)
    } else if row > 0 {
        (
            rows.remove(row).update(row - 1, rows[row - 1] + rows[row]),
            rows[row - 1].len() as int,
            row - 1,
        )
    } else {
        (rows, col, row)
    }
}

/// The lines after splitting line `row` at `col`.
pub open spec fn rows_after_split(rows: Seq<Seq<char>>, col: int, row: int) -> Seq<Seq<char>> {
    rows.update(row, rows[row].take(col)).insert(row + 1, rows[row].skip(col))
}

/// A string holding the characters of a line, in order.
fn line_string(line: &VecDeque<char>) -> (r: String)
    ensures
        r@ == line@,
{
    let mut r = String::new();
    let mut i: usize = 0;
    while i < line.len()
        invariant
            i <= line@.len(),
            r@ == line@.take(i as int),
        decreases line@.len() - i,
    {
        push_char(&mut r, line[i]);
        i += 1;
        assert(r@ =~= line@.take(i as int));
    }
    assert(line@.take(i as int) =~= line@);
    r
}

/// A small editor over a list of lines.
pub struct Editor {
    content: VecDeque<VecDeque<char>>,
    cursor_x: usize,
    cursor_y: usize,
}

impl Editor {
    /// The lines.
    pub closed spec fn rows(&self) -> Seq<Seq<char>> {
        self.content@.map_values(|l: VecDeque<char>| l@)
    }

    /// The cursor's column.
    pub closed spec fn col(&self) -> int {
        self.cursor_x as int
    }

    /// The cursor's row.
    pub closed spec fn row(&self) -> int {
        self.cursor_y as int
    }

    /// At least one line, and the cursor on a line, at most just past its end.
    pub open spec fn wf(&self) -> bool {
        &&& self.rows().len() >= 1
        &&& 0 <= self.row() < self.rows().len()
        &&& 0 <= self.col() <= self.rows()[self.row()].len()
    }

    /// An editor holding one empty line, the cursor at its start.
    pub fn new() -> (r: Self)
        ensures
            r.wf(),
            r.rows() == seq![Seq::<char>::empty()],
            r.col() == 0,
            r.row() == 0,
    {
        let mut content: VecDeque<VecDeque<char>> = VecDeque::new();
        content.push_back(VecDeque::new());
        let r = Editor { content, cursor_x: 0, cursor_y: 0 };
        assert(r.rows() =~= seq![Seq::<char>::empty()]);
        r
    }

    /// The cursor as (column, row).
    pub fn cursor(&self) -> (r: (usize, usize))
        ensures
            r.0 == self.col(),
            r.1 == self.row(),
    {
        (self.cursor_x, self.cursor_y)
    }

    /// The lines, for drawing.
    pub fn line_strings(&self) -> (r: Vec<String>)
        ensures
            r@.len() == self.rows().len(),
            forall|i: int| 0 <= i < r@.len() ==> #[trigger] r@[i]@ == self.rows()[i],
    {
        let mut out: Vec<String> = Vec::new();
        let mut i: usize = 0;
        while i < self.content.len()
            invariant
                i <= self.content@.len(),
                out@.len() == i,
                forall|j: int| 0 <= j < i ==> #[trigger] out@[j]@ == self.rows()[j],
            decreases self.content@.len() - i,
        {
            out.push(line_string(&self.content[i]));
            i += 1;
        }
        out
    }

    /// What a key means in the given mode, if the editor hands it back.
    fn map_key_to_action(key: &EditorInput, mode: &Modes) -> (r: Option<EditorAction>)
        ensures
            r == key_action(*key, *mode),
    {
        match key {
            EditorInput::LeftArrow => Some(EditorAction::Left),
            EditorInput::DownArrow => Some(EditorAction::Down),
            EditorInput::UpArrow => Some(EditorAction::Up),
            EditorInput::RightArrow => Some(EditorAction::Right),
            EditorInput::Char(c) => match mode {
                Modes::Insert => None,
                Modes::Normal => {
                    let c = *c;
                    if c == 'q' {
                        Some(EditorAction::Quit)
                    } else if c == 'h' {
                        Some(EditorAction::Left)
                    } else if c == 'j' {
                        Some(EditorAction::Down)
                    } else if c == 'k' {
                        Some(EditorAction::Up)
                    } else if c == 'l' {
                        Some(EditorAction::Right)
                    } else if c == 'i' {
                        Some(EditorAction::EnterMode(Modes::Insert))
                    } else {
                        None
                    }
                },
            },
            EditorInput::Escape => match mode {
                Modes::Insert => Some(EditorAction::EnterMode(Modes::Normal)),
                Modes::Normal => None,
            },
            _ => None,
        }
    }

    /// Handles one input event in the given mode. A key of the key table is handed back
    /// as an action; otherwise, in insert mode, a character is typed, backspace deletes
    /// and enter splits the line; anything else is ignored.
    pub fn handle_modes(&mut self, mode: &Modes, ev: &EditorInput) -> (r: Option<EditorAction>)
        requires
            old(self).wf(),
        ensures
            final(self).wf(),
            r == key_action(*ev, *mode),
            r is None && *mode == Modes::Insert && ev is Char ==> final(self).rows() == old(
                self,
            ).rows().update(old(self).row(), old(self).rows()[old(self).row()].insert(old(self).col(), ev->Char_0))
                && final(self).col() == old(self).col() + 1 && final(self).row() == old(self).row(),
            r is None && *mode == Modes::Insert && ev is Backspace ==> (
                final(self).rows(),
                final(self).col(),
                final(self).row(),
            ) == rows_after_delete(old(self).rows(), old(self).col(), old(self).row()),
            r is None && *mode == Modes::Insert && ev is Enter ==> final(self).rows()
                == rows_after_split(old(self).rows(), old(self).col(), old(self).row())
                && final(self).col() == 0 && final(self).row() == old(self).row() + 1,
            !(r is None && *mode == Modes::Insert && (ev is Char || ev is Backspace || ev is Enter))
                ==> *final(self) == *old(self),
    {
        if let Some(action) = Self::map_key_to_action(ev, mode) {
            return Some(action);
        }
        match mode {
            Modes::Normal => None,
            Modes::Insert => match ev {
                EditorInput::Char(c) => {
                    self.insert_char(*c);
                    None
                },
                EditorInput::Backspace => {
                    self.delete_char();
                    None
                },
                EditorInput::Enter => {
                    self.insert_newline();
                    None
                },
                _ => None,
            },
        }
    }

    /// Carries out an action handed back by `handle_modes`. Returns whether the editor
    /// should quit.
    pub fn perform(&mut self, action: EditorAction, mode: &mut Modes) -> (quit: bool)
        requires
            old(self).wf(),
        ensures
            final(self).wf(),
            quit == (action == EditorAction::Quit),
            final(self).rows() == old(self).rows(),
            action is EnterMode ==> *final(mode) == action->EnterMode_0 && final(self).col()
                == old(self).col() && final(self).row() == old(self).row(),
            !(action is EnterMode) ==> *final(mode) == *old(mode),
            action == EditorAction::Up ==> (final(self).col(), final(self).row()) == (
                if old(self).row() > 0 {
                    (
                        if old(self).col() <= old(self).rows()[old(self).row() - 1].len() {
                            old(self).col()
                        } else {
                            old(self).rows()[old(self).row() - 1].len() as int
                        },
                        old(self).row() - 1,
                    )
                } else {
                    (old(self).col(), old(self).row())
                }
            ),
            action == EditorAction::Down ==> (final(self).col(), final(self).row()) == (
                if old(self).row() < old(self).rows().len() - 1 {
                    (
                        if old(self).col() <= old(self).rows()[old(self).row() + 1].len() {
                            old(self).col()
                        } else {
                            old(self).rows()[old(self).row() + 1].len() as int
                        },
                        old(self).row() + 1,
                    )
                } else {
                    (old(self).col(), old(self).row())
                }
            ),
            action == EditorAction::Left ==> (final(self).col(), final(self).row()) == (
                if old(self).col() > 0 {
                    (old(self).col() - 1, old(self).row())
                } else if old(self).row() > 0 {
                    (old(self).rows()[old(self).row() - 1].len() as int, old(self).row() - 1)
                } else {
                    (old(self).col(), old(self).row())
                }
            ),
            action == EditorAction::Right ==> (final(self).col(), final(self).row()) == (
                if old(self).col() < old(self).rows()[old(self).row()].len() {
                    (old(self).col() + 1, old(self).row())
                } else if old(self).row() < old(self).rows().len() - 1 {
                    (0, old(self).row() + 1)
                } else {
                    (old(self).col(), old(self).row())
                }
            ),
            action == EditorAction::Quit ==> *final(self) == *old(self),
    {
        match action {
            EditorAction::Quit => true,
            EditorAction::Up => {
                self.move_cursor_up();
                false
            },
            EditorAction::Down => {
                self.move_cursor_down();
                false
            },
            EditorAction::Left => {
                self.move_cursor_left();
                false
            },
            EditorAction::Right => {
                self.move_cursor_right();
                false
            },
            EditorAction::EnterMode(new_mode) => {
                *mode = new_mode;
                false
            },
        }
    }

    /// Takes line `y` out of the list.
    fn take_line(&mut self, y: usize) -> (line: VecDeque<char>)
        requires
            y < old(self).content@.len(),
        ensures
            line == old(self).content@[y as int],
            final(self).content@ == old(self).content@.remove(y as int),
            final(self).cursor_x == old(self).cursor_x,
            final(self).cursor_y == old(self).cursor_y,
    {
        match self.content.remove(y) {
            Some(line) => line,
            None => VecDeque::new(),
        }
    }

    /// Inserts a character at the cursor.
    fn insert_char(&mut self, c: char)
        requires
            old(self).wf(),
        ensures
            final(self).wf(),
            final(self).rows() == old(self).rows().update(
                old(self).row(),
                old(self).rows()[old(self).row()].insert(old(self).col(), c),
            ),
            final(self).col() == old(self).col() + 1,
            final(self).row() == old(self).row(),
    {
        let ghost rows = self.rows();
        let y = self.cursor_y;
        let mut line = self.take_line(y);
        line.insert(self.cursor_x, c);
        let _len = line.len();
        self.content.insert(y, line);
        self.cursor_x += 1;
        assert(self.rows() =~= rows.update(y as int, rows[y as int].insert(old(self).col(), c)));
    }

    /// Deletes the character before the cursor; at the start of a line, joins the line
    /// to the one above.
    fn delete_char(&mut self)
        requires
            old(self).wf(),
        ensures
            final(self).wf(),
            (final(self).rows(), final(self).col(), final(self).row()) == rows_after_delete(
                old(self).rows(),
                old(self).col(),
                old(self).row(),
            ),
    {
        let ghost rows = self.rows();
        if self.cursor_x > 0 {
            self.cursor_x -= 1;
            let y = self.cursor_y;
            let mut line = self.take_line(y);
            let _removed = line.remove(self.cursor_x);
            self.content.insert(y, line);
            assert(self.rows() =~= rows.update(y as int, rows[y as int].remove(self.col())));
        } else if self.cursor_y > 0 {
            let mut line = self.take_line(self.cursor_y);
            self.cursor_y -= 1;
            let y = self.cursor_y;
            let mut above = self.take_line(y);
            self.cursor_x = above.len();
            above.append(&mut line);
            self.content.insert(y, above);
            assert(self.rows() =~= rows.remove(y + 1).update(y as int, rows[y as int] + rows[y + 1]));
        }
    }

    /// Splits the line at the cursor and moves to the start of the new line.
    fn insert_newline(&mut self)
        requires
            old(self).wf(),
        ensures
            final(self).wf(),
            final(self).rows() == rows_after_split(old(self).rows(), old(self).col(), old(self).row()),
            final(self).col() == 0,
            final(self).row() == old(self).row() + 1,
    {
        let ghost rows = self.rows();
        let y = self.cursor_y;
        let mut line = self.take_line(y);
        let remainder = line.split_off(self.cursor_x);
        self.content.insert(y, line);
        let _rows = self.content.len();
        self.content.insert(y + 1, remainder);
        self.cursor_y += 1;
        self.cursor_x = 0;
        assert(self.rows() =~= rows_after_split(rows, old(self).col(), old(self).row()));
    }

    fn move_cursor_up(&mut self)
        requires
            old(self).wf(),
        ensures
            final(self).wf(),
            final(self).rows() == old(self).rows(),
            (final(self).col(), final(self).row()) == (if old(self).row() > 0 {
                (
                    if old(self).col() <= old(self).rows()[old(self).row() - 1].len() {
                        old(self).col()
                    } else {
                        old(self).rows()[old(self).row() - 1].len() as int
                    },
                    old(self).row() - 1,
                )
            } else {
                (old(self).col(), old(self).row())
            }),
    {
        if self.cursor_y > 0 {
            self.cursor_y -= 1;
            let len = self.content[self.cursor_y].len();
            if self.cursor_x > len {
                self.cursor_x = len;
            }
        }
    }

    fn move_cursor_down(&mut self)
        requires
            old(self).wf(),
        ensures
            final(self).wf(),
            final(self).rows() == old(self).rows(),
            (final(self).col(), final(self).row()) == (if old(self).row() < old(self).rows().len()
                - 1 {
                (
                    if old(self).col() <= old(self).rows()[old(self).row() + 1].len() {
                        old(self).col()
                    } else {
                        old(self).rows()[old(self).row() + 1].len() as int
                    },
                    old(self).row() + 1,
                )
            } else {
                (old(self).col(), old(self).row())
            }),
    {
        if self.cursor_y < self.content.len() - 1 {
            self.cursor_y += 1;
            let len = self.content[self.cursor_y].len();
            if self.cursor_x > len {
                self.cursor_x = len;
            }
        }
    }

    fn move_cursor_left(&mut self)
        requires
            old(self).wf(),
        ensures
            final(self).wf(),
            final(self).rows() == old(self).rows(),
            (final(self).col(), final(self).row()) == (if old(self).col() > 0 {
                (old(self).col() - 1, old(self).row())
            } else if old(self).row() > 0 {
                (old(self).rows()[old(self).row() - 1].len() as int, old(self).row() - 1)
            } else {
                (old(self).col(), old(self).row())
            }),
    {
        if self.cursor_x > 0 {
            self.cursor_x -= 1;
        } else if self.cursor_y > 0 {
            self.cursor_y -= 1;
            self.cursor_x = self.content[self.cursor_y].len();
        }
    }

    fn move_cursor_right(&mut self)
        requires
            old(self).wf(),
        ensures
            final(self).wf(),
            final(self).rows() == old(self).rows(),
            (final(self).col(), final(self).row()) == (if old(self).col() < old(self).rows()[old(
                self,
            ).row()].len() {
                (old(self).col() + 1, old(self).row())
            } else if old(self).row() < old(self).rows().len() - 1 {
                (0, old(self).row() + 1)
            } else {
                (old(self).col(), old(self).row())
            }),
    {
        if self.cursor_x < self.content[self.cursor_y].len() {
            self.cursor_x += 1;
        } else if self.cursor_y < self.content.len() - 1 {
            self.cursor_y += 1;
            self.cursor_x = 0;
        }
    }
}

/// The text that lines stand for: the lines joined with newlines.
pub open spec fn text_of(rows: Seq<Seq<char>>) -> Seq<char> {
    flat(rows).drop_last()
}

/// On lines without newlines, the line editor edits as the document does: typing a
/// character other than a newline, splitting a line and deleting give the lines of the
/// same edit on the joined text, and the same cursor.
pub proof fn lemma_agrees_with_document(rows: Seq<Seq<char>>, col: int, row: int, c: char)
    requires
        proper_lines(rows),
        0 <= row < rows.len(),
        0 <= col <= rows[row].len(),
        c != '\n',
    ensures
        lines(text_of(rows)) == rows,
        valid_position(text_of(rows), col, row),
        lines(insert_at(text_of(rows), col, row, seq![c])) == rows.update(
            row,
            rows[row].insert(col, c),
        ),
        position_after_insert(col, row, seq![c]) == (col + 1, row),
        lines(insert_at(text_of(rows), col, row, seq!['\n'])) == rows_after_split(rows, col, row),
        position_after_insert(col, row, seq!['\n']) == (0int, row + 1),
        ({
            let d = rows_after_delete(rows, col, row);
            &&& lines(delete_before(text_of(rows), col, row)) == d.0
            &&& position_after_delete(text_of(rows), col, row) == (d.1, d.2)
        }),
{
    let s = text_of(rows);
    let l = rows[row];
    assert(flat(rows) == flat(rows.drop_last()) + rows.last().push('\n'));
    assert(flat(rows) =~= s.push('\n'));
    lemma_lines_unique(s, rows);
    let pc = seq![c];
    assert(pc.drop_last() =~= Seq::<char>::empty());
    assert(lines(pc.drop_last()) =~= seq![Seq::<char>::empty()]);
    assert(Seq::<char>::empty().push(c) =~= pc);
    assert(lines(pc) =~= seq![pc]);
    lemma_insert(s, col, row, pc);
    assert(l.take(col) + pc + l.skip(col) =~= l.insert(col, c));
    assert(lines(insert_at(s, col, row, pc)) =~= rows.update(row, l.insert(col, c)));
    let pn = seq!['\n'];
    assert(pn.drop_last() =~= Seq::<char>::empty());
    assert(lines(pn.drop_last()) =~= seq![Seq::<char>::empty()]);
    assert(lines(pn) =~= seq![Seq::<char>::empty(), Seq::<char>::empty()]);
    lemma_insert(s, col, row, pn);
    assert(l.take(col) + Seq::<char>::empty() =~= l.take(col));
    assert(Seq::<char>::empty() + l.skip(col) =~= l.skip(col));
    assert(lines(insert_at(s, col, row, pn)) =~= rows_after_split(rows, col, row));
    lemma_delete(s, col, row);
    if col > 0 {
        assert(l.take(col - 1) + l.skip(col) =~= l.remove(col - 1));
    }
    assert(lines(delete_before(s, col, row)) =~= rows_after_delete(rows, col, row).0);
}

/// In the line editor, typing a character and then deleting the character before the
/// cursor restores the lines and the cursor.
pub proof fn lemma_line_insert_delete_round_trip(rows: Seq<Seq<char>>, col: int, row: int, c: char)
    requires
        0 <= row < rows.len(),
        0 <= col <= rows[row].len(),
    ensures
        rows_after_delete(rows.update(row, rows[row].insert(col, c)), col + 1, row) == (
            rows,
            col,
            row,
        ),
{
    let l = rows[row];
    assert(l.insert(col, c).remove(col) =~= l);
    assert(rows.update(row, l.insert(col, c)).update(row, l) =~= rows);
}

/// In the line editor, splitting a line and then deleting at the start of the new line
/// rejoins the line and restores the cursor.
pub proof fn lemma_line_split_delete_round_trip(rows: Seq<Seq<char>>, col: int, row: int)
    requires
        0 <= row < rows.len(),
        0 <= col <= rows[row].len(),
    ensures
        rows_after_delete(rows_after_split(rows, col, row), 0, row + 1) == (rows, col, row),
{
    let l = rows[row];
    let split = rows_after_split(rows, col, row);
    assert(l.take(col) + l.skip(col) =~= l);
    assert(split.remove(row + 1) =~= rows.update(row, l.take(col)));
    assert(split.remove(row + 1).update(row, split[row] + split[row + 1]) =~= rows);
}

/// In the line editor, entering insert mode is offered only for `i` in normal mode,
/// entering normal mode only for escape in insert mode; `perform` changes the mode for
/// these actions alone.
pub proof fn lemma_line_mode_keys(key: EditorInput, mode: Modes)
    ensures
        key_action(key, mode) == Some(EditorAction::EnterMode(Modes::Insert)) <==> (mode
            == Modes::Normal && key == EditorInput::Char('i')),
        key_action(key, mode) == Some(EditorAction::EnterMode(Modes::Normal)) <==> (mode
            == Modes::Insert && key == EditorInput::Escape),
{
}

} // verus!
