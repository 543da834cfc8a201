//! The editing session: a document, its cursor, the mode and the status bar, driven one
//! input event at a time.
use vstd::prelude::*;

use crate::keymap::{apply_action, next_mode, action_for_key};
use crate::status::{mode_name, scratch_name};
use crate::text::valid_position;
use crate::text_buffer::TextBuffer;

pub use crate::keymap::{Actions, EditorInput, Keymap, Modes};
pub use crate::status::StatusBar;

verus! {

/// One editing session over a document.
pub struct MainScreen {
    /// The document.
    pub text: TextBuffer,
    /// The current mode.
    pub mode: Modes,
    /// The cursor's column, in characters from the start of the line.
    pub cursor_x: usize,
    /// The cursor's row.
    pub cursor_y: usize,
    /// What the status line shows.
    pub status_bar: StatusBar,
    /// Yanked text.
    pub yank: Vec<String>,
}

impl MainScreen {
    /// The cursor stands inside the document.
    pub open spec fn wf(&self) -> bool {
        valid_position(self.text@, self.cursor_x as int, self.cursor_y as int)
    }

    /// A session over `content`: normal mode, cursor at the start, no file name, nothing
    /// yanked.
    pub fn new_with_widget(content: TextBuffer) -> (r: Self)
        ensures
            r.wf(),
            r.text@ == content@,
            r.mode == Modes::Normal,
            r.cursor_x == 0,
            r.cursor_y == 0,
            r.status_bar.status_mode@ == mode_name(Modes::Normal),
            r.status_bar.filename@ == scratch_name(),
            r.yank@.len() == 0,
    {
        proof {
            crate::text::lemma_lines_flat(content@);
        }
        MainScreen {
            text: content,
            mode: Modes::Normal,
            cursor_x: 0,
            cursor_y: 0,
            status_bar: StatusBar::default(),
            yank: Vec::new(),
        }
    }

    /// Handles one input event: looks up its action in the current mode, applies the action if
    /// there is one, and shows the new mode in the status bar. Returns whether the screen
    /// needs drawing again, which is always the case.
    pub fn process_event(&mut self, event: &EditorInput) -> (r: bool)
        requires
            old(self).wf(),
        ensures
            r,
            final(self).wf(),
            final(self).yank == old(self).yank,
            final(self).status_bar.filename == old(self).status_bar.filename,
            match action_for_key(*event, old(self).mode) {
                None => *final(self) == *old(self),
                Some(action) => {
                    &&& (final(self).text@, final(self).cursor_x as int, final(self).cursor_y as int)
                        == apply_action(
                        action,
                        old(self).text@,
                        old(self).cursor_x as int,
                        old(self).cursor_y as int,
                    )
                    &&& final(self).mode == next_mode(action, old(self).mode)
                    &&& final(self).status_bar.status_mode@ == mode_name(final(self).mode)
                },
            },
    {
        if let Some(action) = Keymap::map_key_to_action(event, &self.mode) {
            Keymap::handle_action(
                action,
                &mut self.text,
                &mut self.cursor_x,
                &mut self.cursor_y,
                &mut self.mode,
            );
            self.status_bar.update(&self.mode);
        }
        true
    }

    /// The lines of the document, for drawing.
    pub fn visible_lines(&self) -> (r: Vec<String>)
        ensures
            r@.len() == crate::text::line_count(self.text@),
            forall|i: int| 0 <= i < r@.len() ==> #[trigger] r@[i]@ == crate::text::lines(self.text@)[i],
    {
        self.text.line_strings()
    }

    /// The status line for a screen `width` characters wide.
    pub fn status_line(&self, width: usize) -> (r: String)
        ensures
            r@ == crate::status::status_line(
                self.status_bar.status_mode@,
                self.status_bar.filename@,
                self.cursor_x as int,
                self.cursor_y as int,
                width as int,
            ),
    {
        self.status_bar.render(width, self.cursor_x, self.cursor_y)
    }
}

} // verus!
