//! An editor that holds one document.
use vstd::prelude::*;

use crate::text_buffer::TextBuffer;

verus! {

/// An editor over one document. Its view is the document's text.
pub struct Editor {
    text_buffer: TextBuffer,
}

impl View for Editor {
    type V = Seq<char>;

    closed spec fn view(&self) -> Seq<char> {
        self.text_buffer@
    }
}

impl Editor {
    /// An editor over an empty document.
    pub fn new() -> (r: Self)
        ensures
            r@ == Seq::<char>::empty(),
    {
        Editor { text_buffer: TextBuffer::new() }
    }

    /// Replaces the document's text.
    pub fn load_contents(&mut self, contents: String)
        ensures
            final(self)@ == contents@,
    {
        self.text_buffer.load_contents(contents);
    }

    /// The document's text.
    pub fn get_contents(&self) -> (r: String)
        ensures
            r@ == self@,
    {
        self.text_buffer.get_contents()
    }
}

} // verus!
