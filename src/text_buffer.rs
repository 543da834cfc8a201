//! The document buffer: the whole text as one sequence of characters, with the line
//! measurements and the splices that editing needs.
use vstd::prelude::*;

use crate::text::{flat, lemma_flat_take_step, lemma_lines_flat, line_count, line_len, lines};

verus! {

/// Relies on String::push: appends the character at the end of the string.
#[verifier::external_body]
pub(crate) fn push_char(s: &mut String, c: char)
    ensures
        final(s)@ == old(s)@.push(c),
{
    s.push(c);
}

/// The characters of a string, in order.
pub fn chars_of(s: &str) -> (r: Vec<char>)
    ensures
        r@ == s@,
{
    let mut r: Vec<char> = Vec::new();
    for c in it: s.chars()
        invariant
            r@ == it.seq().take(it.index() as int),
    {
        r.push(c);
    }
    r
}

/// A string holding the characters, in order.
pub fn string_of(cs: &Vec<char>) -> (r: String)
    ensures
        r@ == cs@,
{
    let mut r = String::new();
    let mut i: usize = 0;
    while i < cs.len()
        invariant
            i <= cs.len(),
            r@ == cs@.take(i as int),
        decreases cs.len() - i,
    {
        push_char(&mut r, cs[i]);
        i += 1;
        assert(r@ =~= cs@.take(i as int));
    }
    assert(cs@.take(i as int) =~= cs@);
    r
}

/// The document: the whole text as one sequence of characters, lines separated by
/// newlines. Its view is that sequence.
pub struct TextBuffer {
    contents: Vec<char>,
}

impl View for TextBuffer {
    type V = Seq<char>;

    closed spec fn view(&self) -> Seq<char> {
        self.contents@
    }
}

/// `lens` holds the length of each line of `s`, in order.
pub open spec fn lengths_of_lines(lens: Seq<usize>, s: Seq<char>) -> bool {
    &&& lens.len() == line_count(s)
    &&& forall|i: int| 0 <= i < lens.len() ==> #[trigger] lens[i] == line_len(s, i)
}

/// The lengths of the first `n` rows, each with its newline.
pub open spec fn rows_len(lens: Seq<usize>, n: int) -> int
    decreases n,
{
    if n <= 0 {
        0
    } else {
        rows_len(lens, n - 1) + lens[n - 1] + 1
    }
}

/// Summing the line lengths is measuring the rows written out.
pub proof fn lemma_rows_len(lens: Seq<usize>, s: Seq<char>, n: int)
    requires
        lengths_of_lines(lens, s),
        0 <= n <= lens.len(),
    ensures
        rows_len(lens, n) == flat(lines(s).take(n)).len(),
    decreases n,
{
    if n == 0 {
        assert(lines(s).take(0) =~= Seq::<Seq<char>>::empty());
    } else {
        lemma_rows_len(lens, s, n - 1);
        lemma_flat_take_step(lines(s), n - 1);
    }
}

/// Fewer rows measure no more.
pub proof fn lemma_rows_len_monotone(lens: Seq<usize>, m: int, n: int)
    requires
        0 <= m <= n <= lens.len(),
    ensures
        rows_len(lens, m) <= rows_len(lens, n),
    decreases n - m,
{
    if m < n {
        lemma_rows_len_monotone(lens, m, n - 1);
    }
}

impl TextBuffer {
    /// An empty document.
    pub fn new() -> (r: Self)
        ensures
            r@ == Seq::<char>::empty(),
    {
        TextBuffer { contents: Vec::new() }
    }

    /// Replaces the whole text.
    pub fn load_contents(&mut self, contents: String)
        ensures
            final(self)@ == contents@,
    {
        self.contents = chars_of(contents.as_str());
    }

    /// The whole text as one string.
    pub fn get_contents(&self) -> (r: String)
        ensures
            r@ == self@,
    {
        string_of(&self.contents)
    }

    /// Number of characters in the text.
    pub fn len(&self) -> (r: usize)
        ensures
            r == self@.len(),
    {
        self.contents.len()
    }

    pub fn is_empty(&self) -> (r: bool)
        ensures
            r == (self@.len() == 0),
    {
        self.contents.len() == 0
    }

    /// The length of each line, in one pass over the text.
    pub fn line_lengths(&self) -> (r: Vec<usize>)
        ensures
            lengths_of_lines(r@, self@),
    {
        let ghost s = self@;
        let n = self.contents.len();
        let mut lens: Vec<usize> = Vec::new();
        lens.push(0);
        assert(s.take(0) =~= Seq::<char>::empty());
        let mut i: usize = 0;
        while i < n
            invariant
                n == s.len(),
                s == self@,
                i <= n,
                lens@.len() == lines(s.take(i as int)).len(),
                forall|j: int| 0 <= j < lens@.len() ==> #[trigger] lens@[j] == lines(s.take(i as int))[j].len(),
                forall|j: int| 0 <= j < lens@.len() ==> #[trigger] lens@[j] <= i,
            decreases n - i,
        {
            let c = self.contents[i];
            proof {
                let t = s.take(i + 1);
                assert(t.drop_last() =~= s.take(i as int));
                assert(t.last() == c);
                lemma_lines_flat(s.take(i as int));
            }
            if c == '\n' {
                lens.push(0);
            } else {
                let k = lens.len() - 1;
                let v = lens[k] + 1;
                lens.set(k, v);
            }
            i += 1;
        }
        assert(s.take(n as int) =~= s);
        lens
    }

    /// Each line as a string, in order: what a renderer shows.
    pub fn line_strings(&self) -> (r: Vec<String>)
        ensures
            r@.len() == line_count(self@),
            forall|i: int| 0 <= i < r@.len() ==> #[trigger] r@[i]@ == lines(self@)[i],
    {
        let ghost s = self@;
        let n = self.contents.len();
        let mut done: Vec<String> = Vec::new();
        let mut cur = String::new();
        assert(s.take(0) =~= Seq::<char>::empty());
        let mut i: usize = 0;
        while i < n
            invariant
                n == s.len(),
                s == self@,
                i <= n,
                done@.len() + 1 == lines(s.take(i as int)).len(),
                forall|j: int| 0 <= j < done@.len() ==> #[trigger] done@[j]@ == lines(s.take(i as int))[j],
                cur@ == lines(s.take(i as int)).last(),
            decreases n - i,
        {
            let c = self.contents[i];
            proof {
                let t = s.take(i + 1);
                assert(t.drop_last() =~= s.take(i as int));
                assert(t.last() == c);
                lemma_lines_flat(s.take(i as int));
            }
            if c == '\n' {
                let line = cur;
                done.push(line);
                cur = String::new();
            } else {
                push_char(&mut cur, c);
            }
            i += 1;
        }
        done.push(cur);
        assert(s.take(n as int) =~= s);
        done
    }

    /// Splices `p` into the text before the character at `at`.
    pub fn insert_text(&mut self, at: usize, p: &Vec<char>)
        requires
            at <= old(self)@.len(),
        ensures
            final(self)@ == old(self)@.take(at as int) + p@ + old(self)@.skip(at as int),
    {
        let mut tail = self.contents.split_off(at);
        let mut middle = p.clone();
        self.contents.append(&mut middle);
        self.contents.append(&mut tail);
    }

    /// Takes out the character at `at`.
    pub fn remove_char(&mut self, at: usize)
        requires
            at < old(self)@.len(),
        ensures
            final(self)@ == old(self)@.remove(at as int),
    {
        self.contents.remove(at);
    }
}

/// How many newlines `p` holds, and the length of its last line.
pub fn last_line_of(p: &Vec<char>) -> (r: (usize, usize))
    ensures
        r.0 == lines(p@).len() - 1,
        r.1 == lines(p@).last().len(),
{
    let ghost s = p@;
    let n = p.len();
    let mut breaks: usize = 0;
    let mut tail: usize = 0;
    assert(s.take(0) =~= Seq::<char>::empty());
    let mut i: usize = 0;
    while i < n
        invariant
            n == s.len(),
            s == p@,
            i <= n,
            breaks == lines(s.take(i as int)).len() - 1,
            tail == lines(s.take(i as int)).last().len(),
            breaks <= i,
            tail <= i,
        decreases n - i,
    {
        let c = p[i];
        proof {
            let t = s.take(i + 1);
            assert(t.drop_last() =~= s.take(i as int));
            assert(t.last() == c);
            lemma_lines_flat(s.take(i as int));
        }
        if c == '\n' {
            breaks += 1;
            tail = 0;
        } else {
            tail += 1;
        }
        i += 1;
    }
    assert(s.take(n as int) =~= s);
    (breaks, tail)
}

} // verus!
