//! The mathematical model of a document: a sequence of characters whose lines are
//! what lies between newlines. A cursor position is a (column, row) pair counted in
//! characters, and maps to a character offset in the text.
use vstd::prelude::*;

verus! {

/// The lines of a text, split at each newline. The empty text is one empty line;
/// a text that ends in a newline ends in an empty line.
pub open spec fn lines(s: Seq<char>) -> Seq<Seq<char>>
    decreases s.len(),
{
    if s.len() == 0 {
        seq![Seq::<char>::empty()]
    } else {
        let prev = lines(s.drop_last());
        if s.last() == '\n' {
            prev.push(Seq::<char>::empty())
        } else {
            prev.update(prev.len() - 1, prev.last().push(s.last()))
        }
    }
}

/// The lines written out one after another, each followed by a newline.
pub open spec fn flat(ls: Seq<Seq<char>>) -> Seq<char>
    decreases ls.len(),
{
    if ls.len() == 0 {
        Seq::<char>::empty()
    } else {
        flat(ls.drop_last()) + ls.last().push('\n')
    }
}

/// A line holds no newline.
pub open spec fn no_newline(l: Seq<char>) -> bool {
    forall|i: int| 0 <= i < l.len() ==> l[i] != '\n'
}

/// A sequence of lines that some text splits into: at least one line, none holding a newline.
pub open spec fn proper_lines(ls: Seq<Seq<char>>) -> bool {
    &&& ls.len() >= 1
    &&& forall|i: int| 0 <= i < ls.len() ==> #[trigger] no_newline(ls[i])
}

pub open spec fn line_count(s: Seq<char>) -> int {
    lines(s).len() as int
}

/// Length in characters of line `row`.
pub open spec fn line_len(s: Seq<char>, row: int) -> int {
    lines(s)[row].len() as int
}

/// A cursor position inside the text: an existing row, and a column from the start of
/// that line up to just past its last character.
pub open spec fn valid_position(s: Seq<char>, col: int, row: int) -> bool {
    &&& 0 <= row < line_count(s)
    &&& 0 <= col <= line_len(s, row)
}

/// The character offset of a position: the lengths of the rows above it, each with its
/// newline, plus the column.
pub open spec fn offset(s: Seq<char>, col: int, row: int) -> int {
    flat(lines(s).take(row)).len() + col
}

/// Writing out a concatenation of lines is concatenating what the parts write out.
pub proof fn lemma_flat_append(a: Seq<Seq<char>>, b: Seq<Seq<char>>)
    ensures
        flat(a + b) == flat(a) + flat(b),
    decreases b.len(),
{
    if b.len() == 0 {
        assert(a + b =~= a);
        assert(flat(a) + flat(b) =~= flat(a));
    } else {
        assert((a + b).drop_last() =~= a + b.drop_last());
        assert((a + b).last() == b.last());
        lemma_flat_append(a, b.drop_last());
        assert(flat(a + b) =~= flat(a) + flat(b));
    }
}

/// One line written out.
pub proof fn lemma_flat_single(l: Seq<char>)
    ensures
        flat(seq![l]) == l.push('\n'),
{
    assert(seq![l].drop_last() =~= Seq::<Seq<char>>::empty());
    assert(flat(Seq::<Seq<char>>::empty()) =~= Seq::<char>::empty());
    assert(flat(seq![l]) =~= l.push('\n'));
}

/// The lines of a text are proper, and writing them out gives back the text and a newline.
pub proof fn lemma_lines_flat(s: Seq<char>)
    ensures
        proper_lines(lines(s)),
        flat(lines(s)) == s.push('\n'),
    decreases s.len(),
{
    if s.len() == 0 {
        lemma_flat_single(Seq::<char>::empty());
        assert(lines(s) == seq![Seq::<char>::empty()]);
        assert(s.push('\n') =~= seq!['\n']);
        assert(Seq::<char>::empty().push('\n') =~= seq!['\n']);
        assert(no_newline(lines(s)[0]));
    } else {
        let p = s.drop_last();
        let ch = s.last();
        let prev = lines(p);
        lemma_lines_flat(p);
        assert(s =~= p.push(ch));
        if ch == '\n' {
            let ls = prev.push(Seq::<char>::empty());
            assert(lines(s) == ls);
            assert(ls.drop_last() =~= prev);
            assert(flat(ls) =~= s.push('\n'));
            assert forall|i: int| 0 <= i < ls.len() implies #[trigger] no_newline(ls[i]) by {
                if i < prev.len() {
                    assert(no_newline(prev[i]));
                }
            }
        } else {
            let n = prev.len() - 1;
            let ls = prev.update(n, prev.last().push(ch));
            assert(lines(s) == ls);
            assert(ls.drop_last() =~= prev.drop_last());
            assert(flat(prev) == flat(prev.drop_last()) + prev.last().push('\n'));
            assert(flat(prev.drop_last()) + prev.last() =~= p) by {
                assert(flat(prev.drop_last()) + prev.last() =~= (p.push('\n')).drop_last());
            }
            assert(flat(ls) =~= s.push('\n')) by {
                assert(flat(ls) == flat(prev.drop_last()) + prev.last().push(ch).push('\n'));
            }
            assert forall|i: int| 0 <= i < ls.len() implies #[trigger] no_newline(ls[i]) by {
                assert(no_newline(prev[i]));
                if i == n {
                    assert(no_newline(prev.last()));
                }
            }
        }
    }
}

/// Proper lines `a`, written out, followed by a line `l`, split into `a` and `l`.
proof fn lemma_lines_of_flat(a: Seq<Seq<char>>, l: Seq<char>)
    requires
        forall|i: int| 0 <= i < a.len() ==> #[trigger] no_newline(a[i]),
        no_newline(l),
    ensures
        lines(flat(a) + l) == a.push(l),
    decreases a.len(), l.len(),
{
    let t = flat(a) + l;
    if l.len() > 0 {
        assert(t.drop_last() =~= flat(a) + l.drop_last());
        assert(t.last() == l.last());
        lemma_lines_of_flat(a, l.drop_last());
        assert(l.drop_last().push(l.last()) =~= l);
        assert(lines(t) =~= a.push(l));
    } else if a.len() > 0 {
        let b = a.drop_last();
        assert(forall|i: int| 0 <= i < b.len() ==> #[trigger] b[i] == a[i]);
        assert(no_newline(a[a.len() - 1]));
        lemma_lines_of_flat(b, a.last());
        assert(t =~= flat(a));
        assert(t.drop_last() =~= flat(b) + a.last());
        assert(t.last() == '\n');
        assert(b.push(a.last()) =~= a);
        assert(l =~= Seq::<char>::empty());
        assert(lines(t) =~= a.push(l));
    } else {
        assert(t =~= Seq::<char>::empty());
        assert(lines(t) =~= a.push(l));
    }
}

/// Proper lines that write out as a text and a newline are that text's lines.
pub proof fn lemma_lines_unique(s: Seq<char>, ls: Seq<Seq<char>>)
    requires
        proper_lines(ls),
        flat(ls) == s.push('\n'),
    ensures
        lines(s) == ls,
{
    let a = ls.drop_last();
    assert(forall|i: int| 0 <= i < a.len() ==> #[trigger] a[i] == ls[i]);
    assert(no_newline(ls[ls.len() - 1]));
    lemma_lines_of_flat(a, ls.last());
    assert(flat(ls) == flat(a) + ls.last().push('\n'));
    assert(flat(a) + ls.last() =~= s) by {
        assert(flat(a) + ls.last() =~= (s.push('\n')).drop_last());
    }
    assert(a.push(ls.last()) =~= ls);
}

/// The lines of a concatenation: the last line of the first part joins the first line
/// of the second part.
pub proof fn lemma_lines_concat(a: Seq<char>, b: Seq<char>)
    ensures
        lines(a + b) == lines(a).drop_last() + seq![lines(a).last() + lines(b)[0]] + lines(
            b,
        ).drop_first(),
{
    let la = lines(a);
    let lb = lines(b);
    lemma_lines_flat(a);
    lemma_lines_flat(b);
    let mid = la.last() + lb[0];
    let ls = la.drop_last() + seq![mid] + lb.drop_first();
    assert(no_newline(la[la.len() - 1]));
    assert(no_newline(lb[0]));
    assert forall|i: int| 0 <= i < ls.len() implies #[trigger] no_newline(ls[i]) by {
        if i < la.len() - 1 {
            assert(ls[i] == la[i]);
            assert(no_newline(la[i]));
        } else if i == la.len() - 1 {
            assert(ls[i] == mid);
        } else {
            assert(ls[i] == lb[i - la.len() + 1]);
            assert(no_newline(lb[i - la.len() + 1]));
        }
    }
    lemma_flat_append(la.drop_last() + seq![mid], lb.drop_first());
    lemma_flat_append(la.drop_last(), seq![mid]);
    lemma_flat_single(mid);
    lemma_flat_append(seq![lb[0]], lb.drop_first());
    lemma_flat_single(lb[0]);
    assert(seq![lb[0]] + lb.drop_first() =~= lb);
    assert(flat(la) == flat(la.drop_last()) + la.last().push('\n'));
    assert(flat(la.drop_last()) + la.last() =~= a) by {
        assert(flat(la.drop_last()) + la.last() =~= (a.push('\n')).drop_last());
    }
    assert(flat(ls) =~= (a + b).push('\n'));
    lemma_lines_unique(a + b, ls);
}

/// Writing out one more row adds that row and its newline.
pub proof fn lemma_flat_take_step(ls: Seq<Seq<char>>, r: int)
    requires
        0 <= r < ls.len(),
    ensures
        flat(ls.take(r + 1)) == flat(ls.take(r)) + ls[r].push('\n'),
{
    assert(ls.take(r + 1).drop_last() =~= ls.take(r));
}

/// The text around a valid position: before it, the rows above and the start of the
/// current row; after it, the rest of the current row and the rows below.
pub proof fn lemma_split(s: Seq<char>, col: int, row: int)
    requires
        valid_position(s, col, row),
    ensures
        0 <= offset(s, col, row) <= s.len(),
        lines(s.take(offset(s, col, row))) == lines(s).take(row).push(
            lines(s)[row].take(col),
        ),
        lines(s.skip(offset(s, col, row))) == seq![lines(s)[row].skip(col)] + lines(s).skip(
            row + 1,
        ),
{
    let ls = lines(s);
    let l = ls[row];
    let o = offset(s, col, row);
    let f = flat(ls.take(row));
    let g = flat(ls.skip(row + 1));
    lemma_lines_flat(s);
    assert(ls =~= ls.take(row) + seq![l] + ls.skip(row + 1));
    lemma_flat_append(ls.take(row) + seq![l], ls.skip(row + 1));
    lemma_flat_append(ls.take(row), seq![l]);
    lemma_flat_single(l);
    assert(s.push('\n') == f + l.push('\n') + g);
    assert(s.take(o) =~= f + l.take(col)) by {
        assert(s.take(o) =~= (f + l.push('\n') + g).take(o));
    }
    assert(forall|i: int| 0 <= i < row ==> #[trigger] ls.take(row)[i] == ls[i]);
    assert(forall|i: int| 0 <= i < ls.len() ==> #[trigger] no_newline(ls[i]));
    assert(no_newline(l));
    assert(no_newline(l.take(col)));
    lemma_lines_of_flat(ls.take(row), l.take(col));
    let rest = seq![l.skip(col)] + ls.skip(row + 1);
    lemma_flat_append(seq![l.skip(col)], ls.skip(row + 1));
    lemma_flat_single(l.skip(col));
    assert(s.skip(o).push('\n') =~= flat(rest)) by {
        assert(s.skip(o).push('\n') =~= (f + l.push('\n') + g).skip(o));
    }
    assert forall|i: int| 0 <= i < rest.len() implies #[trigger] no_newline(rest[i]) by {
        if i > 0 {
            assert(rest[i] == ls[row + i]);
        }
    }
    lemma_lines_unique(s.skip(o), rest);
}

/// The text with `p` spliced in at a position.
pub open spec fn insert_at(s: Seq<char>, col: int, row: int, p: Seq<char>) -> Seq<char> {
    let o = offset(s, col, row);
    s.take(o) + p + s.skip(o)
}

/// Where the cursor stands after `p` was spliced in at (`col`, `row`): just after the
/// inserted text, on the row where it ends.
pub open spec fn position_after_insert(col: int, row: int, p: Seq<char>) -> (int, int) {
    let lp = lines(p);
    if lp.len() == 1 {
        (col + p.len(), row)
    } else {
        (lp.last().len() as int, row + lp.len() - 1)
    }
}

/// The lines after `p` was spliced in at a position: the current row is cut at the
/// column, the first line of `p` ends its first half, the last line of `p` starts its
/// second half.
pub open spec fn lines_after_insert(s: Seq<char>, col: int, row: int, p: Seq<char>) -> Seq<
    Seq<char>,
> {
    let ls = lines(s);
    let l = ls[row];
    let lp = lines(p);
    let head = ls.take(row) + seq![l.take(col) + lp[0]] + lp.drop_first();
    head.drop_last() + seq![head.last() + l.skip(col)] + ls.skip(row + 1)
}

/// Splicing text in at a valid position gives the lines above, and leaves the cursor
/// at a valid position of the new text.
pub proof fn lemma_insert(s: Seq<char>, col: int, row: int, p: Seq<char>)
    requires
        valid_position(s, col, row),
    ensures
        lines(insert_at(s, col, row, p)) == lines_after_insert(s, col, row, p),
        valid_position(
            insert_at(s, col, row, p),
            position_after_insert(col, row, p).0,
            position_after_insert(col, row, p).1,
        ),
        insert_at(s, col, row, p).len() == s.len() + p.len(),
{
    let ls = lines(s);
    let l = ls[row];
    let lp = lines(p);
    let o = offset(s, col, row);
    lemma_split(s, col, row);
    lemma_lines_flat(p);
    let a = s.take(o);
    let b = s.skip(o);
    lemma_lines_concat(a, p);
    let la = lines(a);
    assert(la.drop_last() =~= ls.take(row));
    let head = ls.take(row) + seq![l.take(col) + lp[0]] + lp.drop_first();
    assert(lines(a + p) == head);
    lemma_lines_concat(a + p, b);
    assert(lines(b)[0] == l.skip(col));
    assert(lines(b).drop_first() =~= ls.skip(row + 1));
    assert(a + p + b == insert_at(s, col, row, p));
    let s2 = insert_at(s, col, row, p);
    let (c2, r2) = position_after_insert(col, row, p);
    assert(lines(s2) == lines_after_insert(s, col, row, p));
    assert(r2 == head.len() - 1);
    assert(lines(s2)[r2] == head.last() + l.skip(col));
    if lp.len() == 1 {
        lemma_flat_single(lp[0]);
        assert(lp =~= seq![lp[0]]);
        assert(lp[0] =~= p) by {
            assert(lp[0] =~= lp[0].push('\n').drop_last());
            assert(p =~= p.push('\n').drop_last());
        }
        assert(head.last() == l.take(col) + p);
    } else {
        assert(head.last() == lp.last());
    }
}

/// The text with the character before a position taken out; unchanged at the very start.
pub open spec fn delete_before(s: Seq<char>, col: int, row: int) -> Seq<char> {
    if col == 0 && row == 0 {
        s
    } else {
        s.remove(offset(s, col, row) - 1)
    }
}

/// Where the cursor stands after a deletion: one column back, or, at the start of a row,
/// at the end of the row above, where the two rows were joined.
pub open spec fn position_after_delete(s: Seq<char>, col: int, row: int) -> (int, int) {
    if col > 0 {
        (col - 1, row)
    } else if row > 0 {
        (line_len(s, row - 1), row - 1)
    } else {
        (col, row)
    }
}

/// The lines after a deletion: the current row loses a character, or, at the start of
/// a row, the row is appended to the one above.
pub open spec fn lines_after_delete(s: Seq<char>, col: int, row: int) -> Seq<Seq<char>> {
    let ls = lines(s);
    let l = ls[row];
    if col > 0 {
        ls.take(row) + seq![l.take(col - 1) + l.skip(col)] + ls.skip(row + 1)
    } else if row > 0 {
        ls.take(row - 1) + seq![ls[row - 1] + l] + ls.skip(row + 1)
    } else {
        ls
    }
}

/// A deletion at a valid position gives the lines above, and leaves the cursor at a
/// valid position of the new text.
pub proof fn lemma_delete(s: Seq<char>, col: int, row: int)
    requires
        valid_position(s, col, row),
    ensures
        lines(delete_before(s, col, row)) == lines_after_delete(s, col, row),
        valid_position(
            delete_before(s, col, row),
            position_after_delete(s, col, row).0,
            position_after_delete(s, col, row).1,
        ),
        !(col == 0 && row == 0) ==> 0 < offset(s, col, row) <= s.len(),
{
    let ls = lines(s);
    let l = ls[row];
    let o = offset(s, col, row);
    lemma_split(s, col, row);
    if col > 0 {
        lemma_split(s, col - 1, row);
        assert(offset(s, col - 1, row) == o - 1);
        let a = s.take(o - 1);
        let b = s.skip(o);
        lemma_lines_concat(a, b);
        assert(s.remove(o - 1) =~= a + b);
        assert(lines(a).drop_last() =~= ls.take(row));
        assert(lines(a).last() =~= l.take(col - 1));
        assert(lines(b).drop_first() =~= ls.skip(row + 1));
        assert(lines(s.remove(o - 1)) =~= lines_after_delete(s, col, row));
    } else if row > 0 {
        let up = ls[row - 1];
        lemma_flat_take_step(ls, row - 1);
        assert(offset(s, up.len() as int, row - 1) == o - 1);
        lemma_split(s, up.len() as int, row - 1);
        let a = s.take(o - 1);
        let b = s.skip(o);
        lemma_lines_concat(a, b);
        assert(s.remove(o - 1) =~= a + b);
        assert(up.take(up.len() as int) =~= up);
        assert(lines(a).drop_last() =~= ls.take(row - 1));
        assert(lines(a).last() =~= up);
        assert(l.skip(0) =~= l);
        assert(lines(b)[0] =~= l);
        assert(lines(b).drop_first() =~= ls.skip(row + 1));
        assert(lines(s.remove(o - 1)) =~= lines_after_delete(s, col, row));
    }
}

/// A text has at most one line more than it has characters.
pub proof fn lemma_line_count_bound(s: Seq<char>)
    ensures
        line_count(s) <= s.len() + 1,
{
    lemma_lines_flat(s);
    lemma_flat_len_bound(lines(s));
}

proof fn lemma_flat_len_bound(ls: Seq<Seq<char>>)
    ensures
        flat(ls).len() >= ls.len(),
    decreases ls.len(),
{
    if ls.len() > 0 {
        lemma_flat_len_bound(ls.drop_last());
    }
}

/// One column left; from the start of a row, to the end of the row above.
pub open spec fn move_left(s: Seq<char>, col: int, row: int) -> (int, int) {
    if col > 0 {
        (col - 1, row)
    } else if row > 0 {
        (line_len(s, row - 1), row - 1)
    } else {
        (col, row)
    }
}

/// One column right; from the end of a row, to the start of the row below.
pub open spec fn move_right(s: Seq<char>, col: int, row: int) -> (int, int) {
    if col < line_len(s, row) {
        (col + 1, row)
    } else if row < line_count(s) - 1 {
        (0, row + 1)
    } else {
        (col, row)
    }
}

/// One row up, keeping the column where the row above is long enough.
pub open spec fn move_up(s: Seq<char>, col: int, row: int) -> (int, int) {
    if row > 0 {
        (if col <= line_len(s, row - 1) { col } else { line_len(s, row - 1) }, row - 1)
    } else {
        (col, row)
    }
}

/// One row down, keeping the column where the row below is long enough.
pub open spec fn move_down(s: Seq<char>, col: int, row: int) -> (int, int) {
    if row < line_count(s) - 1 {
        (if col <= line_len(s, row + 1) { col } else { line_len(s, row + 1) }, row + 1)
    } else {
        (col, row)
    }
}

/// Moving the cursor keeps it inside the text.
pub proof fn lemma_moves_valid(s: Seq<char>, col: int, row: int)
    requires
        valid_position(s, col, row),
    ensures
        valid_position(s, move_left(s, col, row).0, move_left(s, col, row).1),
        valid_position(s, move_right(s, col, row).0, move_right(s, col, row).1),
        valid_position(s, move_up(s, col, row).0, move_up(s, col, row).1),
        valid_position(s, move_down(s, col, row).0, move_down(s, col, row).1),
{
}

} // verus!
