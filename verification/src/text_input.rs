//! A small multi-line text editor for commit messages: lines of text and a
//! cursor counted in characters.
use vstd::prelude::*;
use vstd::utf8::encode_utf8;
use vstd::string::StrSliceExecFns;

use crate::text::{chars_of, is_whitespace, is_ws, string_of};

verus! {

/// Number of UTF-8 bytes in a character sequence.
pub open spec fn utf8_len(s: Seq<char>) -> nat {
    encode_utf8(s).len()
}

/// Byte offset of the `n`-th character of `s` (its byte length when `n` is
/// past the end).
pub fn char_to_byte_idx(s: &str, char_idx: usize) -> (b: usize)
    ensures
        b == utf8_len(s@.take(if char_idx <= s@.len() { char_idx as int } else { s@.len() as int }))
            as usize,
{
    let n = s.unicode_len();
    let k = if char_idx <= n {
        char_idx
    } else {
        n
    };
    let head = s.substring_char(0, k);
    assert(head@ =~= s@.take(k as int));
    head.len()
}

/// Pieces of `s` split at each `'\n'`: the finished pieces and the piece
/// still being read.
pub open spec fn split_acc(s: Seq<char>) -> (Seq<Seq<char>>, Seq<char>)
    decreases s.len(),
{
    if s.len() == 0 {
        (Seq::empty(), Seq::empty())
    } else {
        let (done, cur) = split_acc(s.drop_last());
        if s.last() == '\n' {
            (done.push(cur), Seq::empty())
        } else {
            (done, cur.push(s.last()))
        }
    }
}

/// `s.split('\n')`: never empty, a piece per newline plus one.
pub open spec fn split_nl(s: Seq<char>) -> Seq<Seq<char>> {
    split_acc(s).0.push(split_acc(s).1)
}

/// Lines joined with a `'\n'` between each two.
pub open spec fn join_with_nl(ls: Seq<Seq<char>>) -> Seq<char>
    decreases ls.len(),
{
    if ls.len() == 0 {
        Seq::empty()
    } else if ls.len() == 1 {
        ls[0]
    } else {
        join_with_nl(ls.drop_last()) + seq!['\n'] + ls.last()
    }
}

proof fn lemma_split_join(s: Seq<char>)
    ensures
        join_with_nl(split_nl(s)) == s,
    decreases s.len(),
{
    if s.len() > 0 {
        let t = s.drop_last();
        lemma_split_join(t);
        let (done, cur) = split_acc(t);
        if s.last() == '\n' {
            assert(split_nl(s) == done.push(cur).push(Seq::<char>::empty()));
            assert(split_nl(s).drop_last() == done.push(cur));
            assert(s =~= t + seq!['\n'] + Seq::<char>::empty());
        } else {
            assert(split_nl(s) == done.push(cur.push(s.last())));
            if done.len() == 0 {
                assert(split_nl(t) =~= seq![cur]);
                assert(s =~= cur.push(s.last()));
            } else {
                assert(split_nl(s).drop_last() =~= done);
                assert(split_nl(t).drop_last() =~= done);
                assert(split_nl(t) == done.push(cur));
                assert(t == join_with_nl(done) + seq!['\n'] + cur);
                assert(s =~= t.push(s.last()));
                assert(s =~= join_with_nl(done) + seq!['\n'] + cur.push(s.last()));
            }
        }
    } else {
        assert(split_nl(s) =~= seq![Seq::<char>::empty()]);
    }
}

/// A line is blank when every character is whitespace.
pub open spec fn blank(l: Seq<char>) -> bool {
    forall|i: int| 0 <= i < l.len() ==> is_ws(#[trigger] l[i])
}

/// `n` is `o` with `c` typed at the cursor (the column held inside the
/// line), the cursor one character further.
pub open spec fn char_inserted(o: TextInput, n: TextInput, c: char) -> bool {
    &&& n.text() == o.text().update(
        o.cursor_row as int,
        o.row_line().take(o.clamped_col()).push(c) + o.row_line().skip(o.clamped_col()),
    )
    &&& n.cursor_row == o.cursor_row
    &&& n.cursor_col == o.cursor_col + 1
}

/// `n` is `o` with its line broken at the cursor, the cursor at the start
/// of the new line.
pub open spec fn newline_inserted(o: TextInput, n: TextInput) -> bool {
    &&& n.text() == o.text().update(o.cursor_row as int, o.row_line().take(o.clamped_col())).insert(
        o.cursor_row + 1,
        o.row_line().skip(o.clamped_col()),
    )
    &&& n.cursor_row == o.cursor_row + 1
    &&& n.cursor_col == 0
}

/// `n` is `o` after a backspace: the character before the cursor deleted,
/// or at a line start the line joined onto the one above.
pub open spec fn backspaced(o: TextInput, n: TextInput) -> bool {
    let k = o.clamped_col();
    let r = o.cursor_row as int;
    if k > 0 {
        &&& n.text() == o.text().update(r, o.row_line().take(k - 1) + o.row_line().skip(k))
        &&& n.cursor_row == o.cursor_row
        &&& n.cursor_col == k - 1
    } else if r > 0 {
        &&& n.text() == o.text().update(r - 1, o.text()[r - 1] + o.row_line()).remove(r)
        &&& n.cursor_row == r - 1
        &&& n.cursor_col == o.text()[r - 1].len()
    } else {
        n == o
    }
}

/// The text being edited and the cursor. `cursor_col` counts characters
/// (right after `new` it holds the last line's byte length).
pub struct TextInput {
    pub lines: Vec<String>,
    pub cursor_row: usize,
    pub cursor_col: usize,
}

impl TextInput {
    pub open spec fn text(&self) -> Seq<Seq<char>> {
        self.lines.deep_view()
    }

    /// At least one line, and the cursor on one of them.
    pub open spec fn wf(&self) -> bool {
        &&& self.lines.len() > 0
        &&& self.cursor_row < self.lines.len()
    }

    /// The line under the cursor.
    pub open spec fn row_line(&self) -> Seq<char> {
        self.text()[self.cursor_row as int]
    }

    /// The cursor column held inside the current line.
    pub open spec fn clamped_col(&self) -> int {
        if self.cursor_col <= self.row_line().len() {
            self.cursor_col as int
        } else {
            self.row_line().len() as int
        }
    }

    /// An editor holding `text`, the cursor at the end of its last line.
    pub fn new(text: &str) -> (t: TextInput)
        ensures
            t.wf(),
            t.text() == split_nl(text@),
            t.cursor_row == t.lines.len() - 1,
            t.cursor_col == utf8_len(t.text().last()) as usize,
    {
        let v = chars_of(text);
        let mut lines: Vec<String> = Vec::new();
        let mut start: usize = 0;
        let mut i: usize = 0;
        while i < v.len()
            invariant
                start <= i <= v.len(),
                v@ == text@,
                lines.deep_view() == split_acc(v@.take(i as int)).0,
                split_acc(v@.take(i as int)).1 == v@.subrange(start as int, i as int),
            decreases v.len() - i,
        {
            assert(v@.take(i + 1).drop_last() =~= v@.take(i as int));
            if v[i] == '\n' {
                let piece = string_of(&v, start, i);
                let ghost before = lines.deep_view();
                lines.push(piece);
                assert(lines.deep_view() =~= before.push(piece@));
                start = i + 1;
                assert(v@.subrange(start as int, (i + 1) as int) =~= Seq::<char>::empty());
            } else {
                assert(v@.subrange(start as int, (i + 1) as int) =~= v@.subrange(
                    start as int,
                    i as int,
                ).push(v@[i as int]));
            }
            i = i + 1;
        }
        assert(v@.take(v.len() as int) =~= v@);
        let last = string_of(&v, start, v.len());
        let ghost before = lines.deep_view();
        let col = last.as_str().len();
        lines.push(last);
        assert(lines.deep_view() =~= before.push(last@));
        let row = lines.len() - 1;
        TextInput { lines, cursor_row: row, cursor_col: col }
    }

    /// Number of characters of line `row`.
    fn line_chars(&self, row: usize) -> (n: usize)
        requires
            row < self.lines.len(),
        ensures
            n == self.text()[row as int].len(),
    {
        self.lines[row].as_str().unicode_len()
    }

    /// Insert `c` at the cursor and move past it.
    pub fn insert_char(&mut self, c: char)
        requires
            old(self).wf(),
            old(self).cursor_col < usize::MAX,
        ensures
            final(self).wf(),
            char_inserted(*old(self), *final(self), c),
    {
        let row = self.cursor_row;
        let n = self.line_chars(row);
        let k = if self.cursor_col <= n {
            self.cursor_col
        } else {
            n
        };
        let mut s = String::new();
        s.push_str(self.lines[row].as_str().substring_char(0, k));
        s.push(c);
        s.push_str(self.lines[row].as_str().substring_char(k, n));
        let ghost before = self.text();
        self.lines.set(row, s);
        assert(self.text() =~= before.update(row as int, s@));
        self.cursor_col = self.cursor_col + 1;
    }

    /// Break the line at the cursor; the cursor goes to the start of the new line.
    pub fn insert_newline(&mut self)
        requires
            old(self).wf(),
        ensures
            final(self).wf(),
            newline_inserted(*old(self), *final(self)),
    {
        let row = self.cursor_row;
        let n = self.line_chars(row);
        let k = if self.cursor_col <= n {
            self.cursor_col
        } else {
            n
        };
        let head = self.lines[row].as_str().substring_char(0, k).to_owned();
        let tail = self.lines[row].as_str().substring_char(k, n).to_owned();
        let ghost before = self.text();
        self.lines.set(row, head);
        let ghost mid = self.text();
        assert(mid =~= before.update(row as int, head@));
        self.lines.insert(row + 1, tail);
        assert(self.text() =~= mid.insert(row + 1, tail@));
        self.cursor_row = row + 1;
        self.cursor_col = 0;
    }

    /// Delete the character before the cursor; at the start of a line, join
    /// the line onto the one above.
    pub fn backspace(&mut self)
        requires
            old(self).wf(),
        ensures
            final(self).wf(),
            backspaced(*old(self), *final(self)),
    {
        let row = self.cursor_row;
        let n = self.line_chars(row);
        let k = if self.cursor_col <= n {
            self.cursor_col
        } else {
            n
        };
        let ghost before = self.text();
        if k > 0 {
            let mut s = String::new();
            s.push_str(self.lines[row].as_str().substring_char(0, k - 1));
            s.push_str(self.lines[row].as_str().substring_char(k, n));
            self.lines.set(row, s);
            assert(self.text() =~= before.update(row as int, s@));
            self.cursor_col = k - 1;
        } else if row > 0 {
            let prev_len = self.line_chars(row - 1);
            let mut s = String::new();
            s.push_str(self.lines[row - 1].as_str());
            s.push_str(self.lines[row].as_str());
            self.lines.set(row - 1, s);
            let ghost mid = self.text();
            assert(mid =~= before.update(row - 1, s@));
            self.lines.remove(row);
            assert(self.text() =~= mid.remove(row as int));
            self.cursor_row = row - 1;
            self.cursor_col = prev_len;
        }
    }

    /// One character left, stopping at the line start.
    pub fn move_left(&mut self)
        ensures
            *final(self) == (TextInput {
                cursor_col: if old(self).cursor_col > 0 {
                    (old(self).cursor_col - 1) as usize
                } else {
                    0
                },
                ..*old(self)
            }),
    {
        if self.cursor_col > 0 {
            self.cursor_col = self.cursor_col - 1;
        }
    }

    /// One character right, stopping at the line end.
    pub fn move_right(&mut self)
        requires
            old(self).wf(),
        ensures
            *final(self) == (TextInput {
                cursor_col: if old(self).cursor_col < old(self).row_line().len() {
                    (old(self).cursor_col + 1) as usize
                } else {
                    old(self).cursor_col
                },
                ..*old(self)
            }),
    {
        let n = self.line_chars(self.cursor_row);
        if self.cursor_col < n {
            self.cursor_col = self.cursor_col + 1;
        }
    }

    /// Column `col` held inside line `row`.
    pub open spec fn col_in(&self, row: int, col: usize) -> usize {
        if col <= self.text()[row].len() {
            col
        } else {
            self.text()[row].len() as usize
        }
    }

    /// The cursor one line up (unchanged on the first line).
    pub open spec fn after_move_up(self) -> TextInput {
        if self.cursor_row > 0 {
            TextInput {
                cursor_row: (self.cursor_row - 1) as usize,
                cursor_col: self.col_in(self.cursor_row - 1, self.cursor_col),
                ..self
            }
        } else {
            self
        }
    }

    /// The cursor one line down (unchanged on the last line).
    pub open spec fn after_move_down(self) -> TextInput {
        if self.cursor_row + 1 < self.lines.len() {
            TextInput {
                cursor_row: (self.cursor_row + 1) as usize,
                cursor_col: self.col_in(self.cursor_row + 1, self.cursor_col),
                ..self
            }
        } else {
            self
        }
    }

    /// One line up, the column held inside the new line.
    pub fn move_up(&mut self)
        requires
            old(self).wf(),
        ensures
            final(self).wf(),
            *final(self) == old(self).after_move_up(),
    {
        if self.cursor_row > 0 {
            self.cursor_row = self.cursor_row - 1;
            let n = self.line_chars(self.cursor_row);
            if self.cursor_col > n {
                self.cursor_col = n;
            }
        }
    }

    /// One line down, the column held inside the new line.
    pub fn move_down(&mut self)
        requires
            old(self).wf(),
        ensures
            final(self).wf(),
            *final(self) == old(self).after_move_down(),
    {
        if self.cursor_row + 1 < self.lines.len() {
            self.cursor_row = self.cursor_row + 1;
            let n = self.line_chars(self.cursor_row);
            if self.cursor_col > n {
                self.cursor_col = n;
            }
        }
    }

    /// To the start of the line.
    pub fn move_home(&mut self)
        ensures
            *final(self) == (TextInput { cursor_col: 0, ..*old(self) }),
    {
        self.cursor_col = 0;
    }

    /// To the end of the line.
    pub fn move_end(&mut self)
        requires
            old(self).wf(),
        ensures
            *final(self) == (TextInput {
                cursor_col: old(self).row_line().len() as usize,
                ..*old(self)
            }),
    {
        self.cursor_col = self.line_chars(self.cursor_row);
    }

    /// Whether the text holds nothing but whitespace.
    pub fn is_empty(&self) -> (b: bool)
        ensures
            b == forall|i: int| 0 <= i < self.text().len() ==> blank(#[trigger] self.text()[i]),
    {
        let mut i: usize = 0;
        while i < self.lines.len()
            invariant
                i <= self.lines.len(),
                forall|j: int| 0 <= j < i ==> blank(#[trigger] self.text()[j]),
            decreases self.lines.len() - i,
        {
            let v = chars_of(self.lines[i].as_str());
            let mut k: usize = 0;
            while k < v.len()
                invariant
                    k <= v.len(),
                    i < self.lines.len(),
                    v@ == self.text()[i as int],
                    forall|j: int| 0 <= j < k ==> is_ws(#[trigger] v@[j]),
                decreases v.len() - k,
            {
                if !is_whitespace(v[k]) {
                    assert(!blank(self.text()[i as int]));
                    return false;
                }
                k = k + 1;
            }
            i = i + 1;
        }
        true
    }

    /// The text, lines joined with `'\n'`.
    pub fn to_string(&self) -> (s: String)
        requires
            self.lines.len() > 0,
        ensures
            s@ == join_with_nl(self.text()),
    {
        let mut s = String::new();
        s.push_str(self.lines[0].as_str());
        assert(self.text().take(1) =~= seq![self.text()[0]]);
        let mut i: usize = 1;
        while i < self.lines.len()
            invariant
                1 <= i <= self.lines.len(),
                s@ == join_with_nl(self.text().take(i as int)),
            decreases self.lines.len() - i,
        {
            s.push('\n');
            s.push_str(self.lines[i].as_str());
            assert(self.text().take(i + 1).drop_last() =~= self.text().take(i as int));
            assert(s@ =~= join_with_nl(self.text().take(i as int)) + seq!['\n'] + self.text()[i as int]);
            i = i + 1;
        }
        assert(self.text().take(self.lines.len() as int) =~= self.text());
        s
    }
}

/// What `new` reads in, `to_string` gives back.
pub proof fn law_text_round_trip(s: Seq<char>)
    ensures
        join_with_nl(split_nl(s)) == s,
{
    lemma_split_join(s);
}

} // verus!
