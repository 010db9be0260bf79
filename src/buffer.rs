//! The text buffer: lines of code points and a cursor, with the edit and
//! movement operations as transitions of an abstract buffer state.

use vstd::prelude::*;
use crate::text::{no_newline, join_lines, lines_of, lemma_split_lines_plain, lemma_lines_of_join};

verus! {

/// The abstract state of a buffer: its lines, the cursor row and column.
pub struct BufferState {
    pub lines: Seq<Seq<char>>,
    pub row: int,
    pub col: int,
}

impl BufferState {
    /// At least one line, the cursor inside the text, no line holds a newline.
    pub open spec fn wf(self) -> bool {
        &&& self.lines.len() >= 1
        &&& 0 <= self.row < self.lines.len()
        &&& 0 <= self.col <= self.lines[self.row].len()
        &&& forall|i: int| 0 <= i < self.lines.len() ==> no_newline(#[trigger] self.lines[i])
    }

    pub open spec fn line_len(self, r: int) -> int {
        self.lines[r].len() as int
    }

    /// The cursor stands after the last character of the last line.
    pub open spec fn at_end(self) -> bool {
        self.row == self.lines.len() - 1 && self.col == self.line_len(self.row)
    }

    pub open spec fn with_cursor(self, row: int, col: int) -> BufferState {
        BufferState { lines: self.lines, row, col }
    }

    /// One step right: along the line, else to the start of the next line,
    /// else nowhere.
    pub open spec fn move_right(self) -> BufferState {
        if self.col < self.line_len(self.row) {
            self.with_cursor(self.row, self.col + 1)
        } else if self.row < self.lines.len() - 1 {
            self.with_cursor(self.row + 1, 0)
        } else {
            self
        }
    }

    /// One step left: along the line, else to the end of the previous line,
    /// else nowhere.
    pub open spec fn move_left(self) -> BufferState {
        if self.col > 0 {
            self.with_cursor(self.row, self.col - 1)
        } else if self.row > 0 {
            self.with_cursor(self.row - 1, self.line_len(self.row - 1))
        } else {
            self
        }
    }

    /// One row up, the column clamped to that row's length.
    pub open spec fn move_up(self) -> BufferState {
        if self.row > 0 {
            let r = self.row - 1;
            self.with_cursor(r, if self.col <= self.line_len(r) { self.col } else { self.line_len(r) })
        } else {
            self
        }
    }

    /// One row down, the column clamped to that row's length.
    pub open spec fn move_down(self) -> BufferState {
        if self.row < self.lines.len() - 1 {
            let r = self.row + 1;
            self.with_cursor(r, if self.col <= self.line_len(r) { self.col } else { self.line_len(r) })
        } else {
            self
        }
    }

    pub open spec fn move_to_start(self) -> BufferState {
        self.with_cursor(0, 0)
    }

    pub open spec fn move_to_end(self) -> BufferState {
        self.with_cursor(self.lines.len() - 1, self.line_len(self.lines.len() - 1))
    }

    /// `c` put in at the cursor, then the cursor one step right.
    pub open spec fn insert_char(self, c: char) -> BufferState {
        BufferState {
            lines: self.lines.update(self.row, self.lines[self.row].insert(self.col, c)),
            ..self
        }.move_right()
    }

    /// The current line split at the cursor, the cursor at the start of its
    /// second half.
    pub open spec fn insert_newline(self) -> BufferState {
        let line = self.lines[self.row];
        BufferState {
            lines: self.lines.update(self.row, line.take(self.col)).insert(
                self.row + 1,
                line.skip(self.col),
            ),
            row: self.row + 1,
            col: 0,
        }
    }

    /// Backspace: the character before the cursor removed, or, at the start of
    /// a line, that line merged onto the end of the previous one.
    pub open spec fn delete_char(self) -> BufferState {
        if self.col > 0 {
            BufferState {
                lines: self.lines.update(self.row, self.lines[self.row].remove(self.col - 1)),
                row: self.row,
                col: self.col - 1,
            }
        } else if self.row > 0 {
            let prev = self.lines[self.row - 1];
            BufferState {
                lines: self.lines.update(self.row - 1, prev + self.lines[self.row]).remove(
                    self.row,
                ),
                row: self.row - 1,
                col: prev.len() as int,
            }
        } else {
            self
        }
    }

    /// How many steps right the cursor is from the end of the buffer: what is
    /// left of its line, and each later line with the step onto it.
    pub open spec fn remaining(self) -> int {
        self.line_len(self.row) - self.col + rest_len(self.lines, self.row + 1)
    }

    /// `n` steps right.
    pub open spec fn move_right_n(self, n: nat) -> BufferState
        decreases n,
    {
        if n == 0 {
            self
        } else {
            self.move_right().move_right_n((n - 1) as nat)
        }
    }

    /// The whole text: the lines joined by newlines.
    pub open spec fn content(self) -> Seq<char> {
        join_lines(self.lines)
    }
}

/// The state that loading `text` gives: its lines, the cursor at the start.
pub open spec fn loaded(text: Seq<char>) -> BufferState {
    BufferState { lines: lines_of(text), row: 0, col: 0 }
}

/// The state of an empty buffer: one empty line, the cursor at the start.
pub open spec fn empty_buffer() -> BufferState {
    BufferState { lines: seq![Seq::empty()], row: 0, col: 0 }
}

/// The steps needed to cross the lines from `from` on: each line's length and
/// one step onto it.
pub open spec fn rest_len(lines: Seq<Seq<char>>, from: int) -> int
    decreases lines.len() - from,
{
    if from < 0 || from >= lines.len() {
        0
    } else {
        lines[from].len() + 1 + rest_len(lines, from + 1)
    }
}

proof fn lemma_rest_len_nonneg(lines: Seq<Seq<char>>, from: int)
    ensures
        rest_len(lines, from) >= 0,
        0 <= from < lines.len() ==> rest_len(lines, from) > 0,
    decreases lines.len() - from,
{
    if 0 <= from < lines.len() {
        lemma_rest_len_nonneg(lines, from + 1);
    }
}

/// Splitting a line and at once deleting backwards joins it again and puts the
/// cursor back where it was.
pub proof fn law_newline_then_backspace(s: BufferState)
    requires
        s.wf(),
    ensures
        s.insert_newline().delete_char() == s,
{
    let line = s.lines[s.row];
    let t = s.insert_newline();
    assert(line.take(s.col) + line.skip(s.col) =~= line);
    assert(t.delete_char().lines =~= s.lines);
}

/// Putting in a character and at once deleting backwards restores the buffer
/// and the cursor.
pub proof fn law_insert_then_backspace(s: BufferState, c: char)
    requires
        s.wf(),
    ensures
        s.insert_char(c).delete_char() == s,
{
    let line = s.lines[s.row];
    assert(line.insert(s.col, c).remove(s.col) =~= line);
    assert(s.insert_char(c).delete_char().lines =~= s.lines);
}

/// Every operation keeps a buffer well formed.
pub proof fn law_operations_keep_wf(s: BufferState, c: char, text: Seq<char>)
    requires
        s.wf(),
        c != '\n',
    ensures
        s.insert_char(c).wf(),
        s.insert_newline().wf(),
        s.delete_char().wf(),
        s.move_left().wf(),
        s.move_right().wf(),
        s.move_up().wf(),
        s.move_down().wf(),
        s.move_to_start().wf(),
        s.move_to_end().wf(),
        loaded(text).wf(),
        empty_buffer().wf(),
{
    let line = s.lines[s.row];
    let a = s.insert_char(c);
    let a0 = BufferState { lines: s.lines.update(s.row, line.insert(s.col, c)), ..s };
    assert(no_newline(line));
    assert(no_newline(line.insert(s.col, c)));
    assert(a0.wf());
    let n = s.insert_newline();
    assert forall|i: int| 0 <= i < n.lines.len() implies no_newline(#[trigger] n.lines[i]) by {
        if i < s.row {
            assert(n.lines[i] == s.lines[i]);
        } else if i > s.row + 1 {
            assert(n.lines[i] == s.lines[i - 1]);
        }
    }
    let d = s.delete_char();
    if s.col > 0 {
        assert(no_newline(line.remove(s.col - 1)));
    } else if s.row > 0 {
        assert(no_newline(s.lines[s.row - 1]));
        assert forall|i: int| 0 <= i < d.lines.len() implies no_newline(#[trigger] d.lines[i]) by {
            if i < s.row - 1 {
                assert(d.lines[i] == s.lines[i]);
            } else if i >= s.row {
                assert(d.lines[i] == s.lines[i + 1]);
            }
        }
    }
    if text.len() > 0 && text.last() == '\n' {
        lemma_split_lines_plain(text.drop_last());
    } else {
        lemma_split_lines_plain(text);
    }
    assert(no_newline(Seq::<char>::empty()));
    assert(empty_buffer().lines[0] == Seq::<char>::empty());
}

/// One step right from anywhere but the end brings the cursor one step closer
/// to the end; at the end it does nothing.
proof fn lemma_move_right_progress(s: BufferState)
    requires
        s.wf(),
    ensures
        s.move_right().wf(),
        s.move_right().lines == s.lines,
        s.remaining() >= 0,
        s.remaining() == 0 <==> s.at_end(),
        s.remaining() > 0 ==> s.move_right().remaining() == s.remaining() - 1,
        s.remaining() == 0 ==> s.move_right() == s,
{
    lemma_rest_len_nonneg(s.lines, s.row + 1);
    lemma_rest_len_nonneg(s.lines, s.row + 2);
}

/// Stepping right often enough reaches the end of the buffer, and from there a
/// further step right changes nothing.
pub proof fn law_move_right_reaches_end(s: BufferState, n: nat)
    requires
        s.wf(),
        n >= s.remaining(),
    ensures
        s.move_right_n(n) == s.move_to_end(),
        s.move_to_end().move_right() == s.move_to_end(),
    decreases n,
{
    lemma_move_right_progress(s);
    if n == 0 {
        assert(s.at_end());
    } else if s.remaining() == 0 {
        law_move_right_reaches_end(s, (n - 1) as nat);
    } else {
        law_move_right_reaches_end(s.move_right(), (n - 1) as nat);
    }
    let e = s.move_to_end();
    lemma_move_right_progress(e);
    lemma_rest_len_nonneg(e.lines, e.row + 1);
}

/// Loading the content of a buffer gives back its lines exactly, with the
/// cursor at the start. The one loss: a last empty line after others is read
/// back as the newline that ends the text, and disappears.
pub proof fn law_content_load_round_trip(s: BufferState)
    requires
        s.wf(),
        !(s.lines.len() > 1 && s.lines.last().len() == 0),
    ensures
        loaded(s.content()).lines == s.lines,
        loaded(s.content()) == s.move_to_start(),
{
    lemma_lines_of_join(s.lines);
}

/// The lost case: a buffer whose last line is empty, after others, loads back
/// without that line.
pub proof fn law_content_load_drops_trailing_empty_line(s: BufferState)
    requires
        s.wf(),
        s.lines.len() > 1,
        s.lines.last().len() == 0,
    ensures
        loaded(s.content()).lines == s.lines.drop_last(),
{
    let init = s.lines.drop_last();
    assert forall|i: int| 0 <= i < init.len() implies no_newline(#[trigger] init[i]) by {
        assert(init[i] == s.lines[i]);
    }
    crate::text::lemma_split_join(init);
    let j = join_lines(init) + seq!['\n'];
    assert(join_lines(s.lines) == j + s.lines.last());
    assert(j + s.lines.last() =~= j);
    assert(j.drop_last() =~= join_lines(init));
}

} // verus!
