//! The editor: a buffer of lines with a cursor, the file it belongs to and the
//! last status message.

use vstd::prelude::*;
use crate::buffer::{BufferState, loaded, empty_buffer};
use crate::text::{no_newline, join_lines, lines_from, push_char, lemma_split_lines_plain};

verus! {

/// The views of a sequence of lines.
pub open spec fn view_lines(v: Seq<Vec<char>>) -> Seq<Seq<char>> {
    v.map_values(|l: Vec<char>| l@)
}

/// A text buffer with a cursor, the file name it is tied to and the last
/// status message.
pub struct Editor {
    pub content: Vec<Vec<char>>,
    pub cursor_x: usize,
    pub cursor_y: usize,
    pub filename: Option<String>,
    pub status_message: String,
}

impl View for Editor {
    type V = BufferState;

    open spec fn view(&self) -> BufferState {
        BufferState {
            lines: view_lines(self.content@),
            row: self.cursor_y as int,
            col: self.cursor_x as int,
        }
    }
}

impl Editor {
    pub open spec fn wf(&self) -> bool {
        self@.wf()
    }

    /// The session fields are those of `other`.
    pub open spec fn same_session(&self, other: &Editor) -> bool {
        self.filename == other.filename && self.status_message@ == other.status_message@
    }

    /// An empty buffer: one empty line, the cursor at its start, no file name
    /// and no status.
    pub fn new() -> (r: Editor)
        ensures
            r.wf(),
            r@ == empty_buffer(),
            r.filename.is_none(),
            r.status_message@.len() == 0,
    {
        let r = Editor {
            content: vec![Vec::new()],
            cursor_x: 0,
            cursor_y: 0,
            filename: None,
            status_message: String::new(),
        };
        assert(r@.lines =~= empty_buffer().lines);
        r
    }

    /// The length of line `r`.
    fn line_len(&self, r: usize) -> (n: usize)
        requires
            r < self.content@.len(),
        ensures
            n == self@.lines[r as int].len(),
    {
        self.content[r].len()
    }

    pub fn move_cursor_right(&mut self)
        requires
            old(self).wf(),
        ensures
            final(self).wf(),
            final(self)@ == old(self)@.move_right(),
            final(self).same_session(old(self)),
    {
        if self.cursor_x < self.line_len(self.cursor_y) {
            self.cursor_x = self.cursor_x + 1;
        } else if self.cursor_y < self.content.len() - 1 {
            self.cursor_y = self.cursor_y + 1;
            self.cursor_x = 0;
        }
    }

    pub fn move_cursor_left(&mut self)
        requires
            old(self).wf(),
        ensures
            final(self).wf(),
            final(self)@ == old(self)@.move_left(),
            final(self).same_session(old(self)),
    {
        if self.cursor_x > 0 {
            self.cursor_x = self.cursor_x - 1;
        } else if self.cursor_y > 0 {
            self.cursor_y = self.cursor_y - 1;
            self.cursor_x = self.line_len(self.cursor_y);
        }
    }

    pub fn move_cursor_up(&mut self)
        requires
            old(self).wf(),
        ensures
            final(self).wf(),
            final(self)@ == old(self)@.move_up(),
            final(self).same_session(old(self)),
    {
        if self.cursor_y > 0 {
            self.cursor_y = self.cursor_y - 1;
            let n = self.line_len(self.cursor_y);
            if self.cursor_x > n {
                self.cursor_x = n;
            }
        }
    }

    pub fn move_cursor_down(&mut self)
        requires
            old(self).wf(),
        ensures
            final(self).wf(),
            final(self)@ == old(self)@.move_down(),
            final(self).same_session(old(self)),
    {
        if self.cursor_y < self.content.len() - 1 {
            self.cursor_y = self.cursor_y + 1;
            let n = self.line_len(self.cursor_y);
            if self.cursor_x > n {
                self.cursor_x = n;
            }
        }
    }

    pub fn move_cursor_to_end(&mut self)
        requires
            old(self).wf(),
        ensures
            final(self).wf(),
            final(self)@ == old(self)@.move_to_end(),
            final(self).same_session(old(self)),
    {
        self.cursor_y = self.content.len() - 1;
        self.cursor_x = self.line_len(self.cursor_y);
    }

    pub fn move_cursor_to_start(&mut self)
        requires
            old(self).wf(),
        ensures
            final(self).wf(),
            final(self)@ == old(self)@.move_to_start(),
            final(self).same_session(old(self)),
    {
        self.cursor_y = 0;
        self.cursor_x = 0;
    }

    /// Puts `c` in at the cursor and moves the cursor one step right.
    pub fn insert_char(&mut self, c: char)
        requires
            old(self).wf(),
            c != '\n',
        ensures
            final(self).wf(),
            final(self)@ == old(self)@.insert_char(c),
            final(self).same_session(old(self)),
    {
        let ghost before = self@;
        let row = self.cursor_y;
        let col = self.cursor_x;
        self.content[row].insert(col, c);
        let ghost mid = BufferState {
            lines: before.lines.update(row as int, before.lines[row as int].insert(col as int, c)),
            ..before
        };
        assert(self@.lines =~= mid.lines);
        assert(no_newline(self@.lines[row as int]));
        assert(self@.wf());
        self.move_cursor_right();
    }

    /// Splits the current line at the cursor; the cursor goes to the start of
    /// the new line that holds the second half.
    pub fn insert_newline(&mut self)
        requires
            old(self).wf(),
        ensures
            final(self).wf(),
            final(self)@ == old(self)@.insert_newline(),
            final(self).same_session(old(self)),
    {
        let ghost before = self@;
        let row = self.cursor_y;
        let col = self.cursor_x;
        let count = self.content.len();
        assert(row < count);
        let after = self.content[row].split_off(col);
        self.content.insert(row + 1, after);
        self.cursor_y = row + 1;
        self.cursor_x = 0;
        let ghost want = before.insert_newline();
        assert(self@.lines =~= want.lines);
        assert forall|i: int| 0 <= i < want.lines.len() implies no_newline(#[trigger] want.lines[i]) by {
            if i == row + 1 || i == row as int {
                assert(no_newline(before.lines[row as int]));
            } else if i < row {
                assert(want.lines[i] == before.lines[i]);
            } else {
                assert(want.lines[i] == before.lines[i - 1]);
            }
        }
    }

    /// Backspace: removes the character before the cursor, or at the start of
    /// a line merges it onto the end of the previous line; nothing at the start
    /// of the buffer.
    pub fn delete_char(&mut self)
        requires
            old(self).wf(),
        ensures
            final(self).wf(),
            final(self)@ == old(self)@.delete_char(),
            final(self).same_session(old(self)),
    {
        let ghost before = self@;
        let ghost want = before.delete_char();
        let row = self.cursor_y;
        let col = self.cursor_x;
        if col > 0 {
            self.content[row].remove(col - 1);
            self.cursor_x = col - 1;
            assert(self@.lines =~= want.lines);
            assert(no_newline(before.lines[row as int]));
            assert(self@.wf());
        } else if row > 0 {
            let mut line = self.content.remove(row);
            let n = self.line_len(row - 1);
            self.content[row - 1].append(&mut line);
            self.cursor_y = row - 1;
            self.cursor_x = n;
            assert(self@.lines =~= want.lines);
            assert forall|i: int| 0 <= i < want.lines.len() implies no_newline(#[trigger] want.lines[i]) by {
                if i == row - 1 {
                    assert(no_newline(before.lines[row - 1]));
                    assert(no_newline(before.lines[row as int]));
                } else if i < row - 1 {
                    assert(want.lines[i] == before.lines[i]);
                } else {
                    assert(want.lines[i] == before.lines[i + 1]);
                }
            }
        }
    }
    /// The whole text: the lines joined by single newlines, none at the end.
    pub fn get_content(&self) -> (r: String)
        ensures
            r@ == self@.content(),
    {
        let ghost ls = self@.lines;
        let mut r = String::new();
        let mut i: usize = 0;
        while i < self.content.len()
            invariant
                i <= ls.len(),
                ls == view_lines(self.content@),
                r@ == join_lines(ls.take(i as int)),
            decreases ls.len() - i,
        {
            if i > 0 {
                push_char(&mut r, '\n');
            }
            let line = &self.content[i];
            let ghost start = r@;
            let mut j: usize = 0;
            while j < line.len()
                invariant
                    j <= line@.len(),
                    r@ == start + line@.take(j as int),
                decreases line@.len() - j,
            {
                push_char(&mut r, line[j]);
                j = j + 1;
                assert(r@ =~= start + line@.take(j as int));
            }
            assert(line@.take(j as int) =~= line@);
            let ghost t = ls.take(i + 1);
            assert(t.drop_last() =~= ls.take(i as int));
            assert(t.last() == line@);
            if i == 0 {
                assert(r@ =~= line@);
            }
            i = i + 1;
        }
        assert(ls.take(ls.len() as int) =~= ls);
        r
    }

    /// Replaces the buffer by the lines of `text`, the cursor at the start.
    pub fn load(&mut self, text: &str)
        requires
            old(self).wf(),
        ensures
            final(self).wf(),
            final(self)@ == loaded(text@),
            final(self).same_session(old(self)),
    {
        self.content = lines_from(text);
        self.cursor_x = 0;
        self.cursor_y = 0;
        proof {
            if text@.len() > 0 && text@.last() == '\n' {
                lemma_split_lines_plain(text@.drop_last());
            } else {
                lemma_split_lines_plain(text@);
            }
        }
    }
}

} // verus!
