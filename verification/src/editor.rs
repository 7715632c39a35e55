//! The editor: the text buffer with its cursor and selection, and the
//! operations that read and change them.

use vstd::prelude::*;
pub use crate::cell::CharCel;
use crate::grid::{
    between, clamp, extent, glyphs, insert_cell, join, lemma_clamp_reachable, lemma_cut_step,
    lemma_extent_bounds, lemma_first_row, lemma_insert_cell, lemma_join_index,
    lemma_join_push, lemma_merge_row, lemma_offset_bounds, lemma_offset_order, lemma_pieces,
    lemma_remove_cell, lemma_remove_nothing, lemma_split_row, merge_row, offset, pieces,
    reachable, remove_cell, remove_range, short_breaks, split_row, step_back, with_first_row,
    without_cr, Rows,
};
use crate::laws::{
    law_one_row, law_split_merge, law_text_round_trip, law_text_short_breaks, law_write_delete,
};
use crate::model::EditorView;
pub use crate::vector::Vector2;
use crate::vector::Pos;

verus! {

/// The views of the rows of a buffer.
pub open spec fn rows_view(buffer: Seq<Vec<CharCel>>) -> Rows {
    Seq::new(buffer.len(), |i: int| buffer[i]@)
}

/// The reachable position nearest to `v` in `buffer`.
fn clamp_in(buffer: &Vec<Vec<CharCel>>, v: Vector2) -> (pos: Vector2)
    requires
        extent(rows_view(buffer@)) <= i32::MAX,
    ensures
        pos@ == clamp(rows_view(buffer@), v@),
{
    let len = buffer.len();
    if len == 0 {
        return Vector2(0, 0);
    }
    proof {
        lemma_extent_bounds(rows_view(buffer@), 0);
    }
    let y: usize = if v.1 <= 0 {
        0
    } else if v.1 as usize >= len {
        len - 1
    } else {
        v.1 as usize
    };
    let row_len = buffer[y].len();
    proof {
        lemma_extent_bounds(rows_view(buffer@), y as int);
    }
    let x: usize = if v.0 < 0 {
        0
    } else if v.0 as usize >= row_len {
        row_len
    } else {
        v.0 as usize
    };
    Vector2(x as i32, y as i32)
}

/// Editor state: the rows of text, the cursor, and the anchor of the
/// selection while one is active.
pub struct Editor {
    buffer: Vec<Vec<CharCel>>,
    cursor: Vector2,
    select_start: Option<Vector2>,
}

impl View for Editor {
    type V = EditorView;

    closed spec fn view(&self) -> EditorView {
        EditorView {
            rows: rows_view(self.buffer@),
            cursor: self.cursor@,
            anchor: match self.select_start {
                Some(a) => Some(a@),
                None => None,
            },
        }
    }
}

impl Editor {
    /// The invariant of the editor: that of its state.
    pub open spec fn wf(&self) -> bool {
        self@.wf()
    }

    /// An editor without any text, the cursor at the origin.
    pub fn new() -> (editor: Editor)
        ensures
            editor.wf(),
            editor@ == EditorView::empty(),
            editor@.has_room(),
    {
        let editor = Editor { buffer: Vec::new(), cursor: Vector2(0, 0), select_start: None };
        assert(editor@.rows =~= Seq::empty());
        proof {
            lemma_first_row(editor@.rows);
        }
        editor
    }

    /// The editor that starts with the text `s`: one row for each stretch
    /// between line feeds, the cursor at the origin. A carriage return in
    /// front of a line feed belongs to the line break and is dropped. The
    /// empty text gives an editor without any row. The text of the editor is
    /// `s` with its line breaks in their short form: `s` itself, where `s`
    /// holds no carriage return. A text without line feed, and not empty, is
    /// one row.
    pub fn from(s: String) -> (editor: Editor)
        requires
            s@.len() < i32::MAX,
        ensures
            editor.wf(),
            editor@ == EditorView::of_text(s@),
            editor@.text() == short_breaks(s@),
            (forall|i: int| 0 <= i < s@.len() ==> s@[i] != '\r') ==> editor@.text() == s@,
            s@.len() > 0 && (forall|i: int| 0 <= i < s@.len() ==> s@[i] != '\n') ==> editor@.rows
                == seq![s@.map_values(|c: char| CharCel::plain(c))],
    {
        let mut buffer: Vec<Vec<CharCel>> = Vec::new();
        let mut current: Vec<CharCel> = Vec::new();
        let mut any = false;
        for c in it: s.as_str().chars()
            invariant
                it.seq() == s@,
                any == (it.index() > 0),
                rows_view(buffer@).push(current@) == pieces(s@.take(it.index() as int)),
        {
            let ghost done = s@.take(it.index() as int);
            let ghost rows = rows_view(buffer@);
            let ghost row = current@;
            proof {
                assert(s@.take(it.index() + 1).drop_last() =~= done);
                assert(rows.push(row).last() == row);
            }
            any = true;
            if c == '\n' {
                let n = current.len();
                if n > 0 && current[n - 1].char == '\r' {
                    current.pop();
                }
                buffer.push(current);
                current = Vec::new();
                assert(rows_view(buffer@).push(current@) =~= rows.push(row).update(
                    rows.len() as int,
                    without_cr(row),
                ).push(Seq::empty()));
            } else {
                current.push(CharCel::from(c));
                assert(rows_view(buffer@).push(current@) =~= rows.push(row).update(
                    rows.len() as int,
                    row.push(CharCel::plain(c)),
                ));
            }
        }
        proof {
            assert(s@.take(s@.len() as int) =~= s@);
            lemma_pieces(s@);
        }
        if any {
            buffer.push(current);
        } else {
            assert(rows_view(buffer@) =~= Seq::empty());
        }
        let editor = Editor { buffer, cursor: Vector2(0, 0), select_start: None };
        assert(editor@.rows =~= EditorView::of_text(s@).rows);
        proof {
            law_text_short_breaks(s@);
            if forall|i: int| 0 <= i < s@.len() ==> s@[i] != '\r' {
                law_text_round_trip(s@);
            }
            if s@.len() > 0 && (forall|i: int| 0 <= i < s@.len() ==> s@[i] != '\n') {
                law_one_row(s@);
            }
        }
        editor
    }

    /// The whole text: the characters of the rows, with a line feed between
    /// one row and the next.
    pub fn to_text(&self) -> (text: String)
        ensures
            text@ == self@.text(),
    {
        let ghost rows = self@.rows;
        let mut text = String::new();
        let mut i: usize = 0;
        assert(rows.take(0) =~= Seq::empty());
        while i < self.buffer.len()
            invariant
                rows == self@.rows,
                i <= self.buffer.len(),
                text@ == glyphs(join(rows.take(i as int))),
            decreases self.buffer.len() - i,
        {
            let ghost head = if i > 0 {
                join(rows.take(i as int)) + seq![CharCel::line_break()]
            } else {
                Seq::empty()
            };
            if i > 0 {
                text.push('\n');
            }
            assert(text@ =~= glyphs(head));
            let row = &self.buffer[i];
            let mut j: usize = 0;
            while j < row.len()
                invariant
                    j <= row.len(),
                    text@ == glyphs(head + row@.take(j as int)),
                decreases row.len() - j,
            {
                text.push(row[j].char);
                j = j + 1;
                assert(text@ =~= glyphs(head + row@.take(j as int)));
            }
            proof {
                assert(row@.take(j as int) =~= row@);
                assert(rows.take(i + 1) =~= rows.take(i as int).push(row@));
                lemma_join_push(rows.take(i as int), row@);
                assert(head + row@ =~= join(rows.take(i + 1)));
            }
            i = i + 1;
        }
        assert(rows.take(i as int) =~= rows);
        text
    }

    /// One more cell, or one more line break, fits the `i32` coordinates:
    /// the condition under which `write` and `write_at` may be called.
    pub fn has_room(&self) -> (room: bool)
        requires
            self.wf(),
        ensures
            room == self@.has_room(),
    {
        let ghost rows = self@.rows;
        if self.buffer.len() == 0 {
            proof {
                lemma_first_row(rows);
            }
            return true;
        }
        let mut total: usize = 0;
        let mut i: usize = 0;
        assert(rows.take(0) =~= Seq::empty());
        while i < self.buffer.len()
            invariant
                rows == self@.rows,
                extent(rows) <= i32::MAX,
                i <= self.buffer.len(),
                total == extent(rows.take(i as int)),
            decreases self.buffer.len() - i,
        {
            proof {
                lemma_extent_bounds(rows, i as int);
            }
            total = total + self.buffer[i].len() + 1;
            i = i + 1;
        }
        assert(rows.take(i as int) =~= rows);
        total < 0x7fff_ffff
    }

    /// The cursor, as it was last set. It is a reachable position unless an
    /// edit at another place has since taken its place away.
    pub fn cursor_pos(&self) -> (pos: Vector2)
        ensures
            pos@ == self@.cursor,
    {
        self.cursor
    }

    /// Moves the cursor by `direction` and clamps it; returns where it then is.
    pub fn move_cursor(&mut self, direction: Vector2) -> (pos: Vector2)
        requires
            old(self).wf(),
        ensures
            final(self).wf(),
            final(self)@ == old(self)@.move_cursor(direction@),
            pos@ == final(self)@.cursor,
    {
        let column: i64 = self.cursor.0 as i64 + direction.0 as i64;
        let row: i64 = self.cursor.1 as i64 + direction.1 as i64;
        let new_pos = clamp_wide(&self.buffer, column, row);
        self.cursor = new_pos;
        new_pos
    }

    /// Puts the cursor at `location`, clamped; returns where it then is.
    pub fn set_cursor(&mut self, location: Vector2) -> (pos: Vector2)
        requires
            old(self).wf(),
        ensures
            final(self).wf(),
            final(self)@ == old(self)@.set_cursor(location@),
            pos@ == final(self)@.cursor,
    {
        let new_pos = clamp_in(&self.buffer, location);
        proof {
            lemma_clamp_reachable(self@.rows, location@);
        }
        self.cursor = new_pos;
        new_pos
    }

    /// The reachable position nearest to `v`: a row of the buffer, and a
    /// column of that row or the place behind its last cell.
    pub fn clamp_vector(&self, v: Vector2) -> (pos: Vector2)
        requires
            self.wf(),
        ensures
            pos@ == clamp(self@.rows, v@),
            reachable(self@.rows, pos@),
            self@.rows.len() == 0 ==> pos == Vector2(0, 0),
            self@.rows.len() > 0 ==> 0 <= pos.1 < self@.rows.len() && 0 <= pos.0
                <= self@.rows[pos.1 as int].len(),
    {
        let len = self.buffer.len();
        if len == 0 {
            return Vector2(0, 0);
        }
        proof {
            lemma_extent_bounds(self@.rows, 0);
        }
        if v.1 <= 0 {
            self.clamp_to_column(Vector2(v.0, 0))
        } else if v.1 as usize >= len {
            self.clamp_to_column(Vector2(v.0, (len - 1) as i32))
        } else {
            self.clamp_to_column(v)
        }
    }

    /// The column of `v` brought into its row: into `[0, len]`. Where the
    /// buffer has no row `v.1`, the result is the origin.
    pub fn clamp_to_column(&self, v: Vector2) -> (pos: Vector2)
        requires
            self.wf(),
        ensures
            0 <= v.1 < self@.rows.len() ==> pos@ == clamp(self@.rows, v@),
            !(0 <= v.1 < self@.rows.len()) ==> pos == Vector2(0, 0),
    {
        if v.1 < 0 || v.1 as usize >= self.buffer.len() {
            return Vector2(0, 0);
        }
        let len = self.buffer[v.1 as usize].len();
        proof {
            lemma_extent_bounds(self@.rows, v.1 as int);
        }
        if v.0 < 0 {
            Vector2(0, v.1)
        } else if v.0 as usize >= len {
            Vector2(len as i32, v.1)
        } else {
            v
        }
    }

    /// A selection is active.
    pub fn is_selecting(&self) -> (active: bool)
        ensures
            active == self@.selecting(),
    {
        self.select_start.is_some()
    }

    /// The anchor of the selection, while one is active.
    pub fn selection(&self) -> (anchor: Option<Vector2>)
        ensures
            anchor is Some == self@.anchor is Some,
            anchor is Some ==> anchor->0@ == self@.anchor->0,
    {
        self.select_start
    }

    /// Begins a selection at the cursor.
    pub fn begin_select(&mut self)
        ensures
            final(self)@ == old(self)@.begin_select_at(old(self)@.cursor),
    {
        let c = self.cursor;
        self.begin_select_at(c)
    }

    /// Begins a selection at `loc`.
    pub fn begin_select_at(&mut self, loc: Vector2)
        ensures
            final(self)@ == old(self)@.begin_select_at(loc@),
    {
        self.select_start = Some(loc);
    }

    /// Ends the selection.
    pub fn clear_selection(&mut self)
        ensures
            final(self)@ == old(self)@.clear_selection(),
    {
        self.select_start = None;
    }

    /// The cell at `location`, where there is one.
    pub fn get_cell(&self, location: Vector2) -> (cell: Option<CharCel>)
        ensures
            cell == self@.cell_at(location@),
    {
        if location.1 < 0 || location.0 < 0 {
            return None;
        }
        let y = location.1 as usize;
        let x = location.0 as usize;
        if y < self.buffer.len() && x < self.buffer[y].len() {
            Some(self.buffer[y][x])
        } else {
            None
        }
    }

    /// The number of rows.
    pub fn row_count(&self) -> (n: usize)
        ensures
            n == self@.rows.len(),
    {
        self.buffer.len()
    }

    /// The number of cells in the row where the cursor acts: the row of the
    /// cursor, clamped. Zero in a buffer without rows.
    pub fn line_len(&self) -> (n: usize)
        requires
            self.wf(),
        ensures
            n == self@.line_len(),
            n <= i32::MAX,
    {
        if self.buffer.len() == 0 {
            0
        } else {
            let at = clamp_in(&self.buffer, self.cursor);
            proof {
                lemma_clamp_reachable(self@.rows, self@.cursor);
                lemma_extent_bounds(self@.rows, at@.row);
            }
            self.buffer[at.1 as usize].len()
        }
    }

    /// Writes `content` at `location`, clamped. A line feed splits the row
    /// there; any other character becomes a cell there, and the cells behind
    /// it move to the right. The cursor stays as it is, also where the edit
    /// leaves it outside the text.
    pub fn write_at(&mut self, location: Vector2, content: char)
        requires
            old(self).wf(),
            old(self)@.has_room(),
        ensures
            final(self).wf(),
            final(self)@ == old(self)@.write_at(location@, content),
            final(self)@.cursor == old(self)@.cursor,
    {
        let ghost rows0 = self@.rows;
        let ghost base = with_first_row(rows0);
        proof {
            lemma_first_row(rows0);
        }
        if self.buffer.len() == 0 {
            self.buffer.push(Vec::new());
        }
        assert(rows_view(self.buffer@) =~= base);
        let at = clamp_in(&self.buffer, location);
        proof {
            lemma_clamp_reachable(base, location@);
        }
        let x = at.0 as usize;
        let y = at.1 as usize;
        if content == '\n' {
            let after = self.buffer[y].split_off(x);
            self.buffer.insert(y + 1, after);
            proof {
                lemma_split_row(base, at@);
                assert(rows_view(self.buffer@) =~= split_row(base, at@));
            }
        } else {
            self.buffer[y].insert(x, CharCel::from(content));
            proof {
                lemma_insert_cell(base, at@, CharCel::plain(content));
                assert(rows_view(self.buffer@) =~= insert_cell(base, at@, CharCel::plain(content)));
            }
        }
    }

    /// Writes `content` where the cursor acts, which is the cursor clamped,
    /// and puts the cursor behind it: one column to the right, or for a line
    /// feed at the start of the row below.
    ///
    /// While no selection is active, a `delete` right after takes back what
    /// was written: it restores the text and the rows (a buffer without rows
    /// keeps the empty row that it got), hands out the cell written, and puts
    /// the cursor where it acted before.
    pub fn write(&mut self, content: char)
        requires
            old(self).wf(),
            old(self)@.has_room(),
        ensures
            final(self).wf(),
            final(self)@ == old(self)@.write(content),
            old(self)@.anchor is None ==> {
                &&& final(self)@.delete().text() == old(self)@.text()
                &&& final(self)@.delete().rows == with_first_row(old(self)@.rows)
                &&& final(self)@.delete().cursor == old(self)@.caret()
                &&& final(self)@.deleted() == Some(
                    if content == '\n' {
                        CharCel::line_break()
                    } else {
                        CharCel::plain(content)
                    },
                )
            },
    {
        let c = clamp_in(&self.buffer, self.cursor);
        proof {
            if self@.anchor is None {
                if content == '\n' {
                    law_split_merge(self@);
                } else {
                    law_write_delete(self@, content);
                }
            }
            lemma_clamp_reachable(self@.rows, self@.cursor);
            if self@.rows.len() > 0 {
                lemma_extent_bounds(self@.rows, c@.row);
            }
        }
        self.write_at(c, content);
        if content == '\n' {
            self.set_cursor(Vector2(0, c.1 + 1));
        } else {
            self.set_cursor(Vector2(c.0 + 1, c.1));
        }
    }

    /// Deletes in front of `location`, clamped: at the start of a row that
    /// has a row above it, the two rows become one and a line break is
    /// returned; elsewhere the cell before the position leaves and is
    /// returned; at the very start of the text nothing happens. The cursor
    /// stays as it is, also where the edit leaves it outside the text.
    pub fn delete_at(&mut self, location: Vector2) -> (deleted: Option<CharCel>)
        requires
            old(self).wf(),
        ensures
            final(self).wf(),
            final(self)@ == old(self)@.delete_at(location@),
            final(self)@.cursor == old(self)@.cursor,
            deleted == old(self)@.deleted_at(location@),
    {
        let ghost rows0 = self@.rows;
        if self.buffer.len() == 0 {
            return None;
        }
        let at = clamp_in(&self.buffer, location);
        proof {
            lemma_clamp_reachable(rows0, location@);
        }
        let x = at.0 as usize;
        let y = at.1 as usize;
        let deleted = if x == 0 {
            if y >= 1 {
                let mut row = self.buffer.remove(y);
                self.buffer[y - 1].append(&mut row);
                proof {
                    lemma_merge_row(rows0, y as int);
                    assert(rows_view(self.buffer@) =~= merge_row(rows0, y as int));
                }
                Some(CharCel::from('\n'))
            } else {
                None
            }
        } else {
            let cell = self.buffer[y].remove(x - 1);
            proof {
                lemma_remove_cell(rows0, at@);
                assert(rows_view(self.buffer@) =~= remove_cell(rows0, at@));
            }
            Some(cell)
        };
        deleted
    }

    /// The selected text, while a selection is active; the buffer stays as
    /// it is.
    pub fn copy(&self) -> (copied: Option<Vec<CharCel>>)
        requires
            self.wf(),
        ensures
            copied is Some == self@.copy() is Some,
            copied is Some ==> copied->0@ == self@.copy()->0,
    {
        match self.select_start {
            Some(anchor) => Some(self.copy_range(anchor, self.cursor)),
            None => None,
        }
    }

    /// Takes the selected text out of the buffer and hands it out, while a
    /// selection is active; the selection ends.
    pub fn cut(&mut self) -> (removed: Option<Vec<CharCel>>)
        requires
            old(self).wf(),
        ensures
            final(self).wf(),
            final(self)@ == old(self)@.cut(),
            removed is Some == old(self)@.copy() is Some,
            removed is Some ==> removed->0@ == old(self)@.copy()->0,
    {
        match self.select_start {
            Some(anchor) => {
                self.select_start = None;
                let c = self.cursor;
                Some(self.cut_range(anchor, c))
            },
            None => None,
        }
    }

    /// The linear text between `from` and `to`, which are clamped and may
    /// come in either order: the cells from the earlier position up to, not
    /// including, the later one, with a line-break cell for each row end
    /// passed. The buffer stays as it is.
    pub fn copy_range(&self, from: Vector2, to: Vector2) -> (copied: Vec<CharCel>)
        requires
            self.wf(),
        ensures
            copied@ == self@.copy_range(from@, to@),
    {
        let ghost rows = self@.rows;
        let from = clamp_in(&self.buffer, from);
        let to = clamp_in(&self.buffer, to);
        let (start, end) = if to < from {
            (to, from)
        } else {
            (from, to)
        };
        proof {
            lemma_clamp_reachable(rows, from@);
            lemma_clamp_reachable(rows, to@);
            if rows.len() > 0 {
                lemma_offset_bounds(rows, start@);
            } else {
                assert(rows.take(0) =~= rows);
            }
        }
        let mut data: Vec<CharCel> = Vec::new();
        let mut position = start;
        assert(data@ =~= join(rows).subrange(offset(rows, start@), offset(rows, start@)));
        while position < end
            invariant
                self.wf(),
                rows == self@.rows,
                reachable(rows, start@),
                reachable(rows, end@),
                reachable(rows, position@),
                start@.not_after(position@),
                position@.not_after(end@),
                offset(rows, start@) <= offset(rows, position@),
                data@ == join(rows).subrange(offset(rows, start@), offset(rows, position@)),
            decreases offset(rows, end@) - offset(rows, position@),
        {
            proof {
                lemma_join_index(rows, position@);
                lemma_extent_bounds(rows, position@.row);
                lemma_offset_bounds(rows, start@);
            }
            let row = &self.buffer[position.1 as usize];
            if position.0 as usize == row.len() {
                data.push(CharCel::from('\n'));
                position = Vector2(0, position.1 + 1);
            } else {
                data.push(row[position.0 as usize]);
                position = Vector2(position.0 + 1, position.1);
            }
            proof {
                if position@ != end@ {
                    lemma_offset_order(rows, position@, end@);
                }
                assert(data@ =~= join(rows).subrange(
                    offset(rows, start@),
                    offset(rows, position@),
                ));
            }
        }
        data
    }

    /// Takes the linear text between `from` and `to` out of the buffer and
    /// hands it out: the very cells that `copy_range` returns for the same
    /// arguments. What follows the range closes up to what precedes it. The
    /// cursor is relocated as `relocated` says, and clamped.
    pub fn cut_range(&mut self, from: Vector2, to: Vector2) -> (removed: Vec<CharCel>)
        requires
            old(self).wf(),
        ensures
            final(self).wf(),
            final(self)@ == old(self)@.cut_range(from@, to@),
            removed@ == old(self)@.copy_range(from@, to@),
    {
        let ghost rows0 = self@.rows;
        let from = clamp_in(&self.buffer, from);
        let to = clamp_in(&self.buffer, to);
        let (start, end) = if to < from {
            (to, from)
        } else {
            (from, to)
        };
        proof {
            lemma_clamp_reachable(rows0, from@);
            lemma_clamp_reachable(rows0, to@);
            if rows0.len() > 0 {
                lemma_extent_bounds(rows0, start@.row);
            }
        }
        let saved = clamp_in(&self.buffer, self.cursor);
        proof {
            lemma_clamp_reachable(rows0, self@.cursor);
        }
        let run: i32 = if start.1 == end.1 {
            end.0 - start.0
        } else {
            self.buffer[start.1 as usize].len() as i32 - start.0
        };
        let breaks: i32 = end.1 - start.1;
        self.cursor = end;
        let taken = self.delete_back_to(start);
        let removed = reversed(taken);
        let target = if start < saved && saved < end {
            start
        } else if saved.1 == end.1 && !(saved < end) {
            Vector2(saved.0 - run, saved.1)
        } else if end < saved {
            Vector2(saved.0, saved.1 - breaks)
        } else {
            saved
        };
        self.set_cursor(target);
        removed
    }

    /// Deletes in front of the cursor until the cursor stands at `start`,
    /// and returns what was deleted, last deleted cell last.
    fn delete_back_to(&mut self, start: Vector2) -> (taken: Vec<CharCel>)
        requires
            old(self).wf(),
            reachable(old(self)@.rows, start@),
            reachable(old(self)@.rows, old(self)@.cursor),
            start@.not_after(old(self)@.cursor),
        ensures
            final(self).wf(),
            final(self)@.anchor == old(self)@.anchor,
            final(self)@.cursor == start@,
            final(self)@.rows == if start@ == old(self)@.cursor {
                old(self)@.rows
            } else {
                remove_range(old(self)@.rows, start@, old(self)@.cursor)
            },
            taken@.reverse() == between(old(self)@.rows, start@, old(self)@.cursor),
    {
        let ghost rows0 = self@.rows;
        let ghost end = self@.cursor;
        proof {
            if rows0.len() > 0 {
                lemma_remove_nothing(rows0, end);
                lemma_offset_bounds(rows0, end);
                lemma_offset_bounds(rows0, start@);
            } else {
                assert(rows0.take(0) =~= rows0);
            }
        }
        let mut taken: Vec<CharCel> = Vec::new();
        while start < self.cursor
            invariant
                self.wf(),
                self@.anchor == old(self)@.anchor,
                rows0 == old(self)@.rows,
                end == old(self)@.cursor,
                reachable(rows0, start@),
                reachable(rows0, end),
                reachable(rows0, self@.cursor),
                start@.not_after(self@.cursor),
                self@.cursor.not_after(end),
                rows0.len() > 0 ==> self@.rows == remove_range(rows0, self@.cursor, end),
                rows0.len() == 0 ==> self@.rows == rows0,
                0 <= offset(rows0, self@.cursor),
                offset(rows0, end) <= join(rows0).len(),
                taken@.len() == offset(rows0, end) - offset(rows0, self@.cursor),
                forall|i: int|
                    0 <= i < taken@.len() ==> taken@[i] == join(rows0)[offset(rows0, end) - 1 - i],
            decreases offset(rows0, self@.cursor),
        {
            proof {
                lemma_backspace_in_cut(self@, rows0, end);
            }
            let deleted = self.backspace();
            taken.push(deleted.unwrap());
        }
        proof {
            assert(self@.cursor == start@);
            assert(taken@.reverse() =~= between(rows0, start@, end));
        }
        taken
    }

    /// With a selection active, takes the selected text out and ends the
    /// selection, and returns nothing. Otherwise deletes in front of the
    /// place where the cursor acts, puts the cursor where the deleted cell or
    /// line break stood, and returns what was deleted.
    pub fn delete(&mut self) -> (deleted: Option<CharCel>)
        requires
            old(self).wf(),
        ensures
            final(self).wf(),
            final(self)@ == old(self)@.delete(),
            deleted == old(self)@.deleted(),
    {
        match self.select_start {
            Some(anchor) => {
                self.select_start = None;
                let c = self.cursor;
                self.cut_range(anchor, c);
                None
            },
            None => self.backspace(),
        }
    }

    /// Deletes in front of the place where the cursor acts, which is the
    /// cursor clamped, and puts the cursor where the deleted cell or line
    /// break stood.
    fn backspace(&mut self) -> (deleted: Option<CharCel>)
        requires
            old(self).wf(),
        ensures
            final(self).wf(),
            final(self)@ == old(self)@.backspace(),
            deleted == old(self)@.deleted_at(old(self)@.caret()),
    {
        let c = clamp_in(&self.buffer, self.cursor);
        proof {
            lemma_clamp_reachable(self@.rows, self@.cursor);
        }
        let previous_row_length: usize = if c.1 > 0 {
            self.buffer[(c.1 - 1) as usize].len()
        } else {
            0
        };
        proof {
            if c.1 > 0 {
                lemma_extent_bounds(self@.rows, c@.row - 1);
            }
        }
        let deleted = self.delete_at(c);
        if c.0 == 0 && c.1 >= 1 {
            self.set_cursor(Vector2(previous_row_length as i32, c.1 - 1));
        } else {
            self.set_cursor(Vector2(c.0 - 1, c.1));
        }
        deleted
    }
}

/// One step of a cut: in a state whose rows are `rows0` without the text from
/// the cursor to `end`, the deletion in front of the cursor leaves `rows0`
/// without the text from one step before the cursor to `end`, puts the cursor
/// there, and hands out what the linear text of `rows0` holds there.
proof fn lemma_backspace_in_cut(v: EditorView, rows0: Rows, end: Pos)
    requires
        rows0.len() > 0,
        reachable(rows0, v.cursor),
        reachable(rows0, end),
        v.cursor.not_after(end),
        v.cursor.col > 0 || v.cursor.row > 0,
        v.rows == remove_range(rows0, v.cursor, end),
    ensures
        v.backspace().cursor == step_back(rows0, v.cursor),
        v.backspace().rows == remove_range(rows0, step_back(rows0, v.cursor), end),
        reachable(rows0, step_back(rows0, v.cursor)),
        offset(rows0, step_back(rows0, v.cursor)) + 1 == offset(rows0, v.cursor),
        0 <= offset(rows0, step_back(rows0, v.cursor)) < join(rows0).len(),
        v.deleted_at(v.cursor) == Some(join(rows0)[offset(rows0, step_back(rows0, v.cursor))]),
        step_back(rows0, v.cursor).not_after(end),
        forall|s: Pos|
            reachable(rows0, s) && s.before(v.cursor) ==> s.not_after(
                #[trigger] step_back(rows0, v.cursor),
            ),
{
    lemma_cut_step(rows0, v.cursor, end);
}

/// The cells of `cells` in opposite order.
fn reversed(cells: Vec<CharCel>) -> (out: Vec<CharCel>)
    ensures
        out@ == cells@.reverse(),
{
    let mut out: Vec<CharCel> = Vec::new();
    let mut i: usize = cells.len();
    while i > 0
        invariant
            i <= cells.len(),
            out@.len() == cells.len() - i,
            forall|j: int| 0 <= j < out@.len() ==> out@[j] == cells@[cells.len() - 1 - j],
        decreases i,
    {
        i = i - 1;
        out.push(cells[i]);
    }
    assert(out@ =~= cells@.reverse());
    out
}

/// The reachable position nearest to the column and row given, which may lie
/// outside the `i32` range.
fn clamp_wide(buffer: &Vec<Vec<CharCel>>, column: i64, row: i64) -> (pos: Vector2)
    requires
        extent(rows_view(buffer@)) <= i32::MAX,
    ensures
        pos@ == clamp(rows_view(buffer@), Pos { col: column as int, row: row as int }),
{
    let c: i32 = if column < -1 {
        -1
    } else if column > 0x7fff_ffff {
        0x7fff_ffff
    } else {
        column as i32
    };
    let r: i32 = if row < -1 {
        -1
    } else if row > 0x7fff_ffff {
        0x7fff_ffff
    } else {
        row as i32
    };
    proof {
        let rows = rows_view(buffer@);
        if rows.len() > 0 {
            lemma_extent_bounds(rows, 0);
            lemma_extent_bounds(rows, clamp(rows, Pos { col: column as int, row: row as int }).row);
        }
    }
    clamp_in(buffer, Vector2(c, r))
}

} // verus!
