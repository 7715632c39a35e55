//! The editing session as the contracts see it: the rows, the cursor and the
//! selection anchor, and each operation as a function from one such state to
//! the next.

use vstd::prelude::*;
use crate::cell::CharCel;
use crate::grid::{
    between, clamp, extent, glyphs, insert_cell, join, merge_row, offset, remove_cell,
    remove_range, rows_of_text, split_row, well_formed, with_first_row, Rows,
};
use crate::vector::Pos;

verus! {

/// Where a position that was saved before a cut belongs afterwards. `start`
/// and `end` bound what was cut, `run` is the number of cells cut from the
/// row of `start`, `breaks` the number of line breaks cut.
///
/// A position strictly inside the range falls back to `start`. One on the
/// row of `end`, at `end` or behind it, moves `run` columns to the left. One
/// on a later row moves `breaks` rows up. Any other stays.
pub open spec fn relocated(saved: Pos, start: Pos, end: Pos, run: int, breaks: int) -> Pos {
    if start.before(saved) && saved.before(end) {
        start
    } else if saved.row == end.row && !saved.before(end) {
        Pos { col: saved.col - run, row: saved.row }
    } else if end.before(saved) {
        Pos { col: saved.col, row: saved.row - breaks }
    } else {
        saved
    }
}

/// The state of an editing session.
pub ghost struct EditorView {
    /// The text, row by row.
    pub rows: Rows,
    /// The cursor as it was last set. An edit at another place may leave it
    /// outside the text; what reads it takes it clamped: see `caret`.
    pub cursor: Pos,
    /// Where the selection began, while one is active.
    pub anchor: Option<Pos>,
}

impl EditorView {
    /// The rows are well formed.
    pub open spec fn wf(self) -> bool {
        well_formed(self.rows)
    }

    /// Where the cursor acts: the reachable position nearest to it.
    pub open spec fn caret(self) -> Pos {
        clamp(self.rows, self.cursor)
    }

    /// The session that starts without any text.
    pub open spec fn empty() -> EditorView {
        EditorView { rows: Seq::empty(), cursor: Pos { col: 0, row: 0 }, anchor: None }
    }

    /// The session that starts with the text `s`.
    pub open spec fn of_text(s: Seq<char>) -> EditorView {
        EditorView { rows: rows_of_text(s), cursor: Pos { col: 0, row: 0 }, anchor: None }
    }

    /// The whole text: the characters of the rows, a line feed between rows.
    pub open spec fn text(self) -> Seq<char> {
        glyphs(join(self.rows))
    }

    /// The offset in the whole text of the place where the cursor acts.
    pub open spec fn cursor_offset(self) -> int {
        offset(self.rows, self.caret())
    }

    /// A selection is active.
    pub open spec fn selecting(self) -> bool {
        self.anchor is Some
    }

    /// The cell at `p`, where there is one.
    pub open spec fn cell_at(self, p: Pos) -> Option<CharCel> {
        if 0 <= p.row < self.rows.len() && 0 <= p.col < self.rows[p.row].len() {
            Some(self.rows[p.row][p.col])
        } else {
            None
        }
    }

    /// The number of cells in the row where the cursor acts; zero in a
    /// buffer without rows.
    pub open spec fn line_len(self) -> int {
        if self.rows.len() > 0 {
            self.rows[self.caret().row].len() as int
        } else {
            0
        }
    }

    /// The cursor put at the reachable position nearest to `p`.
    pub open spec fn set_cursor(self, p: Pos) -> EditorView {
        EditorView { cursor: clamp(self.rows, p), ..self }
    }

    /// The cursor moved by `d`, as far as the text allows.
    pub open spec fn move_cursor(self, d: Pos) -> EditorView {
        self.set_cursor(self.cursor.plus(d))
    }

    /// The selection begun at `p`. The anchor is kept as given; it is
    /// clamped when the selected range is read.
    pub open spec fn begin_select_at(self, p: Pos) -> EditorView {
        EditorView { anchor: Some(p), ..self }
    }

    /// No selection.
    pub open spec fn clear_selection(self) -> EditorView {
        EditorView { anchor: None, ..self }
    }

    /// One more cell, or one more line break, fits the `i32` coordinates.
    pub open spec fn has_room(self) -> bool {
        extent(with_first_row(self.rows)) < i32::MAX
    }

    /// `ch` written at the reachable position nearest to `p`. A line feed
    /// splits the row there; any other character becomes a cell there. The
    /// cursor and the selection stay as they are.
    pub open spec fn write_at(self, p: Pos, ch: char) -> EditorView {
        let base = with_first_row(self.rows);
        let at = clamp(base, p);
        let rows = if ch == '\n' {
            split_row(base, at)
        } else {
            insert_cell(base, at, CharCel::plain(ch))
        };
        EditorView { rows, ..self }
    }

    /// `ch` written where the cursor acts, and the cursor put behind it: one
    /// column to the right of that place, or for a line feed at the start of
    /// the new row below it.
    pub open spec fn write(self, ch: char) -> EditorView {
        let at = self.caret();
        let rows = self.write_at(at, ch).rows;
        let target = if ch == '\n' {
            Pos { col: 0, row: at.row + 1 }
        } else {
            Pos { col: at.col + 1, row: at.row }
        };
        EditorView { rows, cursor: clamp(rows, target), ..self }
    }

    /// What `delete_at(p)` takes out: a line break where the position is the
    /// start of a row that has a row above it, else the cell before the
    /// position, or nothing at the very start of the text.
    pub open spec fn deleted_at(self, p: Pos) -> Option<CharCel> {
        let at = clamp(self.rows, p);
        if self.rows.len() == 0 {
            None
        } else if at.col == 0 {
            if at.row >= 1 {
                Some(CharCel::line_break())
            } else {
                None
            }
        } else {
            Some(self.rows[at.row][at.col - 1])
        }
    }

    /// The deletion in front of the reachable position nearest to `p`: at the
    /// start of a row the row is appended to the one above, elsewhere the
    /// cell before the position leaves. The cursor and the selection stay as
    /// they are.
    pub open spec fn delete_at(self, p: Pos) -> EditorView {
        let at = clamp(self.rows, p);
        let rows = if self.rows.len() == 0 {
            self.rows
        } else if at.col == 0 {
            if at.row >= 1 {
                merge_row(self.rows, at.row)
            } else {
                self.rows
            }
        } else {
            remove_cell(self.rows, at)
        };
        EditorView { rows, ..self }
    }

    /// The deletion in front of the place where the cursor acts, and the
    /// cursor put where the deleted cell or line break stood.
    pub open spec fn backspace(self) -> EditorView {
        let c = self.caret();
        let rows = self.delete_at(c).rows;
        let target = if c.col == 0 && c.row >= 1 {
            Pos { col: self.rows[c.row - 1].len() as int, row: c.row - 1 }
        } else {
            Pos { col: c.col - 1, row: c.row }
        };
        EditorView { rows, cursor: clamp(rows, target), ..self }
    }

    /// The earlier of the two clamped end points of a range.
    pub open spec fn range_start(self, a: Pos, b: Pos) -> Pos {
        clamp(self.rows, a).earlier(clamp(self.rows, b))
    }

    /// The later of the two clamped end points of a range.
    pub open spec fn range_end(self, a: Pos, b: Pos) -> Pos {
        clamp(self.rows, a).later(clamp(self.rows, b))
    }

    /// The linear text between two positions, given in either order and
    /// clamped: from the earlier one up to, not including, the later one.
    pub open spec fn copy_range(self, a: Pos, b: Pos) -> Seq<CharCel> {
        between(self.rows, self.range_start(a, b), self.range_end(a, b))
    }

    /// The number of cells that a cut between `start` and `end` takes from
    /// the row of `start`.
    pub open spec fn cut_run(self, start: Pos, end: Pos) -> int {
        if start.row == end.row {
            end.col - start.col
        } else {
            self.rows[start.row].len() - start.col
        }
    }

    /// The range between two positions taken out of the text, and the cursor
    /// relocated from the place where it acted.
    pub open spec fn cut_range(self, a: Pos, b: Pos) -> EditorView {
        let start = self.range_start(a, b);
        let end = self.range_end(a, b);
        let rows = if start == end {
            self.rows
        } else {
            remove_range(self.rows, start, end)
        };
        let target = relocated(
            self.caret(),
            start,
            end,
            self.cut_run(start, end),
            end.row - start.row,
        );
        EditorView { rows, cursor: clamp(rows, target), ..self }
    }

    /// What `copy` hands out: the selected text, while a selection is active.
    pub open spec fn copy(self) -> Option<Seq<CharCel>> {
        match self.anchor {
            Some(a) => Some(self.copy_range(a, self.cursor)),
            None => None,
        }
    }

    /// The selected text taken out and the selection ended; without a
    /// selection, no change.
    pub open spec fn cut(self) -> EditorView {
        match self.anchor {
            Some(a) => self.cut_range(a, self.cursor).clear_selection(),
            None => self,
        }
    }

    /// What `delete` hands out: nothing when it removes a selection, else
    /// what the deletion in front of the place where the cursor acts takes
    /// out.
    pub open spec fn deleted(self) -> Option<CharCel> {
        match self.anchor {
            Some(_) => None,
            None => self.deleted_at(self.caret()),
        }
    }

    /// With a selection active, the selected text is taken out and the
    /// selection ends; else the deletion in front of the cursor.
    pub open spec fn delete(self) -> EditorView {
        match self.anchor {
            Some(_) => self.cut(),
            None => self.backspace(),
        }
    }
}

} // verus!
