//! The buffer as the contracts see it: rows of cells, the positions that can
//! be reached in them, and the linear text that the rows spell when they are
//! joined by line breaks.

use vstd::prelude::*;
use crate::cell::CharCel;
use crate::vector::Pos;

verus! {

/// The rows of a buffer, top to bottom; each row holds its cells left to right.
pub type Rows = Seq<Seq<CharCel>>;

/// The number of cells in all rows, plus one for each row: the room that the
/// rows take in linear text when every row is closed by a line break.
pub open spec fn extent(rows: Rows) -> int
    decreases rows.len(),
{
    if rows.len() == 0 {
        0
    } else {
        extent(rows.drop_last()) + rows.last().len() + 1
    }
}

/// No cell of any row holds a line feed: line breaks exist only between rows.
pub open spec fn no_line_feed(rows: Rows) -> bool {
    forall|r: int, c: int|
        0 <= r < rows.len() && 0 <= c < rows[r].len() ==> (#[trigger] rows[r][c]).char != '\n'
}

/// What every buffer satisfies: its extent fits the `i32` coordinates, and
/// no cell holds a line feed.
pub open spec fn well_formed(rows: Rows) -> bool {
    &&& extent(rows) <= i32::MAX
    &&& no_line_feed(rows)
}

/// The rows to edit: an empty buffer gets its first, empty row.
pub open spec fn with_first_row(rows: Rows) -> Rows {
    if rows.len() == 0 {
        seq![Seq::<CharCel>::empty()]
    } else {
        rows
    }
}

/// The nearest reachable position: the row is brought into `[0, rows.len())`,
/// then the column into `[0, len]` of that row, whose upper end is the place
/// where a cell is appended. Without any row the result is the origin.
pub open spec fn clamp(rows: Rows, p: Pos) -> Pos {
    if rows.len() == 0 {
        Pos { col: 0, row: 0 }
    } else {
        let row = if p.row <= 0 {
            0
        } else if p.row >= rows.len() {
            rows.len() - 1
        } else {
            p.row
        };
        let len = rows[row].len() as int;
        let col = if p.col < 0 {
            0
        } else if p.col >= len {
            len
        } else {
            p.col
        };
        Pos { col, row }
    }
}

/// `p` is a position that `clamp` leaves alone.
pub open spec fn reachable(rows: Rows, p: Pos) -> bool {
    clamp(rows, p) == p
}

/// The offset in linear text at which row `r` begins.
pub open spec fn row_start(rows: Rows, r: int) -> int {
    extent(rows.take(r))
}

/// The offset in linear text of the position `p`.
pub open spec fn offset(rows: Rows, p: Pos) -> int {
    row_start(rows, p.row) + p.col
}

/// The linear text: the rows, with one line-break cell between neighbours.
pub open spec fn join(rows: Rows) -> Seq<CharCel>
    decreases rows.len(),
{
    if rows.len() == 0 {
        Seq::empty()
    } else if rows.len() == 1 {
        rows[0]
    } else {
        join(rows.drop_last()) + seq![CharCel::line_break()] + rows.last()
    }
}

/// The characters of a run of cells.
pub open spec fn glyphs(cells: Seq<CharCel>) -> Seq<char> {
    cells.map_values(|c: CharCel| c.char)
}

/// The cells of the linear text from `start` up to, not including, `end`.
pub open spec fn between(rows: Rows, start: Pos, end: Pos) -> Seq<CharCel> {
    join(rows).subrange(offset(rows, start), offset(rows, end))
}

/// `cell` put at `p`; the cells from `p` on move one column to the right.
pub open spec fn insert_cell(rows: Rows, p: Pos, cell: CharCel) -> Rows {
    rows.update(p.row, rows[p.row].insert(p.col, cell))
}

/// The row of `p` cut in two at `p`: what stood before `p` stays, what stood
/// from `p` on becomes a new row right below.
pub open spec fn split_row(rows: Rows, p: Pos) -> Rows {
    rows.update(p.row, rows[p.row].take(p.col)).insert(p.row + 1, rows[p.row].skip(p.col))
}

/// The cell before `p` taken out of its row.
pub open spec fn remove_cell(rows: Rows, p: Pos) -> Rows {
    rows.update(p.row, rows[p.row].remove(p.col - 1))
}

/// Row `r` appended to the row above it.
pub open spec fn merge_row(rows: Rows, r: int) -> Rows {
    rows.update(r - 1, rows[r - 1] + rows[r]).remove(r)
}

/// The text from `start` up to `end` taken out: the rows before `start`, one
/// row made of what precedes `start` and what follows `end`, the rows after.
pub open spec fn remove_range(rows: Rows, start: Pos, end: Pos) -> Rows {
    rows.take(start.row).push(rows[start.row].take(start.col) + rows[end.row].skip(end.col))
        + rows.skip(end.row + 1)
}

/// `row` without its last cell, if that is a carriage return.
pub open spec fn without_cr(row: Seq<CharCel>) -> Seq<CharCel> {
    if row.len() > 0 && row.last().char == '\r' {
        row.drop_last()
    } else {
        row
    }
}

/// The stretches of `s` between line feeds, as rows; there is always a last
/// one, which may be empty. A row that a line feed closes loses one carriage
/// return in front of that line feed.
pub open spec fn pieces(s: Seq<char>) -> Rows
    decreases s.len(),
{
    if s.len() == 0 {
        seq![Seq::<CharCel>::empty()]
    } else {
        let before = pieces(s.drop_last());
        if s.last() == '\n' {
            before.update(before.len() - 1, without_cr(before.last())).push(Seq::empty())
        } else {
            before.update(before.len() - 1, before.last().push(CharCel::plain(s.last())))
        }
    }
}

/// `s` with every carriage return taken out that stands right in front of a
/// line feed: the text with its line breaks in their short form.
pub open spec fn short_breaks(s: Seq<char>) -> Seq<char>
    decreases s.len(),
{
    if s.len() == 0 {
        Seq::empty()
    } else {
        let before = short_breaks(s.drop_last());
        if s.last() == '\n' && s.len() >= 2 && s[s.len() - 2] == '\r' {
            before.drop_last().push('\n')
        } else {
            before.push(s.last())
        }
    }
}

/// The rows that a text spells. The empty text has no row; any other text has
/// one row more than it has line feeds, so a text that ends in a line feed
/// ends in an empty row.
pub open spec fn rows_of_text(s: Seq<char>) -> Rows {
    if s.len() == 0 {
        Seq::empty()
    } else {
        pieces(s)
    }
}

/// Each further row adds its cells and one to the extent.
pub proof fn lemma_extent_step(rows: Rows, r: int)
    requires
        0 <= r < rows.len(),
    ensures
        extent(rows.take(r + 1)) == extent(rows.take(r)) + rows[r].len() + 1,
{
    assert(rows.take(r + 1).drop_last() =~= rows.take(r));
}

/// Row starts grow with the row, by at least one for each row.
pub proof fn lemma_row_start_grows(rows: Rows, a: int, b: int)
    requires
        0 <= a <= b <= rows.len(),
    ensures
        row_start(rows, a) + (b - a) <= row_start(rows, b),
        0 <= row_start(rows, a),
    decreases b,
{
    if a < b {
        lemma_row_start_grows(rows, a, b - 1);
        lemma_extent_step(rows, b - 1);
    } else if a > 0 {
        lemma_row_start_grows(rows, a - 1, a - 1);
        lemma_extent_step(rows, a - 1);
    } else {
        assert(rows.take(0) =~= Seq::<Seq<CharCel>>::empty());
    }
}

/// Every row lies inside the extent, behind its start and before the next.
pub proof fn lemma_extent_bounds(rows: Rows, r: int)
    requires
        0 <= r < rows.len(),
    ensures
        0 <= row_start(rows, r),
        row_start(rows, r) + rows[r].len() + 1 == row_start(rows, r + 1),
        row_start(rows, r + 1) <= extent(rows),
        rows.len() <= extent(rows),
{
    lemma_extent_step(rows, r);
    lemma_row_start_grows(rows, r, r);
    lemma_row_start_grows(rows, r + 1, rows.len() as int);
    lemma_row_start_grows(rows, 0, rows.len() as int);
    assert(rows.take(rows.len() as int) =~= rows);
    assert(rows.take(0) =~= Seq::<Seq<CharCel>>::empty());
}

/// Positions earlier in reading order have smaller offsets.
pub proof fn lemma_offset_order(rows: Rows, p: Pos, q: Pos)
    requires
        rows.len() > 0,
        reachable(rows, p),
        reachable(rows, q),
        p.before(q),
    ensures
        offset(rows, p) < offset(rows, q),
{
    if p.row < q.row {
        lemma_extent_bounds(rows, p.row);
        lemma_row_start_grows(rows, p.row + 1, q.row);
    }
}

/// Replacing one row changes the extent by the difference in length.
pub proof fn lemma_extent_update(rows: Rows, r: int, row: Seq<CharCel>)
    requires
        0 <= r < rows.len(),
    ensures
        extent(rows.update(r, row)) == extent(rows) - rows[r].len() + row.len(),
    decreases rows.len(),
{
    let m = rows.update(r, row);
    if r == rows.len() - 1 {
        assert(m.drop_last() =~= rows.drop_last());
    } else {
        assert(m.drop_last() =~= rows.drop_last().update(r, row));
        lemma_extent_update(rows.drop_last(), r, row);
    }
}

/// A further row adds its cells and one to the extent.
pub proof fn lemma_extent_insert(rows: Rows, i: int, row: Seq<CharCel>)
    requires
        0 <= i <= rows.len(),
    ensures
        extent(rows.insert(i, row)) == extent(rows) + row.len() + 1,
    decreases rows.len(),
{
    let m = rows.insert(i, row);
    if i == rows.len() {
        assert(m.drop_last() =~= rows);
    } else {
        assert(m.drop_last() =~= rows.drop_last().insert(i, row));
        lemma_extent_insert(rows.drop_last(), i, row);
    }
}

/// Taking a row out takes its cells and one from the extent.
pub proof fn lemma_extent_remove(rows: Rows, i: int)
    requires
        0 <= i < rows.len(),
    ensures
        extent(rows.remove(i)) == extent(rows) - rows[i].len() - 1,
    decreases rows.len(),
{
    let m = rows.remove(i);
    if i == rows.len() - 1 {
        assert(m =~= rows.drop_last());
    } else {
        assert(m.drop_last() =~= rows.drop_last().remove(i));
        lemma_extent_remove(rows.drop_last(), i);
    }
}

/// The linear text is one cell shorter than the extent: the last row has no
/// line break behind it.
pub proof fn lemma_join_len(rows: Rows)
    requires
        rows.len() > 0,
    ensures
        join(rows).len() + 1 == extent(rows),
    decreases rows.len(),
{
    if rows.len() == 1 {
        assert(extent(rows.drop_last()) == 0);
    } else {
        lemma_join_len(rows.drop_last());
    }
}

/// What the linear text holds at the offset of a position: the cell there,
/// or a line break where the position is the end of a row that has a
/// successor.
pub proof fn lemma_join_index(rows: Rows, p: Pos)
    requires
        reachable(rows, p),
        0 <= p.row < rows.len(),
        p.col < rows[p.row].len() || p.row < rows.len() - 1,
    ensures
        0 <= offset(rows, p) < join(rows).len(),
        join(rows)[offset(rows, p)] == if p.col < rows[p.row].len() {
            rows[p.row][p.col]
        } else {
            CharCel::line_break()
        },
    decreases rows.len(),
{
    let n = rows.len() as int;
    if n == 1 {
        assert(rows.take(0) =~= Seq::<Seq<CharCel>>::empty());
    } else {
        let d = rows.drop_last();
        lemma_join_len(d);
        assert(rows.take(n - 1) =~= d);
        if p.row == n - 1 {
        } else if p.row == n - 2 && p.col == rows[p.row].len() {
            lemma_extent_step(rows, n - 2);
        } else {
            assert(d.take(p.row) =~= rows.take(p.row));
            lemma_join_index(d, p);
        }
    }
}

/// The offset of a reachable position lies within the linear text.
pub proof fn lemma_offset_bounds(rows: Rows, p: Pos)
    requires
        rows.len() > 0,
        reachable(rows, p),
    ensures
        0 <= offset(rows, p) <= join(rows).len(),
{
    lemma_extent_bounds(rows, p.row);
    lemma_join_len(rows);
}

/// Clamping gives a reachable position.
pub proof fn lemma_clamp_reachable(rows: Rows, p: Pos)
    ensures
        reachable(rows, clamp(rows, p)),
        rows.len() > 0 ==> 0 <= clamp(rows, p).row < rows.len() && 0 <= clamp(rows, p).col
            <= rows[clamp(rows, p).row].len(),
        rows.len() == 0 ==> clamp(rows, p) == (Pos { col: 0, row: 0 }),
{
}

/// The first row of an empty buffer keeps it well formed.
pub proof fn lemma_first_row(rows: Rows)
    requires
        well_formed(rows),
    ensures
        well_formed(with_first_row(rows)),
        with_first_row(rows).len() > 0,
        rows.len() == 0 ==> extent(with_first_row(rows)) == 1,
{
    if rows.len() == 0 {
        let base = with_first_row(rows);
        assert(base.drop_last() =~= Seq::<Seq<CharCel>>::empty());
        assert(extent(base.drop_last()) == 0);
    }
}

/// A cell put into a row takes one more place; the rows stay well formed
/// while there is room.
pub proof fn lemma_insert_cell(rows: Rows, p: Pos, cell: CharCel)
    requires
        well_formed(rows),
        0 <= p.row < rows.len(),
        0 <= p.col <= rows[p.row].len(),
        cell.char != '\n',
    ensures
        extent(insert_cell(rows, p, cell)) == extent(rows) + 1,
        no_line_feed(insert_cell(rows, p, cell)),
{
    let new = insert_cell(rows, p, cell);
    lemma_extent_update(rows, p.row, rows[p.row].insert(p.col, cell));
    assert forall|r: int, c: int| 0 <= r < new.len() && 0 <= c < new[r].len() implies (
    #[trigger] new[r][c]).char != '\n' by {
        if r == p.row {
            if c < p.col {
                assert(new[r][c] == rows[r][c]);
            } else if c > p.col {
                assert(new[r][c] == rows[r][c - 1]);
            }
        } else {
            assert(new[r][c] == rows[r][c]);
        }
    }
}

/// A row cut in two takes one more place, for the line break between the
/// halves.
pub proof fn lemma_split_row(rows: Rows, p: Pos)
    requires
        well_formed(rows),
        0 <= p.row < rows.len(),
        0 <= p.col <= rows[p.row].len(),
    ensures
        extent(split_row(rows, p)) == extent(rows) + 1,
        no_line_feed(split_row(rows, p)),
        split_row(rows, p).len() == rows.len() + 1,
{
    let head = rows[p.row].take(p.col);
    let tail = rows[p.row].skip(p.col);
    let mid = rows.update(p.row, head);
    let new = split_row(rows, p);
    lemma_extent_update(rows, p.row, head);
    lemma_extent_insert(mid, p.row + 1, tail);
    assert forall|r: int, c: int| 0 <= r < new.len() && 0 <= c < new[r].len() implies (
    #[trigger] new[r][c]).char != '\n' by {
        if r < p.row {
            assert(new[r][c] == rows[r][c]);
        } else if r == p.row {
            assert(new[r][c] == rows[r][c]);
        } else if r == p.row + 1 {
            assert(new[r][c] == rows[p.row][p.col + c]);
        } else {
            assert(new[r][c] == rows[r - 1][c]);
        }
    }
}

/// A cell taken out of a row frees one place.
pub proof fn lemma_remove_cell(rows: Rows, p: Pos)
    requires
        well_formed(rows),
        0 <= p.row < rows.len(),
        1 <= p.col <= rows[p.row].len(),
    ensures
        extent(remove_cell(rows, p)) == extent(rows) - 1,
        no_line_feed(remove_cell(rows, p)),
{
    let new = remove_cell(rows, p);
    lemma_extent_update(rows, p.row, rows[p.row].remove(p.col - 1));
    assert forall|r: int, c: int| 0 <= r < new.len() && 0 <= c < new[r].len() implies (
    #[trigger] new[r][c]).char != '\n' by {
        if r == p.row {
            if c < p.col - 1 {
                assert(new[r][c] == rows[r][c]);
            } else {
                assert(new[r][c] == rows[r][c + 1]);
            }
        } else {
            assert(new[r][c] == rows[r][c]);
        }
    }
}

/// A row appended to the one above frees one place, that of the line break
/// between them.
pub proof fn lemma_merge_row(rows: Rows, r: int)
    requires
        well_formed(rows),
        1 <= r < rows.len(),
    ensures
        extent(merge_row(rows, r)) == extent(rows) - 1,
        no_line_feed(merge_row(rows, r)),
        merge_row(rows, r).len() == rows.len() - 1,
{
    let both = rows[r - 1] + rows[r];
    let mid = rows.update(r - 1, both);
    let new = merge_row(rows, r);
    lemma_extent_update(rows, r - 1, both);
    lemma_extent_remove(mid, r);
    assert forall|i: int, c: int| 0 <= i < new.len() && 0 <= c < new[i].len() implies (
    #[trigger] new[i][c]).char != '\n' by {
        if i < r - 1 {
            assert(new[i][c] == rows[i][c]);
        } else if i == r - 1 {
            if c < rows[r - 1].len() {
                assert(new[i][c] == rows[r - 1][c]);
            } else {
                assert(new[i][c] == rows[r][c - rows[r - 1].len()]);
            }
        } else {
            assert(new[i][c] == rows[i + 1][c]);
        }
    }
}

/// The position one step back in reading order: the column before, or from
/// the start of a row the end of the row above.
pub open spec fn step_back(rows: Rows, p: Pos) -> Pos {
    if p.col > 0 {
        Pos { col: p.col - 1, row: p.row }
    } else {
        Pos { col: rows[p.row - 1].len() as int, row: p.row - 1 }
    }
}

/// Taking out an empty range changes nothing.
pub proof fn lemma_remove_nothing(rows: Rows, p: Pos)
    requires
        rows.len() > 0,
        reachable(rows, p),
    ensures
        remove_range(rows, p, p) == rows,
{
    assert(rows[p.row].take(p.col) + rows[p.row].skip(p.col) =~= rows[p.row]);
    assert(remove_range(rows, p, p) =~= rows);
}

/// One deletion in front of `p`, made after the text from `p` to `end` was
/// taken out, leaves what taking out the text from one step before `p` to
/// `end` leaves; and what it deletes is what the linear text of `rows` holds
/// one step before `p`.
pub proof fn lemma_cut_step(rows: Rows, p: Pos, end: Pos)
    requires
        rows.len() > 0,
        reachable(rows, p),
        reachable(rows, end),
        p.not_after(end),
        p.col > 0 || p.row > 0,
    ensures
        reachable(remove_range(rows, p, end), p),
        reachable(rows, step_back(rows, p)),
        reachable(remove_range(rows, step_back(rows, p), end), step_back(rows, p)),
        offset(rows, step_back(rows, p)) + 1 == offset(rows, p),
        0 <= offset(rows, step_back(rows, p)) < join(rows).len(),
        p.col > 0 ==> {
            &&& remove_cell(remove_range(rows, p, end), p) == remove_range(
                rows,
                step_back(rows, p),
                end,
            )
            &&& remove_range(rows, p, end)[p.row][p.col - 1] == join(rows)[offset(
                rows,
                step_back(rows, p),
            )]
        },
        p.col == 0 ==> {
            &&& merge_row(remove_range(rows, p, end), p.row) == remove_range(
                rows,
                step_back(rows, p),
                end,
            )
            &&& remove_range(rows, p, end)[p.row - 1].len() == rows[p.row - 1].len()
            &&& join(rows)[offset(rows, step_back(rows, p))] == CharCel::line_break()
        },
{
    let cur = remove_range(rows, p, end);
    let prev = step_back(rows, p);
    let next = remove_range(rows, prev, end);
    lemma_join_index(rows, prev);
    if p.col > 0 {
        assert(remove_cell(cur, p) =~~= next);
    } else {
        lemma_extent_bounds(rows, p.row - 1);
        assert(merge_row(cur, p.row) =~~= next);
    }
}

/// A further row at the end adds its cells and one to the extent.
pub proof fn lemma_extent_push(rows: Rows, row: Seq<CharCel>)
    ensures
        extent(rows.push(row)) == extent(rows) + row.len() + 1,
{
    assert(rows.push(row).drop_last() =~= rows);
}

/// The linear text of rows with one more row: the text so far, a line break,
/// the new row; or the new row alone where it is the first.
pub proof fn lemma_join_push(rows: Rows, row: Seq<CharCel>)
    ensures
        join(rows.push(row)) == if rows.len() == 0 {
            row
        } else {
            join(rows) + seq![CharCel::line_break()] + row
        },
{
    assert(rows.push(row).drop_last() =~= rows);
}

/// The rows that a text spells are well formed, and take no more room than
/// the text has characters, and one.
pub proof fn lemma_pieces(s: Seq<char>)
    ensures
        pieces(s).len() >= 1,
        extent(pieces(s)) <= s.len() + 1,
        no_line_feed(pieces(s)),
    decreases s.len(),
{
    if s.len() == 0 {
        lemma_extent_push(Seq::empty(), Seq::empty());
        assert(pieces(s) =~= Seq::<Seq<CharCel>>::empty().push(Seq::empty()));
    } else {
        let before = pieces(s.drop_last());
        let last = before.len() - 1;
        lemma_pieces(s.drop_last());
        let new = pieces(s);
        if s.last() == '\n' {
            let mid = before.update(last, without_cr(before.last()));
            lemma_extent_update(before, last, without_cr(before.last()));
            lemma_extent_push(mid, Seq::empty());
            assert forall|r: int, c: int| 0 <= r < new.len() && 0 <= c < new[r].len() implies (
            #[trigger] new[r][c]).char != '\n' by {
                assert(new[r][c] == before[r][c]);
            }
        } else {
            lemma_extent_update(before, last, before.last().push(CharCel::plain(s.last())));
            assert forall|r: int, c: int| 0 <= r < new.len() && 0 <= c < new[r].len() implies (
            #[trigger] new[r][c]).char != '\n' by {
                if r == last && c == before[r].len() {
                } else {
                    assert(new[r][c] == before[r][c]);
                }
            }
        }
    }
}

/// `x` brought into the range of `i32`.
pub open spec fn saturated(x: int) -> int {
    if x < i32::MIN {
        i32::MIN as int
    } else if x > i32::MAX {
        i32::MAX as int
    } else {
        x
    }
}

/// A position far outside the `i32` range clamps to the same place as the
/// nearest position inside it.
pub proof fn lemma_clamp_saturated(rows: Rows, p: Pos)
    requires
        extent(rows) <= i32::MAX,
    ensures
        clamp(rows, Pos { col: saturated(p.col), row: saturated(p.row) }) == clamp(rows, p),
{
    if rows.len() > 0 {
        lemma_extent_bounds(rows, 0);
        lemma_extent_bounds(rows, clamp(rows, p).row);
    }
}

/// The rows up to `p`: the rows above, and what the row of `p` holds before
/// `p`.
pub open spec fn head_rows(rows: Rows, p: Pos) -> Rows {
    rows.take(p.row).push(rows[p.row].take(p.col))
}

/// The rows from `p` on: what the row of `p` holds from `p` on, and the rows
/// below.
pub open spec fn tail_rows(rows: Rows, p: Pos) -> Rows {
    seq![rows[p.row].skip(p.col)] + rows.skip(p.row + 1)
}

/// The linear text of two runs of rows, one behind the other: the two texts
/// with a line break between them.
pub proof fn lemma_join_concat(x: Rows, y: Rows)
    requires
        x.len() > 0,
        y.len() > 0,
    ensures
        join(x + y) == join(x) + seq![CharCel::line_break()] + join(y),
    decreases y.len(),
{
    assert((x + y).drop_last() =~= x + y.drop_last());
    if y.len() == 1 {
        assert(x + y.drop_last() =~= x);
        assert(join(x + y) =~= join(x) + seq![CharCel::line_break()] + join(y));
    } else {
        lemma_join_concat(x, y.drop_last());
        assert(join(x + y) =~= join(x) + seq![CharCel::line_break()] + join(y));
    }
}

/// Where the last row of one run and the first row of the next become one
/// row, the linear texts of the two runs follow one another without a line
/// break.
pub proof fn lemma_join_glue(x: Rows, a: Seq<CharCel>, b: Seq<CharCel>, y: Rows)
    ensures
        join(x.push(a + b) + y) == join(x.push(a)) + join(seq![b] + y),
{
    lemma_join_push(x, a);
    lemma_join_push(x, a + b);
    assert(join(x.push(a + b)) =~= join(x.push(a)) + b);
    if y.len() == 0 {
        assert(x.push(a + b) + y =~= x.push(a + b));
        assert(seq![b] + y =~= seq![b]);
    } else {
        lemma_join_concat(x.push(a + b), y);
        lemma_join_concat(seq![b], y);
        assert(join(x.push(a + b) + y) =~= join(x.push(a)) + join(seq![b] + y));
    }
}

/// The linear text falls in two at the offset of a reachable position:
/// the text of the rows up to it, and the text of the rows from it on.
pub proof fn lemma_join_split(rows: Rows, p: Pos)
    requires
        rows.len() > 0,
        reachable(rows, p),
    ensures
        join(rows) == join(head_rows(rows, p)) + join(tail_rows(rows, p)),
        join(head_rows(rows, p)).len() == offset(rows, p),
        join(head_rows(rows, p)) == join(rows).take(offset(rows, p)),
        join(tail_rows(rows, p)) == join(rows).skip(offset(rows, p)),
{
    let x = rows.take(p.row);
    let y = rows.skip(p.row + 1);
    let a = rows[p.row].take(p.col);
    let b = rows[p.row].skip(p.col);
    assert(a + b =~= rows[p.row]);
    assert(x.push(a + b) + y =~= rows);
    lemma_join_glue(x, a, b, y);
    lemma_extent_push(x, a);
    lemma_join_len(x.push(a));
    let j = join(rows);
    let h = join(head_rows(rows, p));
    let t = join(tail_rows(rows, p));
    assert(j.take(h.len() as int) =~= h);
    assert(j.skip(h.len() as int) =~= t);
}

/// The linear text after a cell was put in: the cell at the offset of the
/// position, and the text that stood there behind it.
pub proof fn lemma_join_insert_cell(rows: Rows, p: Pos, cell: CharCel)
    requires
        rows.len() > 0,
        reachable(rows, p),
    ensures
        join(insert_cell(rows, p, cell)) == join(rows).insert(offset(rows, p), cell),
{
    let x = rows.take(p.row);
    let y = rows.skip(p.row + 1);
    let a = rows[p.row].take(p.col);
    let b = rows[p.row].skip(p.col);
    lemma_join_split(rows, p);
    assert(insert_cell(rows, p, cell) =~= x.push(a.push(cell) + b) + y);
    lemma_join_glue(x, a.push(cell), b, y);
    lemma_join_push(x, a);
    lemma_join_push(x, a.push(cell));
    assert(join(x.push(a.push(cell))) =~= join(x.push(a)).push(cell));
    assert(join(insert_cell(rows, p, cell)) =~= join(rows).insert(offset(rows, p), cell));
}

/// The linear text after a row was cut in two: a line break at the offset
/// of the position, and the text that stood there behind it.
pub proof fn lemma_join_split_row(rows: Rows, p: Pos)
    requires
        rows.len() > 0,
        reachable(rows, p),
    ensures
        join(split_row(rows, p)) == join(rows).insert(offset(rows, p), CharCel::line_break()),
{
    lemma_join_split(rows, p);
    assert(split_row(rows, p) =~= head_rows(rows, p) + tail_rows(rows, p));
    lemma_join_concat(head_rows(rows, p), tail_rows(rows, p));
    assert(join(split_row(rows, p)) =~= join(rows).insert(
        offset(rows, p),
        CharCel::line_break(),
    ));
}

/// The linear text after the cell before a position was taken out: the
/// text without what it held one place before the offset of the position.
pub proof fn lemma_join_remove_cell(rows: Rows, p: Pos)
    requires
        rows.len() > 0,
        reachable(rows, p),
        p.col >= 1,
    ensures
        join(remove_cell(rows, p)) == join(rows).remove(offset(rows, p) - 1),
{
    let x = rows.take(p.row);
    let y = rows.skip(p.row + 1);
    let a = rows[p.row].take(p.col);
    let b = rows[p.row].skip(p.col);
    lemma_join_split(rows, p);
    assert(rows[p.row].remove(p.col - 1) =~= a.drop_last() + b);
    assert(remove_cell(rows, p) =~= x.push(a.drop_last() + b) + y);
    lemma_join_glue(x, a.drop_last(), b, y);
    lemma_join_push(x, a);
    lemma_join_push(x, a.drop_last());
    assert(join(x.push(a.drop_last())) =~= join(x.push(a)).drop_last());
    assert(join(remove_cell(rows, p)) =~= join(rows).remove(offset(rows, p) - 1));
}

/// The linear text after a row was appended to the one above: the text
/// without the line break in front of the row.
pub proof fn lemma_join_merge_row(rows: Rows, r: int)
    requires
        1 <= r < rows.len(),
    ensures
        join(merge_row(rows, r)) == join(rows).remove(row_start(rows, r) - 1),
        0 <= row_start(rows, r) - 1 < join(rows).len(),
        join(rows)[row_start(rows, r) - 1] == CharCel::line_break(),
{
    let x = rows.take(r - 1);
    let y = rows.skip(r + 1);
    assert(merge_row(rows, r) =~= x.push(rows[r - 1] + rows[r]) + y);
    lemma_join_glue(x, rows[r - 1], rows[r], y);
    assert(x.push(rows[r - 1]) =~= rows.take(r));
    assert(seq![rows[r]] + y =~= rows.skip(r));
    assert(rows.take(r) + rows.skip(r) =~= rows);
    lemma_join_concat(rows.take(r), rows.skip(r));
    lemma_join_len(rows.take(r));
    assert(join(merge_row(rows, r)) =~= join(rows).remove(row_start(rows, r) - 1));
}

/// The linear text after a range was taken out: the text before the range,
/// and the text behind it.
pub proof fn lemma_join_remove_range(rows: Rows, start: Pos, end: Pos)
    requires
        rows.len() > 0,
        reachable(rows, start),
        reachable(rows, end),
        start.not_after(end),
    ensures
        offset(rows, start) <= offset(rows, end) <= join(rows).len(),
        join(remove_range(rows, start, end)) == join(rows).take(offset(rows, start)) + join(
            rows,
        ).skip(offset(rows, end)),
{
    lemma_join_split(rows, start);
    lemma_join_split(rows, end);
    if start != end {
        lemma_offset_order(rows, start, end);
    }
    lemma_offset_bounds(rows, end);
    lemma_join_glue(
        rows.take(start.row),
        rows[start.row].take(start.col),
        rows[end.row].skip(end.col),
        rows.skip(end.row + 1),
    );
}

} // verus!
