//! Laws of the editing operations, proved of every state.

use vstd::prelude::*;
use crate::cell::CharCel;
use crate::grid::{
    clamp, glyphs, insert_cell, join, lemma_extent_bounds, lemma_join_index,
    lemma_join_insert_cell, lemma_join_merge_row, lemma_join_remove_cell,
    lemma_join_remove_range, lemma_join_split_row, lemma_offset_bounds, merge_row, offset, pieces,
    remove_cell, rows_of_text, short_breaks, split_row, with_first_row, without_cr,
    Rows,
};
use crate::model::EditorView;
use crate::vector::Pos;

verus! {

/// Reading order is a strict total order of the positions: of two positions
/// exactly one stands before the other, unless they are the same; and what
/// stands before an earlier position stands before every later one.
pub proof fn law_reading_order(a: Pos, b: Pos, c: Pos)
    ensures
        !a.before(a),
        a.before(b) || b.before(a) || a == b,
        !(a.before(b) && b.before(a)),
        a.before(b) && b.before(c) ==> a.before(c),
        a.earlier(b) == b.earlier(a),
        a.later(b) == b.later(a),
        a.earlier(b).not_after(a.later(b)),
{
}

/// Clamping is total and lands in the text: for any position whatever, and
/// any rows but none, the clamped position names a row of the buffer and a
/// column of that row or the place right behind its last cell. Clamping a
/// second time changes nothing.
pub proof fn law_clamp_total(rows: Rows, p: Pos)
    requires
        rows.len() > 0,
    ensures
        0 <= clamp(rows, p).row < rows.len(),
        0 <= clamp(rows, p).col <= rows[clamp(rows, p).row].len(),
        clamp(rows, clamp(rows, p)) == clamp(rows, p),
{
}

/// A character other than a line feed, written and deleted right away,
/// leaves the text as it was, and the cursor at the place where the
/// character was written: where the cursor acted before. The rows are the
/// same too, but that a buffer without any row has got its first, empty row.
/// The deletion hands out the cell that was written.
///
/// No selection may be active: with one, `delete` removes the selection
/// and not the character.
pub proof fn law_write_delete(v: EditorView, ch: char)
    requires
        v.wf(),
        v.anchor is None,
        ch != '\n',
    ensures
        v.write(ch).delete().text() == v.text(),
        v.write(ch).delete().rows == with_first_row(v.rows),
        v.write(ch).delete().cursor == v.caret(),
        v.write(ch).deleted() == Some(CharCel::plain(ch)),
{
    let at = v.caret();
    let written = v.write(ch);
    let back = written.delete();
    let base = with_first_row(v.rows);
    assert(written.cursor == Pos { col: at.col + 1, row: at.row });
    assert(back.rows =~~= base);
    lemma_text_first_row(v.rows);
}

/// A line feed splits the row where the cursor acts and puts the cursor at
/// the start of the new row; the deletion that follows at once joins the two
/// rows again: the rows and their number are as before, and the cursor is
/// back where the line feed was written.
///
/// No selection may be active: with one, `delete` removes the selection.
pub proof fn law_split_merge(v: EditorView)
    requires
        v.wf(),
        v.anchor is None,
    ensures
        v.write('\n').rows.len() == with_first_row(v.rows).len() + 1,
        v.write('\n').cursor == (Pos { col: 0, row: v.caret().row + 1 }),
        v.write('\n').delete().rows == with_first_row(v.rows),
        v.write('\n').delete().cursor == v.caret(),
        v.write('\n').delete().text() == v.text(),
        v.write('\n').deleted() == Some(CharCel::line_break()),
{
    let at = v.caret();
    let written = v.write('\n');
    let back = written.delete();
    let base = with_first_row(v.rows);
    assert(written.cursor == Pos { col: 0, row: at.row + 1 });
    assert(back.rows =~~= base);
    lemma_text_first_row(v.rows);
}

/// A line feed written at the origin of a buffer of one row gives two rows:
/// an empty one, and below it the row that was there; the cursor stands at
/// the start of that row.
pub proof fn law_line_feed_at_origin(v: EditorView)
    requires
        v.wf(),
        v.rows.len() == 1,
    ensures
        v.set_cursor(Pos { col: 0, row: 0 }).write('\n').rows == seq![
            Seq::<CharCel>::empty(),
            v.rows[0],
        ],
        v.set_cursor(Pos { col: 0, row: 0 }).write('\n').cursor == (Pos { col: 0, row: 1 }),
{
    let written = v.set_cursor(Pos { col: 0, row: 0 }).write('\n');
    assert(written.rows =~~= seq![Seq::<CharCel>::empty(), v.rows[0]]);
}

/// A text without line feed and carriage return, and not empty, is one row
/// in the editor: the cells of its characters.
pub proof fn law_one_row(s: Seq<char>)
    requires
        s.len() > 0,
        forall|i: int| 0 <= i < s.len() ==> s[i] != '\n',
    ensures
        rows_of_text(s) == seq![s.map_values(|c: char| CharCel::plain(c))],
{
    lemma_one_piece(s);
}

/// The edits at a position of their own leave the cursor and the selection
/// as they are, whatever becomes of the text around the cursor.
pub proof fn law_edit_keeps_cursor(v: EditorView, p: Pos, ch: char)
    ensures
        v.write_at(p, ch).cursor == v.cursor,
        v.write_at(p, ch).anchor == v.anchor,
        v.delete_at(p).cursor == v.cursor,
        v.delete_at(p).anchor == v.anchor,
{
}

/// Writing puts one character into the text, at the offset of the place
/// where the cursor acts, and leaves the rest of the text as it was; the
/// cursor then stands right behind that character. A line feed is no exception: in the text, the
/// break between two rows is a line feed.
pub proof fn law_write_text(v: EditorView, ch: char)
    requires
        v.wf(),
    ensures
        0 <= v.cursor_offset() <= v.text().len(),
        v.write(ch).text() == v.text().insert(v.cursor_offset(), ch),
        v.write(ch).cursor_offset() == v.cursor_offset() + 1,
{
    let base = with_first_row(v.rows);
    let c = v.caret();
    let cell = if ch == '\n' {
        CharCel::line_break()
    } else {
        CharCel::plain(ch)
    };
    lemma_text_first_row(v.rows);
    assert(base.take(c.row) =~= v.rows.take(c.row));
    lemma_offset_bounds(base, c);
    lemma_extent_bounds(base, c.row);
    if ch == '\n' {
        lemma_join_split_row(base, c);
        let new = split_row(base, c);
        assert(new.take(c.row + 1).drop_last() =~= base.take(c.row));
    } else {
        lemma_join_insert_cell(base, c, cell);
        let new = insert_cell(base, c, cell);
        assert(new.take(c.row) =~= base.take(c.row));
    }
    assert(join(v.write(ch).rows) == join(base).insert(offset(base, c), cell));
    assert(glyphs(join(base).insert(offset(base, c), cell)) =~= glyphs(join(base)).insert(
        offset(base, c),
        ch,
    ));
}

/// Without a selection, deleting takes out of the text what stands right
/// before the offset of the place where the cursor acts, hands out the cell
/// of that character, and puts the cursor where it stood; the rest of the
/// text stays. At the very start of the text it does nothing but put the
/// cursor there.
pub proof fn law_delete_text(v: EditorView)
    requires
        v.wf(),
        v.anchor is None,
    ensures
        0 <= v.cursor_offset() <= v.text().len(),
        v.cursor_offset() == 0 ==> v.delete().rows == v.rows && v.delete().cursor == v.caret()
            && v.deleted() is None,
        v.cursor_offset() > 0 ==> {
            &&& v.delete().text() == v.text().remove(v.cursor_offset() - 1)
            &&& v.delete().cursor_offset() == v.cursor_offset() - 1
            &&& v.deleted() is Some
            &&& v.deleted()->0.char == v.text()[v.cursor_offset() - 1]
        },
{
    let rows = v.rows;
    let c = v.caret();
    if rows.len() == 0 {
        assert(rows.take(0) =~= rows);
    } else {
        lemma_offset_bounds(rows, c);
        lemma_extent_bounds(rows, c.row);
        if c.col > 0 {
            lemma_join_remove_cell(rows, c);
            let prev = Pos { col: c.col - 1, row: c.row };
            lemma_join_index(rows, prev);
            let new = remove_cell(rows, c);
            assert(new.take(c.row) =~= rows.take(c.row));
            assert(glyphs(join(rows).remove(offset(rows, c) - 1)) =~= glyphs(join(rows)).remove(
                offset(rows, c) - 1,
            ));
        } else if c.row > 0 {
            lemma_join_merge_row(rows, c.row);
            lemma_extent_bounds(rows, c.row - 1);
            let new = merge_row(rows, c.row);
            assert(new.take(c.row - 1) =~= rows.take(c.row - 1));
            assert(glyphs(join(rows).remove(offset(rows, c) - 1)) =~= glyphs(join(rows)).remove(
                offset(rows, c) - 1,
            ));
        } else {
            assert(rows.take(0) =~= Seq::<Seq<CharCel>>::empty());
        }
    }
}

/// What a cut hands out is what the text loses: the text after the cut is
/// the text before the range and the text behind it, and the cells handed
/// out, the same that `copy_range` gives, put back between the two make the
/// old text.
pub proof fn law_cut_text(v: EditorView, a: Pos, b: Pos)
    requires
        v.wf(),
    ensures
        ({
            let from = offset(v.rows, v.range_start(a, b));
            let to = offset(v.rows, v.range_end(a, b));
            let old_text = join(v.rows);
            let new_text = join(v.cut_range(a, b).rows);
            &&& 0 <= from <= to <= old_text.len()
            &&& v.copy_range(a, b) == old_text.subrange(from, to)
            &&& new_text == old_text.take(from) + old_text.skip(to)
            &&& old_text == new_text.take(from) + v.copy_range(a, b) + new_text.skip(from)
        }),
{
    let start = v.range_start(a, b);
    let end = v.range_end(a, b);
    let old_text = join(v.rows);
    let new_text = join(v.cut_range(a, b).rows);
    let from = offset(v.rows, start);
    let to = offset(v.rows, end);
    if v.rows.len() == 0 {
        assert(v.rows.take(0) =~= v.rows);
        assert(new_text =~= old_text.take(from) + old_text.skip(to));
    } else {
        lemma_offset_bounds(v.rows, start);
        lemma_join_remove_range(v.rows, start, end);
        if start == end {
            assert(new_text =~= old_text.take(from) + old_text.skip(to));
        }
    }
    assert(old_text =~= new_text.take(from) + v.copy_range(a, b) + new_text.skip(from));
}

/// The two ends of a range may come in either order, and only their
/// clamped places count; a range whose ends clamp to one place is empty,
/// and cutting it leaves the rows as they are.
pub proof fn law_range_ends(v: EditorView, a: Pos, b: Pos)
    requires
        v.wf(),
    ensures
        v.copy_range(a, b) == v.copy_range(b, a),
        v.cut_range(a, b) == v.cut_range(b, a),
        v.copy_range(a, b) == v.copy_range(clamp(v.rows, a), clamp(v.rows, b)),
        v.cut_range(a, b) == v.cut_range(clamp(v.rows, a), clamp(v.rows, b)),
        clamp(v.rows, a) == clamp(v.rows, b) ==> v.copy_range(a, b) == Seq::<CharCel>::empty()
            && v.cut_range(a, b).rows == v.rows,
{
    if clamp(v.rows, a) == clamp(v.rows, b) {
        if v.rows.len() > 0 {
            lemma_offset_bounds(v.rows, clamp(v.rows, a));
        } else {
            assert(v.rows.take(0) =~= v.rows);
        }
        assert(v.copy_range(a, b) =~= Seq::<CharCel>::empty());
    }
}

/// Any text comes back from the editor with its line breaks in their short
/// form: a carriage return right in front of a line feed is gone, and
/// nothing else has changed.
pub proof fn law_text_short_breaks(s: Seq<char>)
    ensures
        EditorView::of_text(s).text() == short_breaks(s),
{
    if s.len() > 0 {
        lemma_pieces_spell_short(s);
    } else {
        assert(glyphs(join(rows_of_text(s))) =~= short_breaks(s));
    }
}

/// A text without carriage returns comes back from the editor as it went
/// in: the rows that it spells, joined by line feeds, are the text.
pub proof fn law_text_round_trip(s: Seq<char>)
    requires
        forall|i: int| 0 <= i < s.len() ==> s[i] != '\r',
    ensures
        EditorView::of_text(s).text() == s,
{
    law_text_short_breaks(s);
    lemma_short_breaks_plain(s);
}

/// The pieces of a text spell the text with its line breaks in their short
/// form; the last piece ends as the text ends, and is empty behind a line
/// feed.
proof fn lemma_pieces_spell_short(s: Seq<char>)
    ensures
        pieces(s).len() >= 1,
        glyphs(join(pieces(s))) == short_breaks(s),
        s.len() > 0 && s.last() != '\n' ==> pieces(s).last().len() > 0 && pieces(
            s,
        ).last().last().char == s.last(),
        s.len() == 0 || s.last() == '\n' ==> pieces(s).last().len() == 0,
        s.len() > 0 ==> short_breaks(s).len() > 0 && short_breaks(s).last() == s.last(),
    decreases s.len(),
{
    let new = pieces(s);
    if s.len() == 0 {
        assert(glyphs(join(new)) =~= short_breaks(s));
    } else {
        let d = s.drop_last();
        let before = pieces(d);
        let last = before.len() - 1;
        lemma_pieces_spell_short(d);
        if s.last() == '\n' {
            let row = without_cr(before.last());
            let mid = before.update(last, row);
            assert(new.drop_last() =~= mid);
            assert(join(new) =~= join(mid).push(CharCel::line_break()));
            if before.len() > 1 {
                assert(mid.drop_last() =~= before.drop_last());
            }
            if row.len() < before.last().len() {
                assert(d.len() > 0 && d.last() == '\r');
                assert(s[s.len() - 2] == d.last());
                assert(join(mid) =~= join(before).drop_last());
                assert(glyphs(join(before).drop_last()) =~= glyphs(join(before)).drop_last());
            } else {
                assert(mid =~= before);
                if s.len() >= 2 {
                    assert(s[s.len() - 2] == d.last());
                }
            }
            assert(glyphs(join(mid).push(CharCel::line_break())) =~= glyphs(join(mid)).push(
                '\n',
            ));
        } else {
            let cell = CharCel::plain(s.last());
            if before.len() > 1 {
                assert(new.drop_last() =~= before.drop_last());
            }
            assert(join(new) =~= join(before).push(cell));
            assert(glyphs(join(new)) =~= glyphs(join(before)).push(s.last()));
        }
    }
}

/// The first, empty row of a buffer adds nothing to the text.
proof fn lemma_text_first_row(rows: Rows)
    ensures
        glyphs(join(with_first_row(rows))) == glyphs(join(rows)),
{
    if rows.len() == 0 {
        assert(join(with_first_row(rows)) =~= join(rows));
    }
}

/// A text without line feed is one piece.
proof fn lemma_one_piece(s: Seq<char>)
    requires
        forall|i: int| 0 <= i < s.len() ==> s[i] != '\n',
    ensures
        pieces(s) == seq![s.map_values(|c: char| CharCel::plain(c))],
    decreases s.len(),
{
    if s.len() > 0 {
        lemma_one_piece(s.drop_last());
    }
    assert(pieces(s) =~~= seq![s.map_values(|c: char| CharCel::plain(c))]);
}

/// A text without carriage returns has its line breaks in their short
/// form already.
proof fn lemma_short_breaks_plain(s: Seq<char>)
    requires
        forall|i: int| 0 <= i < s.len() ==> s[i] != '\r',
    ensures
        short_breaks(s) == s,
    decreases s.len(),
{
    if s.len() > 0 {
        lemma_short_breaks_plain(s.drop_last());
        assert(s.drop_last().push(s.last()) =~= s);
    } else {
        assert(short_breaks(s) =~= s);
    }
}

} // verus!
