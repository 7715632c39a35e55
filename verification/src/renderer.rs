//! The viewport: a rectangular window on the buffer, and its projection to
//! a block of text.

use vstd::prelude::*;
use crate::editor::Editor;
use crate::grid::lemma_extent_bounds;
use crate::model::EditorView;
use crate::vector::{Pos, Vector2};

verus! {

/// A rectangle of the grid: its top-left corner, its width in columns and
/// its height in rows.
#[derive(Clone, Copy, Debug)]
pub struct Rect {
    pub location: Vector2,
    pub width: i32,
    pub height: i32,
}

impl Rect {
    /// `p` lies in the rectangle: at or behind its left and top edges, and
    /// before its right and bottom edges.
    pub open spec fn holds(self, p: Pos) -> bool {
        &&& self.location.0 <= p.col < self.location.0 + self.width
        &&& self.location.1 <= p.row < self.location.1 + self.height
    }

    /// The number of positions in the rectangle.
    pub fn area(&self) -> (a: i32)
        requires
            i32::MIN <= self.width * self.height <= i32::MAX,
        ensures
            a == self.width * self.height,
    {
        self.width * self.height
    }

    /// The column of the left edge.
    pub fn x(&self) -> (x: i32)
        ensures
            x == self.location.0,
    {
        self.location.x()
    }

    /// The row of the top edge.
    pub fn y(&self) -> (y: i32)
        ensures
            y == self.location.1,
    {
        self.location.y()
    }

    /// Whether `p` lies in the rectangle; the right and bottom edges are
    /// outside.
    pub fn contains(&self, p: Vector2) -> (inside: bool)
        ensures
            inside == self.holds(p@),
    {
        let left: i64 = self.location.0 as i64;
        let top: i64 = self.location.1 as i64;
        let x: i64 = p.0 as i64;
        let y: i64 = p.1 as i64;
        (x >= left && x < left + self.width as i64) && (y >= top && y < top + self.height as i64)
    }
}

/// What a renderer is told: the window to show.
#[derive(Clone, Copy, Debug)]
pub struct RenderOpts {
    pub view: Rect,
}

impl Default for RenderOpts {
    fn default() -> (opts: RenderOpts)
        ensures
            opts.view.location == Vector2(0, 0),
            opts.view.width == 0,
            opts.view.height == 0,
    {
        RenderOpts { view: Rect { location: Vector2(0, 0), width: 0, height: 0 } }
    }
}

/// The characters of row `row` in the columns from `from` up to `to`: the
/// character of each cell, and a space where the row has no cell. With
/// `stop_at_end` the line ends at the first missing cell in a column greater
/// than zero.
pub open spec fn line_of(v: EditorView, row: int, from: int, to: int, stop_at_end: bool) -> Seq<
    char,
>
    decreases to - from,
{
    if from >= to {
        Seq::empty()
    } else {
        match v.cell_at(Pos { col: from, row }) {
            Some(cell) => seq![cell.char] + line_of(v, row, from + 1, to, stop_at_end),
            None => if stop_at_end && from > 0 {
                Seq::empty()
            } else {
                seq![' '] + line_of(v, row, from + 1, to, stop_at_end)
            },
        }
    }
}

/// The rows from `top` up to `bottom`, each as `line_of` gives it and closed
/// by a line feed.
pub open spec fn block_of(
    v: EditorView,
    top: int,
    bottom: int,
    left: int,
    right: int,
    stop_at_end: bool,
) -> Seq<char>
    decreases bottom - top,
{
    if top >= bottom {
        Seq::empty()
    } else {
        line_of(v, top, left, right, stop_at_end) + seq!['\n'] + block_of(
            v,
            top + 1,
            bottom,
            left,
            right,
            stop_at_end,
        )
    }
}

/// Something that projects a window of an editor's buffer.
pub trait Renderer {
    type Output;

    fn render(&self, editor: &Editor, opts: RenderOpts) -> Self::Output
        requires
            editor.wf(),
    ;
}

/// Renders a window of the buffer to a string.
pub struct StringRenderer {
    /// Render this one row, whatever the window's top and height are.
    pub line_hint: Option<i32>,
    /// End each line at the first missing cell behind column zero.
    pub break_on_line_end: bool,
}

impl StringRenderer {
    /// A renderer of whole windows, every line padded to the width.
    pub fn new() -> (r: StringRenderer)
        ensures
            r.line_hint is None,
            !r.break_on_line_end,
    {
        StringRenderer { line_hint: None, break_on_line_end: false }
    }

    /// A renderer of the single row `line`.
    pub fn with_line_hint(line: i32) -> (r: StringRenderer)
        ensures
            r.line_hint == Some(line),
            !r.break_on_line_end,
    {
        StringRenderer { line_hint: Some(line), break_on_line_end: false }
    }

    /// The first row that is rendered: the hinted row, else the window's top.
    pub open spec fn top(self, view: Rect) -> int {
        match self.line_hint {
            Some(line) => line as int,
            None => view.location.1 as int,
        }
    }

    /// The number of rows that are rendered: one with a hint, else the
    /// window's height.
    pub open spec fn rows(self, view: Rect) -> int {
        match self.line_hint {
            Some(_) => 1,
            None => view.height as int,
        }
    }

    /// The text that `render` produces for the state `v` and the window
    /// `view`.
    pub open spec fn rendering(self, v: EditorView, view: Rect) -> Seq<char> {
        block_of(
            v,
            self.top(view),
            self.top(view) + self.rows(view),
            view.location.0 as int,
            view.location.0 + view.width,
            self.break_on_line_end,
        )
    }
}

impl Renderer for StringRenderer {
    type Output = String;

    /// The window as text, row by row, a line feed behind each row.
    fn render(&self, editor: &Editor, opts: RenderOpts) -> (screen: String)
        ensures
            screen@ == self.rendering(editor@, opts.view),
    {
        let mut screen = String::new();
        let width: i64 = opts.view.width as i64;
        let height: i64 = match self.line_hint {
            Some(_) => 1,
            None => opts.view.height as i64,
        };
        let y2: i64 = match self.line_hint {
            Some(line) => line as i64,
            None => opts.view.location.y() as i64,
        };
        let x2: i64 = opts.view.location.x() as i64;
        let stop = self.break_on_line_end;
        let ghost v = editor@;
        let ghost whole = self.rendering(v, opts.view);
        let mut y: i64 = y2;
        assert(screen@ + block_of(v, y as int, y2 + height, x2 as int, x2 + width, stop) =~= whole);
        while y < y2 + height
            invariant
                editor.wf(),
                v == editor@,
                -0x8000_0000 <= x2 <= 0x7fff_ffff,
                -0x8000_0000 <= y2 <= 0x7fff_ffff,
                -0x8000_0000 <= width <= 0x7fff_ffff,
                -0x8000_0000 <= height <= 0x7fff_ffff,
                y2 <= y,
                y <= y2 + height || height < 0,
                whole == screen@ + block_of(v, y as int, y2 + height, x2 as int, x2 + width, stop),
            decreases y2 + height - y,
        {
            let ghost done = screen@;
            let ghost line = line_of(v, y as int, x2 as int, x2 + width, stop);
            let mut x: i64 = x2;
            if x >= x2 + width {
                assert(screen@ =~= done + line);
            }
            while x < x2 + width
                invariant
                    editor.wf(),
                    v == editor@,
                    -0x8000_0000 <= x2 <= 0x7fff_ffff,
                    -0x8000_0000 <= width <= 0x7fff_ffff,
                    -0x8000_0000 <= y <= 0xffff_ffff,
                    x2 <= x,
                    x <= x2 + width || width < 0,
                    done + line == screen@ + line_of(v, y as int, x as int, x2 + width, stop),
                ensures
                    screen@ == done + line,
                decreases x2 + width - x,
            {
                let ghost so_far = screen@;
                let ghost rest = line_of(v, y as int, x + 1, x2 + width, stop);
                let ghost here = Pos { col: x as int, row: y as int };
                let cell = if x <= 0x7fff_ffff && y <= 0x7fff_ffff {
                    editor.get_cell(Vector2(x as i32, y as i32))
                } else {
                    None
                };
                proof {
                    if 0 <= y < v.rows.len() {
                        lemma_extent_bounds(v.rows, y as int);
                    }
                    assert(cell == v.cell_at(here));
                    assert(line_of(v, y as int, x as int, x2 + width, stop) == match cell {
                        Some(c) => seq![c.char] + rest,
                        None => if stop && x > 0 {
                            Seq::<char>::empty()
                        } else {
                            seq![' '] + rest
                        },
                    });
                }
                match cell {
                    Some(cell) => {
                        screen.push(cell.char);
                        assert(so_far + (seq![cell.char] + rest) =~= screen@ + rest);
                    },
                    None => {
                        if stop && x > 0 {
                            assert(screen@ =~= done + line);
                            break ;
                        } else {
                            screen.push(' ');
                            assert(so_far + (seq![' '] + rest) =~= screen@ + rest);
                        }
                    },
                }
                x = x + 1;
                if x >= x2 + width {
                    assert(screen@ =~= done + line);
                }
            }
            screen.push('\n');
            y = y + 1;
            assert(whole =~= screen@ + block_of(
                v,
                y as int,
                y2 + height,
                x2 as int,
                x2 + width,
                stop,
            ));
        }
        assert(screen@ + Seq::<char>::empty() =~= screen@);
        screen
    }
}

} // verus!
