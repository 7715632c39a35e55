//! The application: what each key and mouse event does to the editor and to
//! the view, and what is to be drawn afterwards. Reading the events and
//! writing to the terminal is the caller's part.

use vstd::prelude::*;
use vstd::string::StringExecFns;
use crate::clipboard::{Clipboard, Error};
use crate::coord::Coord;
use crate::decimal::{decimal, to_decimal};
use crate::direction::Direction;
use crate::editor::Editor;
use crate::editor::CharCel;
use crate::grid::{glyphs, lemma_clamp_saturated};
use crate::model::EditorView;
use crate::renderer::{Rect, RenderOpts, Renderer, StringRenderer};
use crate::vector::{Pos, Vector2};

verus! {

/// The key of a key event.
#[derive(Clone, Copy, Debug, PartialEq, Eq, Structural)]
pub enum KeyCode {
    Backspace,
    Enter,
    Left,
    Right,
    Up,
    Down,
    Home,
    End,
    /// A function key, by its number.
    F(u8),
    /// A character key.
    Char(char),
    /// Any other key.
    Other,
}

/// The modifier keys held down during an event.
#[derive(Clone, Copy, Debug, PartialEq, Eq, Structural)]
pub struct KeyModifiers {
    pub shift: bool,
    pub control: bool,
    pub alt: bool,
}

impl KeyModifiers {
    /// No modifier key is held down.
    pub open spec fn none(self) -> bool {
        !self.shift && !self.control && !self.alt
    }

    /// No modifier key is held down.
    pub fn is_empty(&self) -> (empty: bool)
        ensures
            empty == self.none(),
    {
        !self.shift && !self.control && !self.alt
    }
}

/// A key pressed, with the modifier keys held down.
#[derive(Clone, Copy, Debug, PartialEq, Eq, Structural)]
pub struct KeyEvent {
    pub code: KeyCode,
    pub modifiers: KeyModifiers,
}

/// A button of the mouse.
#[derive(Clone, Copy, Debug, PartialEq, Eq, Structural)]
pub enum MouseButton {
    Left,
    Right,
    Middle,
}

/// What the mouse did.
#[derive(Clone, Copy, Debug, PartialEq, Eq, Structural)]
pub enum MouseEvent {
    /// A button went down at a column and a row of the screen.
    Down(MouseButton, u16, u16),
    /// Anything else.
    Other,
}

/// What a key asks for.
#[derive(Clone, Copy, Debug, PartialEq, Eq, Structural)]
pub enum Intent {
    /// Move the cursor one step.
    MoveCursor(Direction),
    /// Move the view one step.
    MoveView(Direction),
    /// Begin a selection unless one is active, and move the cursor one step.
    Extend(Direction),
    /// Show the help text.
    Help,
    /// Draw the view again.
    Redraw,
    /// Store the selection in the clipboard.
    Copy,
    /// Put the cursor at the start of the row in the middle of the view.
    CursorToMiddle,
    /// Move the view so that the row of the cursor is in its middle.
    CenterView,
    /// Leave the application.
    Exit,
    /// Read the clipboard.
    Paste,
    /// Write a character at the cursor.
    Insert(char),
    /// Delete in front of the cursor, or the selection.
    Backspace,
    /// Break the row at the cursor.
    NewLine,
    /// Put the cursor at the start of its row.
    Home,
    /// Put the cursor at the end of its row.
    End,
    /// Nothing.
    Ignore,
}

/// What the caller has to do after an event was processed.
#[derive(Debug)]
pub enum Effect {
    /// Nothing.
    Nothing,
    /// Place the cursor of the terminal: see `update_cursor_pos`.
    PlaceCursor,
    /// Draw: set the size of the view, then see `render`.
    Render,
    /// Clear the screen and show the help text.
    ShowHelp,
    /// The clipboard failed; the caller decides what to do about it.
    ClipboardFailed(Error),
}

/// What is to be drawn.
pub struct Frame {
    /// The row of the screen at which the text begins, in column zero.
    pub row: u16,
    /// The text.
    pub text: String,
    /// The whole view was rendered: the status line follows the text.
    pub full: bool,
    /// Where on the screen the cursor belongs, if it stands in the view.
    pub cursor: Option<Coord>,
}

/// Half of `h`, rounded towards zero.
pub open spec fn half(h: int) -> int {
    if h >= 0 {
        h / 2
    } else {
        -((-h) / 2)
    }
}

/// `x` fits an `i32`.
pub open spec fn fits(x: int) -> bool {
    i32::MIN <= x <= i32::MAX
}

/// The low sixteen bits of `x`: what a screen coordinate keeps of it.
pub open spec fn low16(x: int) -> int {
    x % 0x1_0000
}

/// The direction of an arrow key.
pub open spec fn arrow(code: KeyCode) -> Direction {
    match code {
        KeyCode::Down => Direction::Down,
        KeyCode::Up => Direction::Up,
        KeyCode::Right => Direction::Right,
        _ => Direction::Left,
    }
}

/// What a key asks for. A bare arrow moves the cursor; with control it moves
/// the view; with shift and without control, left and right extend the
/// selection. F1 shows the help, F5 draws again. With control, `c` copies
/// the selection to the clipboard, `a` puts the cursor in the middle of the
/// view, `l` centres the view on the cursor, `b` leaves and `v` reads the
/// clipboard. Any other character is written. Backspace, enter, home and end
/// do what they are named after.
pub open spec fn intent_of(event: KeyEvent) -> Intent {
    let m = event.modifiers;
    match event.code {
        KeyCode::Down | KeyCode::Up => if m.none() {
            Intent::MoveCursor(arrow(event.code))
        } else if m.control {
            Intent::MoveView(arrow(event.code))
        } else {
            Intent::Ignore
        },
        KeyCode::Right | KeyCode::Left => if m.none() {
            Intent::MoveCursor(arrow(event.code))
        } else if m.control {
            Intent::MoveView(arrow(event.code))
        } else if m.shift {
            Intent::Extend(arrow(event.code))
        } else {
            Intent::Ignore
        },
        KeyCode::F(n) => if n == 1 {
            Intent::Help
        } else if n == 5 {
            Intent::Redraw
        } else {
            Intent::Ignore
        },
        KeyCode::Char(c) => if m.control && c == 'c' {
            Intent::Copy
        } else if m.control && c == 'a' {
            Intent::CursorToMiddle
        } else if m.control && c == 'l' {
            Intent::CenterView
        } else if m.control && c == 'b' {
            Intent::Exit
        } else if m.control && c == 'v' {
            Intent::Paste
        } else {
            Intent::Insert(c)
        },
        KeyCode::Backspace => Intent::Backspace,
        KeyCode::Enter => Intent::NewLine,
        KeyCode::Home => Intent::Home,
        KeyCode::End => Intent::End,
        KeyCode::Other => Intent::Ignore,
    }
}

impl KeyEvent {
    /// What the key asks for.
    pub fn intent(&self) -> (intent: Intent)
        ensures
            intent == intent_of(*self),
    {
        let m = self.modifiers;
        match self.code {
            KeyCode::Down => arrow_intent(Direction::Down, m, false),
            KeyCode::Up => arrow_intent(Direction::Up, m, false),
            KeyCode::Right => arrow_intent(Direction::Right, m, true),
            KeyCode::Left => arrow_intent(Direction::Left, m, true),
            KeyCode::F(n) => if n == 1 {
                Intent::Help
            } else if n == 5 {
                Intent::Redraw
            } else {
                Intent::Ignore
            },
            KeyCode::Char(c) => if m.control && c == 'c' {
                Intent::Copy
            } else if m.control && c == 'a' {
                Intent::CursorToMiddle
            } else if m.control && c == 'l' {
                Intent::CenterView
            } else if m.control && c == 'b' {
                Intent::Exit
            } else if m.control && c == 'v' {
                Intent::Paste
            } else {
                Intent::Insert(c)
            },
            KeyCode::Backspace => Intent::Backspace,
            KeyCode::Enter => Intent::NewLine,
            KeyCode::Home => Intent::Home,
            KeyCode::End => Intent::End,
            KeyCode::Other => Intent::Ignore,
        }
    }
}

/// What the arrow key of the direction `d` asks for; `sideways` says
/// whether it is left or right, which extend the selection with shift.
fn arrow_intent(d: Direction, m: KeyModifiers, sideways: bool) -> (intent: Intent)
    ensures
        intent == if m.none() {
            Intent::MoveCursor(d)
        } else if m.control {
            Intent::MoveView(d)
        } else if m.shift && sideways {
            Intent::Extend(d)
        } else {
            Intent::Ignore
        },
{
    if m.is_empty() {
        Intent::MoveCursor(d)
    } else if m.control {
        Intent::MoveView(d)
    } else if m.shift && sideways {
        Intent::Extend(d)
    } else {
        Intent::Ignore
    }
}

/// The state of the application but for its clipboard and its log.
pub ghost struct AppView {
    pub editor: EditorView,
    pub view: Rect,
    pub exit: bool,
    /// The one row to draw next time, if only one row changed.
    pub line_hint: Option<i32>,
    /// Draw that row without padding.
    pub break_hint: bool,
}

impl AppView {
    /// The view moved one step in the direction `d`.
    pub open spec fn moved_view(self, d: Direction) -> Rect {
        Rect {
            location: Vector2(
                (self.view.location.0 + d.delta().0) as i32,
                (self.view.location.1 + d.delta().1) as i32,
            ),
            ..self.view
        }
    }

    /// The row in the middle of the view.
    pub open spec fn middle_row(self) -> int {
        self.view.location.1 + half(self.view.height as int)
    }

    /// The top of the view that has the row of the cursor in its middle.
    pub open spec fn centred_top(self) -> int {
        self.editor.cursor.row - half(self.view.height as int)
    }

    /// The state can take `intent`: a written character finds room in the
    /// buffer, and a moved view stays within the `i32` coordinates.
    pub open spec fn accepts(self, intent: Intent) -> bool {
        match intent {
            Intent::MoveView(d) => fits(self.view.location.0 + d.delta().0) && fits(
                self.view.location.1 + d.delta().1,
            ),
            Intent::CenterView => fits(self.centred_top()),
            Intent::Insert(_) | Intent::NewLine => self.editor.has_room(),
            _ => true,
        }
    }

    /// The state after `intent` was performed.
    pub open spec fn perform(self, intent: Intent) -> AppView {
        match intent {
            Intent::MoveCursor(d) => AppView { editor: self.editor.move_cursor(d.delta()@), ..self },
            Intent::MoveView(d) => AppView { view: self.moved_view(d), ..self },
            Intent::Extend(d) => {
                let begun = if self.editor.selecting() {
                    self.editor
                } else {
                    self.editor.begin_select_at(self.editor.cursor)
                };
                AppView { editor: begun.move_cursor(d.delta()@), ..self }
            },
            Intent::CursorToMiddle => AppView {
                editor: self.editor.set_cursor(Pos { col: 0, row: self.middle_row() }),
                ..self
            },
            Intent::CenterView => AppView {
                view: Rect {
                    location: Vector2(self.view.location.0, self.centred_top() as i32),
                    ..self.view
                },
                ..self
            },
            Intent::Exit => AppView { exit: true, ..self },
            Intent::Insert(c) => {
                let editor = self.editor.write(c);
                AppView {
                    editor,
                    line_hint: Some(editor.cursor.row as i32),
                    break_hint: true,
                    ..self
                }
            },
            Intent::Backspace => {
                let editor = self.editor.delete();
                let one_row = match self.editor.deleted() {
                    Some(cell) => cell.char != '\n',
                    None => false,
                };
                AppView {
                    editor,
                    line_hint: if one_row {
                        Some(editor.cursor.row as i32)
                    } else {
                        self.line_hint
                    },
                    ..self
                }
            },
            Intent::NewLine => AppView { editor: self.editor.write('\n'), ..self },
            Intent::Home => AppView {
                editor: self.editor.set_cursor(Pos { col: 0, row: self.editor.cursor.row }),
                ..self
            },
            Intent::End => AppView {
                editor: self.editor.set_cursor(
                    Pos { col: self.editor.line_len(), row: self.editor.cursor.row },
                ),
                ..self
            },
            Intent::Help | Intent::Redraw | Intent::Copy | Intent::Paste | Intent::Ignore => self,
        }
    }

    /// Whether the caller draws after `intent`, places the cursor, shows the
    /// help or does nothing. What follows a call of the clipboard depends on
    /// the clipboard's answer: see `after_copy` and `after_paste`.
    pub open spec fn calls_for(intent: Intent, effect: Effect) -> bool {
        match intent {
            Intent::MoveCursor(_) | Intent::Extend(_) => effect is PlaceCursor,
            Intent::MoveView(_)
            | Intent::Redraw
            | Intent::CursorToMiddle
            | Intent::CenterView
            | Intent::Insert(_)
            | Intent::Backspace
            | Intent::NewLine
            | Intent::Home
            | Intent::End => effect is Render,
            Intent::Help => effect is ShowHelp,
            Intent::Exit | Intent::Ignore => effect is Nothing,
            Intent::Copy | Intent::Paste => effect is Nothing || effect is ClipboardFailed,
        }
    }

    /// `intent` hands a text to the clipboard: a copy while a selection is
    /// active.
    pub open spec fn stores(self, intent: Intent) -> bool {
        intent is Copy && self.editor.selecting()
    }

    /// Both hints taken back.
    pub open spec fn without_hints(self) -> AppView {
        AppView { line_hint: None, break_hint: false, ..self }
    }

    /// Where in the view the cursor stands, if it stands in the view.
    pub open spec fn cursor_offset(self) -> Option<Pos> {
        if self.view.holds(self.editor.cursor) {
            Some(
                Pos {
                    col: self.editor.cursor.col - self.view.location.0,
                    row: self.editor.cursor.row - self.view.location.1,
                },
            )
        } else {
            None
        }
    }

    /// The row `line` can be drawn alone: its first column is in the view.
    pub open spec fn line_in_view(self, line: i32) -> bool {
        self.view.holds(Pos { col: 0, row: line as int })
    }

    /// `cursor` says where on the screen the cursor belongs: at its offset
    /// in the view, as far as sixteen bits hold it.
    pub open spec fn places(self, cursor: Option<Coord>) -> bool {
        match self.cursor_offset() {
            Some(offset) => cursor is Some && cursor->0.x == low16(offset.col) && cursor->0.y
                == low16(offset.row),
            None => cursor is None,
        }
    }

    /// `frame` shows the row `line` alone, at its place on the screen,
    /// rendered with the hint for line ends as it stands.
    pub open spec fn shows_line(self, frame: Frame, line: i32) -> bool {
        &&& !frame.full
        &&& frame.row == low16(line - self.view.location.1)
        &&& frame.text@ == (StringRenderer {
            line_hint: Some(line),
            break_on_line_end: self.break_hint,
        }).rendering(self.editor, self.view)
        &&& self.places(frame.cursor)
    }

    /// `frame` shows the whole view, every line padded to the width.
    pub open spec fn shows_all(self, frame: Frame) -> bool {
        &&& frame.full
        &&& frame.row == 0
        &&& frame.text@ == (StringRenderer {
            line_hint: None,
            break_on_line_end: false,
        }).rendering(self.editor, self.view)
        &&& self.places(frame.cursor)
    }

    /// The state after the mouse did `event`: a press of the left button puts
    /// the cursor under the mouse.
    pub open spec fn on_mouse(self, event: MouseEvent) -> AppView {
        match event {
            MouseEvent::Down(MouseButton::Left, x, y) => AppView {
                editor: self.editor.set_cursor(
                    Pos { col: x + self.view.location.0, row: y + self.view.location.1 },
                ),
                ..self
            },
            _ => self,
        }
    }

    /// What the log says after the mouse did `event`.
    pub open spec fn mouse_log(self, event: MouseEvent) -> Seq<char> {
        match event {
            MouseEvent::Down(MouseButton::Left, x, y) => "mouse: set cursor location to "@
                + decimal(x + self.view.location.0) + ":"@ + decimal(y + self.view.location.1),
            _ => "unknown mouse event"@,
        }
    }
}

/// The screen coordinate of an offset in the view: its low sixteen bits.
fn screen_coordinate(offset: i32) -> (c: u16)
    requires
        offset >= 0,
    ensures
        c == low16(offset as int),
{
    assert(offset >= 0 ==> (offset as u16) == offset % 0x1_0000) by (bit_vector);
    #[verifier::truncate]
    (offset as u16)
}

/// The characters of a run of cells, as a string.
pub fn text_of(cells: &Vec<CharCel>) -> (text: String)
    ensures
        text@ == glyphs(cells@),
{
    let mut text = String::new();
    let mut i: usize = 0;
    while i < cells.len()
        invariant
            i <= cells.len(),
            text@ == glyphs(cells@.take(i as int)),
        decreases cells.len() - i,
    {
        text.push(cells[i].char);
        i = i + 1;
        assert(text@ =~= glyphs(cells@.take(i as int)));
    }
    assert(cells@.take(i as int) =~= cells@);
    text
}

/// What follows an answer of the clipboard: nothing where it did what it
/// was asked, the failure where it failed.
pub open spec fn answered<A>(answer: Result<A, Error>) -> Effect {
    match answer {
        Ok(_) => Effect::Nothing,
        Err(e) => Effect::ClipboardFailed(e),
    }
}

/// What follows the clipboard's answer to a storing: nothing where it took
/// the text, the failure where it failed.
pub fn after_copy(answer: Result<(), Error>) -> (effect: Effect)
    ensures
        effect == answered(answer),
{
    match answer {
        Ok(_) => Effect::Nothing,
        Err(e) => Effect::ClipboardFailed(e),
    }
}

/// What follows the clipboard's answer to a reading: nothing where it gave
/// its text, the failure where it failed.
pub fn after_paste(answer: Result<String, Error>) -> (effect: Effect)
    ensures
        effect == answered(answer),
{
    match answer {
        Ok(_) => Effect::Nothing,
        Err(e) => Effect::ClipboardFailed(e),
    }
}

/// Handles the main application logic.
pub struct Application<T: Clipboard> {
    pub editor: Editor,
    pub clipboard: T,
    pub render_opts: RenderOpts,
    pub exit: bool,
    pub log: String,
    /// The one row to draw next time.
    pub render_line_hint: Option<i32>,
    /// Draw that row without padding.
    pub render_break_line_hint: bool,
}

impl<T: Clipboard> View for Application<T> {
    type V = AppView;

    open spec fn view(&self) -> AppView {
        AppView {
            editor: self.editor@,
            view: self.render_opts.view,
            exit: self.exit,
            line_hint: self.render_line_hint,
            break_hint: self.render_break_line_hint,
        }
    }
}

impl<T: Clipboard> Application<T> {
    /// The invariant of the application: that of its editor.
    pub open spec fn wf(&self) -> bool {
        self.editor.wf()
    }

    /// One call of `paste` was made on `clipboard`, and `effect` is what
    /// follows its answer.
    pub open spec fn read(clipboard: T, effect: Effect) -> bool {
        exists|answer: Result<String, Error>|
            #[trigger] call_ensures(T::paste, (&clipboard,), answer) && effect == answered(answer)
    }

    /// An application around `editor` and `clipboard`, with an empty view.
    pub fn new(editor: Editor, clipboard: T) -> (app: Application<T>)
        ensures
            app.editor == editor,
            app.clipboard == clipboard,
            app.render_opts.view.location == Vector2(0, 0),
            app.render_opts.view.width == 0,
            app.render_opts.view.height == 0,
            !app.exit,
            app.log@ == Seq::<char>::empty(),
            app.render_line_hint is None,
            !app.render_break_line_hint,
    {
        Application {
            editor,
            clipboard,
            render_opts: RenderOpts::default(),
            exit: false,
            log: String::new(),
            render_line_hint: None,
            render_break_line_hint: false,
        }
    }

    /// Takes both hints back: the next drawing shows the whole view.
    pub fn clear_render_hints(&mut self)
        ensures
            final(self)@ == old(self)@.without_hints(),
            final(self).clipboard == old(self).clipboard,
            final(self).log == old(self).log,
            final(self).editor == old(self).editor,
    {
        self.render_break_line_hint = false;
        self.render_line_hint = None;
    }

    /// Sets the size of the view from that of the terminal: all its columns,
    /// and all its rows but one, which is kept for the status line.
    pub fn update_view_size(&mut self, cols: u16, rows: u16)
        ensures
            final(self).render_opts.view.width == cols,
            final(self).render_opts.view.height == rows - 1,
            final(self).render_opts.view.location == old(self).render_opts.view.location,
            final(self).editor == old(self).editor,
            final(self).clipboard == old(self).clipboard,
            final(self).exit == old(self).exit,
            final(self).log == old(self).log,
            final(self).render_line_hint == old(self).render_line_hint,
            final(self).render_break_line_hint == old(self).render_break_line_hint,
    {
        self.render_opts.view.width = cols as i32;
        self.render_opts.view.height = rows as i32 - 1;
    }

    /// Where on the screen the cursor of the terminal belongs: the cursor
    /// of the editor relative to the top-left corner of the view, if the
    /// view holds it.
    pub fn update_cursor_pos(&self) -> (place: Option<Coord>)
        ensures
            self@.places(place),
    {
        let cursor = self.editor.cursor_pos();
        if self.render_opts.view.contains(cursor) {
            let x = self.render_opts.view.x();
            let y = self.render_opts.view.y();
            // obtain the position of the cursor relative to the screen
            let real_x = cursor.x() - x;
            let real_y = cursor.y() - y;
            Some(Coord::new(screen_coordinate(real_x), screen_coordinate(real_y)))
        } else {
            None
        }
    }

    /// Whether the state can take `intent`: the condition under which
    /// `perform` and `process_key_event` may be called.
    pub fn accepts(&self, intent: Intent) -> (ok: bool)
        requires
            self.wf(),
        ensures
            ok == self@.accepts(intent),
    {
        match intent {
            Intent::MoveView(d) => {
                let x: i64 = self.render_opts.view.location.x() as i64 + d.step().x() as i64;
                let y: i64 = self.render_opts.view.location.y() as i64 + d.step().y() as i64;
                -0x8000_0000 <= x && x <= 0x7fff_ffff && -0x8000_0000 <= y && y <= 0x7fff_ffff
            },
            Intent::CenterView => {
                let top: i64 = self.editor.cursor_pos().y() as i64 - (
                self.render_opts.view.height / 2) as i64;
                -0x8000_0000 <= top && top <= 0x7fff_ffff
            },
            Intent::Insert(_) | Intent::NewLine => self.editor.has_room(),
            _ => true,
        }
    }

    /// Performs what `event` asks for, and says what the caller has to do
    /// next. A copy while a selection is active makes one call of `copy` on
    /// the clipboard, with the characters of the selection; a paste makes one
    /// call of `paste`. What the clipboard answers decides what follows.
    pub fn process_key_event(&mut self, event: KeyEvent) -> (effect: Effect)
        requires
            old(self).wf(),
            old(self)@.accepts(intent_of(event)),
        ensures
            final(self).wf(),
            final(self)@ == old(self)@.perform(intent_of(event)),
            AppView::calls_for(intent_of(event), effect),
            !AppView::stores(old(self)@, intent_of(event)) ==> final(self).clipboard == old(
                self,
            ).clipboard,
            AppView::stores(old(self)@, intent_of(event)) ==> exists|
                clipboard: &mut T,
                content: &str,
                answer: Result<(), Error>,
            |
                {
                    &&& *clipboard == old(self).clipboard
                    &&& *final(clipboard) == final(self).clipboard
                    &&& content@ == glyphs(old(self)@.editor.copy()->0)
                    &&& #[trigger] call_ensures(T::copy, (clipboard, content), answer)
                    &&& effect == answered(answer)
                },
            intent_of(event) is Copy && !old(self)@.editor.selecting() ==> effect is Nothing,
            intent_of(event) is Paste ==> Self::read(old(self).clipboard, effect),
            final(self).log == old(self).log,
    {
        let intent = event.intent();
        self.perform(intent)
    }

    /// Performs `intent`, and says what the caller has to do next. A copy
    /// while a selection is active makes one call of `copy` on the clipboard,
    /// with the characters of the selection; a paste makes one call of
    /// `paste`. What the clipboard answers decides what follows.
    pub fn perform(&mut self, intent: Intent) -> (effect: Effect)
        requires
            old(self).wf(),
            old(self)@.accepts(intent),
        ensures
            final(self).wf(),
            final(self)@ == old(self)@.perform(intent),
            AppView::calls_for(intent, effect),
            !AppView::stores(old(self)@, intent) ==> final(self).clipboard == old(self).clipboard,
            AppView::stores(old(self)@, intent) ==> exists|
                clipboard: &mut T,
                content: &str,
                answer: Result<(), Error>,
            |
                {
                    &&& *clipboard == old(self).clipboard
                    &&& *final(clipboard) == final(self).clipboard
                    &&& content@ == glyphs(old(self)@.editor.copy()->0)
                    &&& #[trigger] call_ensures(T::copy, (clipboard, content), answer)
                    &&& effect == answered(answer)
                },
            intent is Copy && !old(self)@.editor.selecting() ==> effect is Nothing,
            intent is Paste ==> Self::read(old(self).clipboard, effect),
            final(self).log == old(self).log,
    {
        match intent {
            Intent::MoveCursor(d) => {
                self.editor.move_cursor(d.step());
                Effect::PlaceCursor
            },
            Intent::MoveView(d) => {
                self.render_opts.view.location = self.render_opts.view.location.add(d.step());
                Effect::Render
            },
            Intent::Extend(d) => {
                if !self.editor.is_selecting() {
                    self.editor.begin_select();
                }
                self.editor.move_cursor(d.step());
                Effect::PlaceCursor
            },
            Intent::Help => Effect::ShowHelp,
            Intent::Redraw => Effect::Render,
            Intent::Copy => match self.editor.copy() {
                Some(cells) => {
                    let text = text_of(&cells);
                    let store = T::copy;
                    let answer = store(&mut self.clipboard, text.as_str());
                    after_copy(answer)
                },
                None => Effect::Nothing,
            },
            Intent::CursorToMiddle => {
                let row: i64 = self.render_opts.view.location.y() as i64 + (
                self.render_opts.view.height / 2) as i64;
                self.set_cursor_wide(0, row);
                Effect::Render
            },
            Intent::CenterView => {
                self.render_opts.view.location.1 = self.editor.cursor_pos().y() - (
                self.render_opts.view.height / 2);
                Effect::Render
            },
            Intent::Exit => {
                self.exit = true;
                Effect::Nothing
            },
            Intent::Paste => {
                let read = T::paste;
                let answer = read(&self.clipboard);
                after_paste(answer)
            },
            Intent::Insert(c) => {
                self.editor.write(c);
                self.render_break_line_hint = true;
                self.render_line_hint = Some(self.editor.cursor_pos().y());
                Effect::Render
            },
            Intent::Backspace => {
                if let Some(x) = self.editor.delete() {
                    if x.char != '\n' {
                        self.render_line_hint = Some(self.editor.cursor_pos().y());
                    }
                }
                Effect::Render
            },
            Intent::NewLine => {
                self.editor.write('\n');
                Effect::Render
            },
            Intent::Home => {
                let row = self.editor.cursor_pos().y();
                self.editor.set_cursor(Vector2(0, row));
                Effect::Render
            },
            Intent::End => {
                let row = self.editor.cursor_pos().y();
                let len = self.editor.line_len();
                self.editor.set_cursor(Vector2(len as i32, row));
                Effect::Render
            },
            Intent::Ignore => Effect::Nothing,
        }
    }

    /// Performs what the mouse asks for: a press of the left button puts the
    /// cursor under the mouse, and the view is to be drawn. The log says
    /// what was done.
    pub fn process_mouse_event(&mut self, event: MouseEvent) -> (effect: Effect)
        requires
            old(self).wf(),
        ensures
            final(self).wf(),
            final(self)@ == old(self)@.on_mouse(event),
            final(self).log@ == old(self)@.mouse_log(event),
            final(self).clipboard == old(self).clipboard,
            event matches MouseEvent::Down(MouseButton::Left, _, _) ==> effect is Render,
            !(event matches MouseEvent::Down(MouseButton::Left, _, _)) ==> effect is Nothing,
    {
        match event {
            MouseEvent::Down(MouseButton::Left, x, y) => {
                let column: i64 = x as i64 + self.render_opts.view.location.x() as i64;
                let row: i64 = y as i64 + self.render_opts.view.location.y() as i64;
                self.log = "mouse: set cursor location to ".to_owned().concat(
                    to_decimal(column).as_str(),
                ).concat(":").concat(to_decimal(row).as_str());
                self.set_cursor_wide(column, row);
                Effect::Render
            },
            _ => {
                self.log = "unknown mouse event".to_owned();
                Effect::Nothing
            },
        }
    }

    /// What is to be drawn: the hinted row alone, if there is a hint and the
    /// row is in the view, else the whole view. A hint is used up.
    pub fn render(&mut self) -> (frame: Frame)
        requires
            old(self).wf(),
        ensures
            final(self).wf(),
            final(self).editor == old(self).editor,
            final(self).clipboard == old(self).clipboard,
            final(self).log == old(self).log,
            match old(self)@.line_hint {
                Some(line) => {
                    &&& final(self)@ == old(self)@.without_hints()
                    &&& old(self)@.line_in_view(line) ==> old(self)@.shows_line(frame, line)
                    &&& !old(self)@.line_in_view(line) ==> old(self)@.shows_all(frame)
                },
                None => final(self)@ == old(self)@ && old(self)@.shows_all(frame),
            },
    {
        match self.render_line_hint {
            Some(line) => self.render_line(line),
            None => self.render_all(),
        }
    }

    /// What is to be drawn for the row `line`: that row alone if it is in
    /// the view, else the whole view. Both hints are taken back.
    pub fn render_line(&mut self, line: i32) -> (frame: Frame)
        requires
            old(self).wf(),
        ensures
            final(self).wf(),
            final(self).editor == old(self).editor,
            final(self).clipboard == old(self).clipboard,
            final(self).log == old(self).log,
            final(self)@ == old(self)@.without_hints(),
            old(self)@.line_in_view(line) ==> old(self)@.shows_line(frame, line),
            !old(self)@.line_in_view(line) ==> old(self)@.shows_all(frame),
    {
        if self.render_opts.view.contains(Vector2(0, line)) {
            let y = screen_coordinate(line - self.render_opts.view.location.y());
            let renderer = StringRenderer {
                line_hint: Some(line),
                break_on_line_end: self.render_break_line_hint,
            };
            let text = renderer.render(&self.editor, self.render_opts);
            let cursor = self.update_cursor_pos();
            self.clear_render_hints();
            Frame { row: y, text, full: false, cursor }
        } else {
            self.clear_render_hints();
            self.render_all()
        }
    }

    /// The whole view, every line padded to the width.
    fn render_all(&self) -> (frame: Frame)
        requires
            self.wf(),
        ensures
            self@.shows_all(frame),
    {
        let text = StringRenderer::new().render(&self.editor, self.render_opts);
        let cursor = self.update_cursor_pos();
        Frame { row: 0, text, full: true, cursor }
    }

    /// Puts the cursor of the editor at the reachable position nearest to
    /// the column and row given, which may lie outside the `i32` range.
    fn set_cursor_wide(&mut self, column: i64, row: i64)
        requires
            old(self).wf(),
        ensures
            final(self).wf(),
            final(self).editor@ == old(self).editor@.set_cursor(
                Pos { col: column as int, row: row as int },
            ),
            final(self).clipboard == old(self).clipboard,
            final(self).log == old(self).log,
            final(self).render_opts == old(self).render_opts,
            final(self).exit == old(self).exit,
            final(self).render_line_hint == old(self).render_line_hint,
            final(self).render_break_line_hint == old(self).render_break_line_hint,
    {
        let c: i32 = if column < -0x8000_0000 {
            -0x8000_0000
        } else if column > 0x7fff_ffff {
            0x7fff_ffff
        } else {
            column as i32
        };
        let r: i32 = if row < -0x8000_0000 {
            -0x8000_0000
        } else if row > 0x7fff_ffff {
            0x7fff_ffff
        } else {
            row as i32
        };
        proof {
            lemma_clamp_saturated(
                self.editor@.rows,
                Pos { col: column as int, row: row as int },
            );
        }
        self.editor.set_cursor(Vector2(c, r));
    }
}

} // verus!
