use rust_ed::application::{
    after_copy, after_paste, text_of, Application, Effect, Intent, KeyCode, KeyEvent,
    KeyModifiers, MouseButton, MouseEvent,
};
use rust_ed::cell::CharCel;
use rust_ed::clipboard::{Clipboard, Error, MemoryClipboard, Result};
use rust_ed::decimal::to_decimal;
use rust_ed::direction::Direction;
use rust_ed::editor::Editor;
use rust_ed::vector::Vector2;

const NONE: KeyModifiers = KeyModifiers { shift: false, control: false, alt: false };
const CONTROL: KeyModifiers = KeyModifiers { shift: false, control: true, alt: false };
const SHIFT: KeyModifiers = KeyModifiers { shift: true, control: false, alt: false };
const ALT: KeyModifiers = KeyModifiers { shift: false, control: false, alt: true };

struct BrokenClipboard;

impl Clipboard for BrokenClipboard {
    fn paste(&self) -> Result<String> {
        Err(Error::Paste)
    }

    fn copy(&mut self, _content: &str) -> Result<()> {
        Err(Error::Copy)
    }
}

fn key(code: KeyCode, modifiers: KeyModifiers) -> KeyEvent {
    KeyEvent { code, modifiers }
}

fn app_of(text: &str) -> Application<MemoryClipboard> {
    let mut app = Application::new(Editor::from(text.to_string()), MemoryClipboard::new());
    app.update_view_size(10, 5);
    app
}

#[test]
fn new_application() {
    let app = Application::new(Editor::new(), MemoryClipboard::new());
    assert!(!app.exit);
    assert_eq!(app.log, "");
    assert_eq!(app.render_opts.view.location, Vector2(0, 0));
    assert_eq!((app.render_opts.view.width, app.render_opts.view.height), (0, 0));
    assert_eq!(app.render_line_hint, None);
    assert!(!app.render_break_line_hint);
}

#[test]
fn view_size_keeps_a_row_for_the_status_line() {
    let mut app = app_of("abc");
    app.update_view_size(80, 25);
    assert_eq!((app.render_opts.view.width, app.render_opts.view.height), (80, 24));
    app.update_view_size(0, 0);
    assert_eq!((app.render_opts.view.width, app.render_opts.view.height), (0, -1));
    app.update_view_size(u16::MAX, u16::MAX);
    assert_eq!((app.render_opts.view.width, app.render_opts.view.height), (65535, 65534));
}

#[test]
fn intents_of_keys() {
    assert_eq!(key(KeyCode::Down, NONE).intent(), Intent::MoveCursor(Direction::Down));
    assert_eq!(key(KeyCode::Up, NONE).intent(), Intent::MoveCursor(Direction::Up));
    assert_eq!(key(KeyCode::Right, NONE).intent(), Intent::MoveCursor(Direction::Right));
    assert_eq!(key(KeyCode::Left, NONE).intent(), Intent::MoveCursor(Direction::Left));
    assert_eq!(key(KeyCode::Down, CONTROL).intent(), Intent::MoveView(Direction::Down));
    assert_eq!(key(KeyCode::Left, CONTROL).intent(), Intent::MoveView(Direction::Left));
    let both = KeyModifiers { shift: true, control: true, alt: false };
    assert_eq!(key(KeyCode::Right, both).intent(), Intent::MoveView(Direction::Right));
    assert_eq!(key(KeyCode::Right, SHIFT).intent(), Intent::Extend(Direction::Right));
    assert_eq!(key(KeyCode::Left, SHIFT).intent(), Intent::Extend(Direction::Left));
    assert_eq!(key(KeyCode::Up, SHIFT).intent(), Intent::Ignore);
    assert_eq!(key(KeyCode::Down, ALT).intent(), Intent::Ignore);
    assert_eq!(key(KeyCode::Left, ALT).intent(), Intent::Ignore);
    assert_eq!(key(KeyCode::F(1), NONE).intent(), Intent::Help);
    assert_eq!(key(KeyCode::F(5), SHIFT).intent(), Intent::Redraw);
    assert_eq!(key(KeyCode::F(2), NONE).intent(), Intent::Ignore);
    assert_eq!(key(KeyCode::Char('c'), CONTROL).intent(), Intent::Copy);
    assert_eq!(key(KeyCode::Char('a'), CONTROL).intent(), Intent::CursorToMiddle);
    assert_eq!(key(KeyCode::Char('l'), CONTROL).intent(), Intent::CenterView);
    assert_eq!(key(KeyCode::Char('b'), CONTROL).intent(), Intent::Exit);
    assert_eq!(key(KeyCode::Char('v'), CONTROL).intent(), Intent::Paste);
    assert_eq!(key(KeyCode::Char('c'), NONE).intent(), Intent::Insert('c'));
    assert_eq!(key(KeyCode::Char('x'), CONTROL).intent(), Intent::Insert('x'));
    assert_eq!(key(KeyCode::Char('C'), SHIFT).intent(), Intent::Insert('C'));
    assert_eq!(key(KeyCode::Backspace, NONE).intent(), Intent::Backspace);
    assert_eq!(key(KeyCode::Enter, NONE).intent(), Intent::NewLine);
    assert_eq!(key(KeyCode::Home, NONE).intent(), Intent::Home);
    assert_eq!(key(KeyCode::End, CONTROL).intent(), Intent::End);
    assert_eq!(key(KeyCode::Other, NONE).intent(), Intent::Ignore);
    assert!(NONE.is_empty());
    assert!(!ALT.is_empty());
}

#[test]
fn arrows_move_the_cursor() {
    let mut app = app_of("abc\nde");
    assert!(matches!(app.process_key_event(key(KeyCode::Right, NONE)), Effect::PlaceCursor));
    assert_eq!(app.editor.cursor_pos(), Vector2(1, 0));
    assert!(matches!(app.process_key_event(key(KeyCode::Down, NONE)), Effect::PlaceCursor));
    assert_eq!(app.editor.cursor_pos(), Vector2(1, 1));
    app.process_key_event(key(KeyCode::Down, NONE));
    assert_eq!(app.editor.cursor_pos(), Vector2(1, 1));
    app.process_key_event(key(KeyCode::Left, NONE));
    app.process_key_event(key(KeyCode::Left, NONE));
    assert_eq!(app.editor.cursor_pos(), Vector2(0, 1));
    app.process_key_event(key(KeyCode::Up, NONE));
    assert_eq!(app.editor.cursor_pos(), Vector2(0, 0));
}

#[test]
fn control_arrows_move_the_view() {
    let mut app = app_of("abc\nde");
    assert!(app.accepts(Intent::MoveView(Direction::Down)));
    assert!(matches!(app.process_key_event(key(KeyCode::Down, CONTROL)), Effect::Render));
    assert_eq!(app.render_opts.view.location, Vector2(0, 1));
    app.process_key_event(key(KeyCode::Right, CONTROL));
    assert_eq!(app.render_opts.view.location, Vector2(1, 1));
    app.process_key_event(key(KeyCode::Up, CONTROL));
    app.process_key_event(key(KeyCode::Up, CONTROL));
    app.process_key_event(key(KeyCode::Left, CONTROL));
    app.process_key_event(key(KeyCode::Left, CONTROL));
    assert_eq!(app.render_opts.view.location, Vector2(-1, -1));
    assert_eq!(app.editor.cursor_pos(), Vector2(0, 0));
    app.render_opts.view.location = Vector2(i32::MAX, i32::MIN);
    assert!(!app.accepts(Intent::MoveView(Direction::Right)));
    assert!(!app.accepts(Intent::MoveView(Direction::Up)));
    assert!(app.accepts(Intent::MoveView(Direction::Left)));
    assert!(app.accepts(Intent::MoveView(Direction::Down)));
}

#[test]
fn shift_arrows_extend_the_selection() {
    let mut app = app_of("abcdef");
    app.editor.set_cursor(Vector2(2, 0));
    assert!(matches!(app.process_key_event(key(KeyCode::Right, SHIFT)), Effect::PlaceCursor));
    assert_eq!(app.editor.selection(), Some(Vector2(2, 0)));
    assert_eq!(app.editor.cursor_pos(), Vector2(3, 0));
    app.process_key_event(key(KeyCode::Right, SHIFT));
    assert_eq!(app.editor.selection(), Some(Vector2(2, 0)));
    assert_eq!(app.editor.cursor_pos(), Vector2(4, 0));
    app.process_key_event(key(KeyCode::Left, SHIFT));
    assert_eq!(app.editor.cursor_pos(), Vector2(3, 0));
    let copied: String = app.editor.copy().unwrap().iter().map(|c| c.char).collect();
    assert_eq!(copied, "c");
}

#[test]
fn characters_are_written_and_hint_at_their_row() {
    let mut app = app_of("abc\nde");
    app.editor.set_cursor(Vector2(1, 1));
    assert!(app.accepts(Intent::Insert('x')));
    assert!(matches!(app.process_key_event(key(KeyCode::Char('x'), NONE)), Effect::Render));
    assert_eq!(app.editor.to_text(), "abc\ndxe");
    assert_eq!(app.render_line_hint, Some(1));
    assert!(app.render_break_line_hint);
}

#[test]
fn enter_breaks_the_row_without_a_hint() {
    let mut app = app_of("abcd");
    app.editor.set_cursor(Vector2(2, 0));
    assert!(matches!(app.process_key_event(key(KeyCode::Enter, NONE)), Effect::Render));
    assert_eq!(app.editor.to_text(), "ab\ncd");
    assert_eq!(app.editor.cursor_pos(), Vector2(0, 1));
    assert_eq!(app.render_line_hint, None);
    assert!(!app.render_break_line_hint);
}

#[test]
fn backspace_hints_at_the_row_unless_rows_merged() {
    let mut app = app_of("abc\nde");
    app.editor.set_cursor(Vector2(1, 1));
    assert!(matches!(app.process_key_event(key(KeyCode::Backspace, NONE)), Effect::Render));
    assert_eq!(app.editor.to_text(), "abc\ne");
    assert_eq!(app.render_line_hint, Some(1));
    app.clear_render_hints();
    assert!(matches!(app.process_key_event(key(KeyCode::Backspace, NONE)), Effect::Render));
    assert_eq!(app.editor.to_text(), "abce");
    assert_eq!(app.render_line_hint, None);
    assert_eq!(app.editor.cursor_pos(), Vector2(3, 0));
    app.editor.set_cursor(Vector2(0, 0));
    app.process_key_event(key(KeyCode::Backspace, NONE));
    assert_eq!(app.editor.to_text(), "abce");
    assert_eq!(app.render_line_hint, None);
}

#[test]
fn home_and_end() {
    let mut app = app_of("abc\ndefgh");
    app.editor.set_cursor(Vector2(2, 1));
    assert!(matches!(app.process_key_event(key(KeyCode::End, NONE)), Effect::Render));
    assert_eq!(app.editor.cursor_pos(), Vector2(5, 1));
    assert!(matches!(app.process_key_event(key(KeyCode::Home, NONE)), Effect::Render));
    assert_eq!(app.editor.cursor_pos(), Vector2(0, 1));
}

#[test]
fn control_keys() {
    let mut app = app_of("a\nb\nc\nd\ne\nf\ng\nh");
    app.update_view_size(10, 7);
    app.render_opts.view.location = Vector2(0, 2);
    assert!(matches!(app.process_key_event(key(KeyCode::Char('a'), CONTROL)), Effect::Render));
    assert_eq!(app.editor.cursor_pos(), Vector2(0, 5));
    app.editor.set_cursor(Vector2(1, 7));
    assert!(app.accepts(Intent::CenterView));
    assert!(matches!(app.process_key_event(key(KeyCode::Char('l'), CONTROL)), Effect::Render));
    assert_eq!(app.render_opts.view.location, Vector2(0, 4));
    assert!(matches!(app.process_key_event(key(KeyCode::Char('c'), CONTROL)), Effect::Nothing));
    assert!(matches!(app.process_key_event(key(KeyCode::F(1), NONE)), Effect::ShowHelp));
    assert!(matches!(app.process_key_event(key(KeyCode::F(5), NONE)), Effect::Render));
    assert!(matches!(app.process_key_event(key(KeyCode::Other, NONE)), Effect::Nothing));
    assert!(!app.exit);
    assert!(matches!(app.process_key_event(key(KeyCode::Char('b'), CONTROL)), Effect::Nothing));
    assert!(app.exit);
    assert_eq!(app.editor.to_text(), "a\nb\nc\nd\ne\nf\ng\nh");
}

#[test]
fn centre_view_rounds_half_the_height_towards_zero() {
    let mut app = app_of("a\nb\nc\nd");
    app.render_opts.view.height = -3;
    app.editor.set_cursor(Vector2(0, 2));
    app.process_key_event(key(KeyCode::Char('l'), CONTROL));
    assert_eq!(app.render_opts.view.location, Vector2(0, 3));
    app.render_opts.view.height = i32::MIN;
    assert!(app.accepts(Intent::CenterView));
    app.process_key_event(key(KeyCode::Char('l'), CONTROL));
    assert_eq!(app.render_opts.view.location, Vector2(0, 2 + (1 << 30)));
}

#[test]
fn control_c_stores_the_selection_in_the_clipboard() {
    let mut app = app_of("abc\ndef");
    assert!(matches!(app.process_key_event(key(KeyCode::Char('c'), CONTROL)), Effect::Nothing));
    assert_eq!(app.clipboard.inner, "");
    app.editor.set_cursor(Vector2(1, 0));
    app.editor.begin_select();
    app.editor.set_cursor(Vector2(2, 1));
    assert!(matches!(app.process_key_event(key(KeyCode::Char('c'), CONTROL)), Effect::Nothing));
    assert_eq!(app.clipboard.inner, "bc\nde");
    assert_eq!(app.editor.to_text(), "abc\ndef");
    assert!(app.editor.is_selecting());
    assert_eq!(app.editor.cursor_pos(), Vector2(2, 1));
}

#[test]
fn copy_reports_a_failing_clipboard() {
    let mut broken = Application::new(Editor::from("abc".to_string()), BrokenClipboard);
    assert!(matches!(
        broken.process_key_event(key(KeyCode::Char('c'), CONTROL)),
        Effect::Nothing
    ));
    broken.editor.begin_select();
    broken.editor.set_cursor(Vector2(2, 0));
    assert!(matches!(
        broken.process_key_event(key(KeyCode::Char('c'), CONTROL)),
        Effect::ClipboardFailed(Error::Copy)
    ));
    assert!(matches!(after_copy(Ok(())), Effect::Nothing));
    assert!(matches!(after_copy(Err(Error::Copy)), Effect::ClipboardFailed(Error::Copy)));
}

#[test]
fn text_of_cells() {
    assert_eq!(text_of(&vec![]), "");
    let cells = vec![CharCel::from('a'), CharCel::from('\n'), CharCel::from('é')];
    assert_eq!(text_of(&cells), "a\né");
}

#[test]
fn paste_reports_a_failing_clipboard() {
    let mut app = app_of("abc");
    app.clipboard.copy("xyz").unwrap();
    assert!(matches!(app.process_key_event(key(KeyCode::Char('v'), CONTROL)), Effect::Nothing));
    assert_eq!(app.editor.to_text(), "abc");
    let mut broken = Application::new(Editor::new(), BrokenClipboard);
    assert!(matches!(
        broken.process_key_event(key(KeyCode::Char('v'), CONTROL)),
        Effect::ClipboardFailed(Error::Paste)
    ));
    assert!(matches!(broken.clipboard.clear(), Err(Error::Copy)));
    assert!(matches!(after_paste(Ok("text".to_string())), Effect::Nothing));
    assert!(matches!(
        after_paste(Err(Error::Os("error pasting: ", "gone".to_string()))),
        Effect::ClipboardFailed(Error::Os("error pasting: ", _))
    ));
}

#[test]
fn mouse_press_sets_the_cursor() {
    let mut app = app_of("abc\ndefgh");
    app.render_opts.view.location = Vector2(1, 1);
    let effect = app.process_mouse_event(MouseEvent::Down(MouseButton::Left, 2, 0));
    assert!(matches!(effect, Effect::Render));
    assert_eq!(app.editor.cursor_pos(), Vector2(3, 1));
    assert_eq!(app.log, "mouse: set cursor location to 3:1");
    app.render_opts.view.location = Vector2(-40, i32::MAX);
    app.process_mouse_event(MouseEvent::Down(MouseButton::Left, 7, 9));
    assert_eq!(app.editor.cursor_pos(), Vector2(0, 1));
    assert_eq!(app.log, "mouse: set cursor location to -33:2147483656");
}

#[test]
fn other_mouse_events_are_logged_only() {
    let mut app = app_of("abc");
    app.editor.set_cursor(Vector2(2, 0));
    let effect = app.process_mouse_event(MouseEvent::Down(MouseButton::Right, 0, 0));
    assert!(matches!(effect, Effect::Nothing));
    assert_eq!(app.log, "unknown mouse event");
    assert!(matches!(app.process_mouse_event(MouseEvent::Other), Effect::Nothing));
    assert!(matches!(
        app.process_mouse_event(MouseEvent::Down(MouseButton::Middle, 0, 0)),
        Effect::Nothing
    ));
    assert_eq!(app.editor.cursor_pos(), Vector2(2, 0));
}

#[test]
fn cursor_place_on_the_screen() {
    let mut app = app_of("abc\ndefgh");
    app.editor.set_cursor(Vector2(4, 1));
    let place = app.update_cursor_pos().unwrap();
    assert_eq!((place.x, place.y), (4, 1));
    app.render_opts.view.location = Vector2(2, 1);
    let place = app.update_cursor_pos().unwrap();
    assert_eq!((place.x, place.y), (2, 0));
    app.render_opts.view.location = Vector2(5, 0);
    assert!(app.update_cursor_pos().is_none());
    app.render_opts.view.location = Vector2(0, 2);
    assert!(app.update_cursor_pos().is_none());
}

#[test]
fn render_whole_view() {
    let mut app = app_of("abc\ndefgh");
    app.update_view_size(4, 3);
    app.editor.set_cursor(Vector2(1, 1));
    let frame = app.render();
    assert!(frame.full);
    assert_eq!(frame.row, 0);
    assert_eq!(frame.text, "abc \ndefg\n");
    let place = frame.cursor.unwrap();
    assert_eq!((place.x, place.y), (1, 1));
}

#[test]
fn render_hinted_row_alone() {
    let mut app = app_of("abc\ndefgh\nij");
    app.update_view_size(8, 4);
    app.editor.set_cursor(Vector2(5, 1));
    app.process_key_event(key(KeyCode::Char('!'), NONE));
    let frame = app.render();
    assert!(!frame.full);
    assert_eq!(frame.row, 1);
    assert_eq!(frame.text, "defgh!\n");
    let place = frame.cursor.unwrap();
    assert_eq!((place.x, place.y), (6, 1));
    assert_eq!(app.render_line_hint, None);
    assert!(!app.render_break_line_hint);
    let frame = app.render();
    assert!(frame.full);
    assert_eq!(frame.text, "abc     \ndefgh!  \nij      \n");
}

#[test]
fn render_line_outside_the_view_draws_everything() {
    let mut app = app_of("abc\ndefgh\nij");
    app.update_view_size(3, 3);
    app.render_opts.view.location = Vector2(0, 1);
    app.render_line_hint = Some(0);
    app.render_break_line_hint = true;
    let frame = app.render();
    assert!(frame.full);
    assert_eq!(frame.row, 0);
    assert_eq!(frame.text, "def\nij \n");
    assert_eq!(app.render_line_hint, None);
    assert!(!app.render_break_line_hint);
    app.render_opts.view.location = Vector2(1, 0);
    let frame = app.render_line(1);
    assert!(frame.full);
    assert_eq!(frame.text, "bc \nefg\n");
    app.render_opts.view.location = Vector2(0, 1);
    let frame = app.render_line(2);
    assert!(!frame.full);
    assert_eq!(frame.row, 1);
    assert_eq!(frame.text, "ij \n");
}

#[test]
fn decimal_notation() {
    assert_eq!(to_decimal(0), "0");
    assert_eq!(to_decimal(7), "7");
    assert_eq!(to_decimal(10), "10");
    assert_eq!(to_decimal(-1), "-1");
    assert_eq!(to_decimal(1234567890), "1234567890");
    assert_eq!(to_decimal(-90210), "-90210");
    assert_eq!(to_decimal(i64::MAX), i64::MAX.to_string());
    assert_eq!(to_decimal(i64::MIN), i64::MIN.to_string());
}
