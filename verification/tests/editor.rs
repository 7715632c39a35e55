use rust_ed::cell::CharCel;
use rust_ed::editor::Editor;
use rust_ed::vector::Vector2;
use std::cmp::Ordering;

const TEST_STRING: &str = "\
The quick brown fox jumps over the lazy dog.\n\
\n\
    fn main() {\n\
        println!(\"hello, world\");\n\
    }\n\
\n\
A line that is a good deal longer than the others, so that columns beyond the fiftieth exist in it.\n\
short\n\
x\n\
\n\
Lorem ipsum dolor sit amet, consectetur adipiscing elit,\n\
sed do eiusmod tempor incididunt ut labore et dolore magna aliqua.\n\
Ut enim ad minim veniam,\n\
quis nostrud exercitation ullamco laboris nisi ut aliquip ex ea commodo consequat.\n\
Duis aute irure dolor in reprehenderit in voluptate velit esse cillum dolore\n\
eu fugiat nulla pariatur.\n\
Excepteur sint occaecat cupidatat non proident,\n\
sunt in culpa qui officia deserunt mollit anim id est laborum.\n\
\n\
0123456789012345678901234567890123456789012345678901234567890123456789\n\
line 21\n\
line 22\n\
line 23 is here\n\
line 24\n\
\ttabs\tand  spaces  \n\
line 26\n\
line 27\n\
line 28\n\
line 29\n\
line 30 holds more than thirty characters, as its number says\n\
line 31 holds more than thirty characters too, to be cut in the middle\n\
line 32\n\
line 33\n\
line 34\n\
line 35\n\
line 36\n\
line 37\n\
line 38\n\
line 39\n\
line 40\n\
line 41: near the end\n\
line 42\n\
line 43\n\
the last line, without a line feed behind it";

fn text_of(cells: &[CharCel]) -> String {
    cells.iter().map(|x| x.char).collect::<String>()
}

fn row_text(editor: &Editor, row: i32) -> String {
    let mut out = String::new();
    let mut col = 0;
    while let Some(cell) = editor.get_cell(Vector2(col, row)) {
        out.push(cell.char);
        col += 1;
    }
    out
}

#[test]
fn test_vector_cmp() {
    let test_cases = vec![
        (0, 0, 1, 1, Ordering::Less),
        (10, 0, 0, 0, Ordering::Greater),
        (10, 10, 10, 10, Ordering::Equal),
        (10, 10, 11, 0, Ordering::Greater),
    ];

    for (x1, y1, x2, y2, res) in test_cases {
        assert_eq!(Vector2(x1, y1).cmp(&Vector2(x2, y2)), res);
    }
}

// ensure that cut and copy produce the same results
#[test]
fn test_editor_copy_range() {
    let mut editor = Editor::from(TEST_STRING.to_string());

    let test_cases = vec![
        (0, 0, 6, 1),
        (20, 20, 0, 100),
        (100, 29, 3, 40),
        (30, 30, 50, 0),
        (100, 100, 0, 0),
    ];

    for (x, y, x2, y2) in test_cases {
        let copy = text_of(&editor.copy_range((x, y).into(), (x2, y2).into()));
        let cut = text_of(&editor.cut_range((x, y).into(), (x2, y2).into()));

        assert_eq!(copy, cut)
    }
}

#[test]
fn test_editor_cursor_movement() {
    let mut editor = Editor::from(TEST_STRING.to_string());

    for row in 0..(300 / 5) {
        for col in 0..(300 / 5) {
            let (row, col) = ((row * 5), (col * 5));
            let before_set_cursor = editor.cursor_pos();
            editor.set_cursor((col, row).into());
            let before_write = editor.cursor_pos();
            editor.write('\0');
            let after_write = editor.cursor_pos();
            if let Some(x) = editor.delete() {
                if x.char != '\0' {
                    panic!(
                        "\
                         deleted character was not '\\0':\n\
                         col, row: {:?}\nbefore set cursor: {:?},\n\
                         after deletion: {:?},\n\
                         before write: {:?},\n\
                         after write: {:?}",
                        (col, row),
                        before_set_cursor,
                        editor.cursor_pos(),
                        before_write,
                        after_write
                    );
                }
            }
        }
    }

    assert_eq!(editor.to_text(), TEST_STRING.to_string().replace("\r\n", "\n"));
}

#[test]
fn test_editor() {
    let mut test_string = "hello world".to_string();
    let mut editor = Editor::new();

    for i in test_string.chars() {
        editor.write(i);
    }

    assert_eq!(editor.to_text(), test_string);

    // move cursor two to the left and insert a character
    editor.move_cursor(Vector2(-2, 0));
    editor.write('s');

    test_string.insert(test_string.len() - 2, 's');
    assert_eq!(editor.to_text(), test_string);

    // move the cursor out of bounds
    editor.move_cursor((9999, 9999).into());
    editor.delete();
    test_string.pop();

    assert_eq!(editor.to_text(), test_string);

    // insert a new line at the beginning of the string
    editor.set_cursor((0, 0).into());
    editor.write('\n');

    assert_eq!(editor.row_count(), 2 as usize);

    // a new line was successfully inserted at the beginning of the line
    // moving the contents of the previous line to the next
    assert_eq!(row_text(&editor, 1), test_string);

    // move the cursor to the end of the previous line
    editor.move_cursor((9999, -1).into());
    editor.write('\n');

    assert_eq!(editor.row_count(), 3);

    editor.set_cursor((0, 1).into());
    editor.delete();

    assert_eq!(editor.row_count(), 2);

    // assert that the cursor has move to the previous line
    assert_eq!(editor.cursor_pos().1, 0);

    // move the cursor to the very last line and delete it
    editor.set_cursor((0, 9999).into());
    editor.delete();

    assert_eq!(editor.to_text(), test_string);
    assert_eq!(editor.row_count(), 1);

    // delete all characters in editor
    editor.set_cursor((9999, 9999).into());
    for _i in 0..50 {
        println!("{:?}", editor.cursor_pos());
        editor.delete();
    }
    assert_eq!(editor.to_text(), "");
}

// make sure the output is equal to the input
// to make this work you have to transform \r\n to \n
#[test]
fn test_editor_from_string() {
    let test_cases = vec![
        "please wait warmly",
        "\n\n",
        "\n\nso nanoka",
        "have a good smoke\nmokou\n",
        "hello\nworld",
        TEST_STRING,
        "\r\r\r\r\r\n",
        "\rhome alone on a friday night\n\n\r",
    ];

    for i in test_cases {
        let i = i.replace("\r", "");
        let editor = Editor::from(i.to_string());
        assert_eq!(editor.to_text(), i.to_string());
    }
}

fn editor_of(rows: &[&str]) -> Editor {
    Editor::from(rows.join("\n"))
}

fn rows_of(editor: &Editor) -> Vec<String> {
    (0..editor.row_count()).map(|r| row_text(editor, r as i32)).collect()
}

#[test]
fn new_editor_is_empty() {
    let editor = Editor::new();
    assert_eq!(editor.row_count(), 0);
    assert_eq!(editor.cursor_pos(), Vector2(0, 0));
    assert_eq!(editor.to_text(), "");
    assert!(!editor.is_selecting());
    assert!(editor.has_room());
    assert_eq!(editor.line_len(), 0);
}

#[test]
fn clamp_on_empty_buffer_is_origin() {
    let editor = Editor::new();
    assert_eq!(editor.clamp_vector(Vector2(7, 9)), Vector2(0, 0));
    assert_eq!(editor.clamp_vector(Vector2(-7, -9)), Vector2(0, 0));
    assert_eq!(editor.clamp_to_column(Vector2(3, 0)), Vector2(0, 0));
}

#[test]
fn clamp_brings_rows_and_columns_into_range() {
    let editor = editor_of(&["abc", "", "defgh"]);
    assert_eq!(editor.clamp_vector(Vector2(1, 0)), Vector2(1, 0));
    assert_eq!(editor.clamp_vector(Vector2(3, 0)), Vector2(3, 0));
    assert_eq!(editor.clamp_vector(Vector2(4, 0)), Vector2(3, 0));
    assert_eq!(editor.clamp_vector(Vector2(-1, 0)), Vector2(0, 0));
    assert_eq!(editor.clamp_vector(Vector2(2, -5)), Vector2(2, 0));
    assert_eq!(editor.clamp_vector(Vector2(2, 1)), Vector2(0, 1));
    assert_eq!(editor.clamp_vector(Vector2(2, 3)), Vector2(2, 2));
    assert_eq!(editor.clamp_vector(Vector2(9, 99)), Vector2(5, 2));
    assert_eq!(editor.clamp_vector(Vector2(i32::MAX, i32::MAX)), Vector2(5, 2));
    assert_eq!(editor.clamp_vector(Vector2(i32::MIN, i32::MIN)), Vector2(0, 0));
    assert_eq!(editor.clamp_to_column(Vector2(9, 2)), Vector2(5, 2));
    assert_eq!(editor.clamp_to_column(Vector2(9, 3)), Vector2(0, 0));
    assert_eq!(editor.clamp_to_column(Vector2(9, -1)), Vector2(0, 0));
}

#[test]
fn clamp_totality_over_a_grid_of_positions() {
    let editor = editor_of(&["abc", "", "defgh"]);
    let lens = [3, 0, 5];
    for r in -4..8 {
        for c in -4..9 {
            let p = editor.clamp_vector(Vector2(c, r));
            assert!(0 <= p.1 && p.1 < 3);
            assert!(0 <= p.0 && p.0 <= lens[p.1 as usize]);
            assert_eq!(editor.clamp_vector(p), p);
        }
    }
}

#[test]
fn move_cursor_saturates_at_the_bounds() {
    let mut editor = editor_of(&["abc", "de"]);
    assert_eq!(editor.move_cursor(Vector2(2, 0)), Vector2(2, 0));
    assert_eq!(editor.move_cursor(Vector2(0, 1)), Vector2(2, 1));
    assert_eq!(editor.move_cursor(Vector2(5, 0)), Vector2(2, 1));
    assert_eq!(editor.move_cursor(Vector2(0, -1)), Vector2(2, 0));
    assert_eq!(editor.move_cursor(Vector2(i32::MAX, i32::MAX)), Vector2(2, 1));
    assert_eq!(editor.move_cursor(Vector2(i32::MIN, i32::MIN)), Vector2(0, 0));
    assert_eq!(editor.cursor_pos(), Vector2(0, 0));
    assert_eq!(editor.set_cursor(Vector2(1, 7)), Vector2(1, 1));
    assert_eq!(editor.cursor_pos(), Vector2(1, 1));
}

#[test]
fn write_appends_and_inserts() {
    let mut editor = editor_of(&["ac"]);
    editor.set_cursor(Vector2(1, 0));
    editor.write('b');
    assert_eq!(editor.to_text(), "abc");
    assert_eq!(editor.cursor_pos(), Vector2(2, 0));
    editor.set_cursor(Vector2(99, 0));
    editor.write('d');
    assert_eq!(editor.to_text(), "abcd");
    assert_eq!(editor.cursor_pos(), Vector2(4, 0));
}

#[test]
fn write_newline_at_origin_of_one_row() {
    let mut editor = editor_of(&["some text"]);
    editor.set_cursor(Vector2(0, 0));
    editor.write('\n');
    assert_eq!(editor.row_count(), 2);
    assert_eq!(rows_of(&editor), vec!["", "some text"]);
    assert_eq!(editor.cursor_pos(), Vector2(0, 1));
}

#[test]
fn write_newline_splits_the_row_at_the_cursor() {
    let mut editor = editor_of(&["abcdef", "xyz"]);
    editor.set_cursor(Vector2(2, 0));
    editor.write('\n');
    assert_eq!(rows_of(&editor), vec!["ab", "cdef", "xyz"]);
    assert_eq!(editor.cursor_pos(), Vector2(0, 1));
    editor.set_cursor(Vector2(3, 2));
    editor.write('\n');
    assert_eq!(rows_of(&editor), vec!["ab", "cdef", "xyz", ""]);
    assert_eq!(editor.cursor_pos(), Vector2(0, 3));
}

#[test]
fn write_into_empty_buffer_makes_the_first_row() {
    let mut editor = Editor::new();
    editor.write('\n');
    assert_eq!(editor.row_count(), 2);
    assert_eq!(editor.to_text(), "\n");
    assert_eq!(editor.cursor_pos(), Vector2(0, 1));
}

#[test]
fn write_at_clamps_and_keeps_the_cursor() {
    let mut editor = editor_of(&["abc", "de"]);
    editor.set_cursor(Vector2(1, 0));
    editor.write_at(Vector2(50, 50), '!');
    assert_eq!(rows_of(&editor), vec!["abc", "de!"]);
    assert_eq!(editor.cursor_pos(), Vector2(1, 0));
    editor.write_at(Vector2(-3, -3), '>');
    assert_eq!(rows_of(&editor), vec![">abc", "de!"]);
    assert_eq!(editor.cursor_pos(), Vector2(1, 0));
}

#[test]
fn write_at_leaves_the_cursor_alone() {
    let mut editor = editor_of(&["abc"]);
    editor.set_cursor(Vector2(3, 0));
    editor.write_at(Vector2(0, 0), '\n');
    assert_eq!(rows_of(&editor), vec!["", "abc"]);
    assert_eq!(editor.cursor_pos(), Vector2(3, 0));
    editor.write_at(Vector2(0, 0), 'x');
    assert_eq!(rows_of(&editor), vec!["x", "abc"]);
    assert_eq!(editor.cursor_pos(), Vector2(3, 0));
}

#[test]
fn a_cursor_that_lost_its_place_acts_where_it_clamps() {
    let mut editor = editor_of(&["abcdef"]);
    editor.set_cursor(Vector2(5, 0));
    editor.write_at(Vector2(2, 0), '\n');
    assert_eq!(rows_of(&editor), vec!["ab", "cdef"]);
    assert_eq!(editor.cursor_pos(), Vector2(5, 0));
    assert_eq!(editor.line_len(), 2);
    editor.write('x');
    assert_eq!(rows_of(&editor), vec!["abx", "cdef"]);
    assert_eq!(editor.cursor_pos(), Vector2(3, 0));
}

#[test]
fn delete_merges_rows() {
    let mut editor = editor_of(&["abc", "def"]);
    editor.set_cursor(Vector2(0, 1));
    let deleted = editor.delete();
    assert_eq!(deleted.map(|c| c.char), Some('\n'));
    assert_eq!(rows_of(&editor), vec!["abcdef"]);
    assert_eq!(editor.cursor_pos(), Vector2(3, 0));
}

#[test]
fn delete_takes_the_cell_before_the_cursor() {
    let mut editor = editor_of(&["abc"]);
    editor.set_cursor(Vector2(2, 0));
    assert_eq!(editor.delete(), Some(CharCel::from('b')));
    assert_eq!(editor.to_text(), "ac");
    assert_eq!(editor.cursor_pos(), Vector2(1, 0));
}

#[test]
fn delete_at_the_start_of_the_text_deletes_nothing() {
    let mut editor = editor_of(&["abc"]);
    assert_eq!(editor.delete(), None);
    assert_eq!(editor.to_text(), "abc");
    assert_eq!(editor.cursor_pos(), Vector2(0, 0));
    let mut empty = Editor::new();
    assert_eq!(empty.delete(), None);
    assert_eq!(empty.delete_at(Vector2(3, 3)), None);
    assert_eq!(empty.row_count(), 0);
}

#[test]
fn delete_at_clamps_its_position() {
    let mut editor = editor_of(&["abc", "de"]);
    assert_eq!(editor.delete_at(Vector2(99, 0)), Some(CharCel::from('c')));
    assert_eq!(rows_of(&editor), vec!["ab", "de"]);
    assert_eq!(editor.delete_at(Vector2(1, 1)), Some(CharCel::from('d')));
    assert_eq!(rows_of(&editor), vec!["ab", "e"]);
    assert_eq!(editor.delete_at(Vector2(-4, 9)), Some(CharCel::from('\n')));
    assert_eq!(rows_of(&editor), vec!["abe"]);
    assert_eq!(editor.delete_at(Vector2(0, 0)), None);
    assert_eq!(rows_of(&editor), vec!["abe"]);
}

#[test]
fn delete_at_leaves_the_cursor_alone() {
    let mut editor = editor_of(&["abc", "def"]);
    editor.set_cursor(Vector2(0, 1));
    assert_eq!(editor.delete_at(Vector2(0, 1)), Some(CharCel::from('\n')));
    assert_eq!(rows_of(&editor), vec!["abcdef"]);
    assert_eq!(editor.cursor_pos(), Vector2(0, 1));
    assert_eq!(editor.delete_at(Vector2(1, 0)), Some(CharCel::from('a')));
    assert_eq!(editor.cursor_pos(), Vector2(0, 1));
}

#[test]
fn delete_with_a_cursor_whose_row_is_gone_clamps_first() {
    let mut editor = editor_of(&["abc", "de"]);
    editor.set_cursor(Vector2(2, 1));
    editor.delete_at(Vector2(0, 1));
    assert_eq!(rows_of(&editor), vec!["abcde"]);
    assert_eq!(editor.cursor_pos(), Vector2(2, 1));
    assert_eq!(editor.line_len(), 5);
    assert_eq!(editor.delete(), Some(CharCel::from('b')));
    assert_eq!(rows_of(&editor), vec!["acde"]);
    assert_eq!(editor.cursor_pos(), Vector2(1, 0));
}

#[test]
fn cut_range_relocates_a_cursor_that_lost_its_place_from_where_it_clamps() {
    let mut editor = editor_of(&["abc", "defgh", "ij"]);
    editor.set_cursor(Vector2(2, 2));
    editor.delete_at(Vector2(0, 2));
    assert_eq!(rows_of(&editor), vec!["abc", "defghij"]);
    assert_eq!(editor.cursor_pos(), Vector2(2, 2));
    let cut = editor.cut_range(Vector2(1, 1), Vector2(3, 1));
    assert_eq!(text_of(&cut), "ef");
    assert_eq!(rows_of(&editor), vec!["abc", "dghij"]);
    assert_eq!(editor.cursor_pos(), Vector2(1, 1));
}

#[test]
fn move_cursor_starts_from_the_cursor_as_it_was_set() {
    let mut editor = editor_of(&["abc", "de"]);
    editor.set_cursor(Vector2(2, 1));
    editor.delete_at(Vector2(0, 1));
    assert_eq!(editor.move_cursor(Vector2(1, -1)), Vector2(3, 0));
}

#[test]
fn write_then_delete_restores_the_text() {
    let source = "abc\n\ndefgh";
    for r in -1..5 {
        for c in -1..8 {
            let mut editor = Editor::from(source.to_string());
            let at = editor.set_cursor(Vector2(c, r));
            editor.write('#');
            assert_eq!(editor.cursor_pos(), Vector2(at.0 + 1, at.1));
            assert_eq!(editor.delete(), Some(CharCel::from('#')));
            assert_eq!(editor.to_text(), source);
            assert_eq!(editor.cursor_pos(), at);
        }
    }
}

#[test]
fn split_then_merge_restores_the_rows() {
    let source = "abc\n\ndefgh";
    for r in -1..5 {
        for c in -1..8 {
            let mut editor = Editor::from(source.to_string());
            let at = editor.set_cursor(Vector2(c, r));
            editor.write('\n');
            assert_eq!(editor.row_count(), 4);
            assert_eq!(editor.cursor_pos(), Vector2(0, at.1 + 1));
            assert_eq!(editor.delete(), Some(CharCel::from('\n')));
            assert_eq!(editor.row_count(), 3);
            assert_eq!(editor.to_text(), source);
            assert_eq!(editor.cursor_pos(), at);
        }
    }
}

#[test]
fn copy_range_gives_the_linear_text() {
    let editor = editor_of(&["abc", "", "defgh"]);
    assert_eq!(text_of(&editor.copy_range(Vector2(1, 0), Vector2(3, 0))), "bc");
    assert_eq!(text_of(&editor.copy_range(Vector2(1, 0), Vector2(2, 2))), "bc\n\nde");
    assert_eq!(text_of(&editor.copy_range(Vector2(2, 2), Vector2(1, 0))), "bc\n\nde");
    assert_eq!(text_of(&editor.copy_range(Vector2(3, 0), Vector2(0, 1))), "\n");
    assert_eq!(text_of(&editor.copy_range(Vector2(2, 0), Vector2(2, 0))), "");
    assert_eq!(text_of(&editor.copy_range(Vector2(-9, -9), Vector2(99, 99))), "abc\n\ndefgh");
    assert_eq!(editor.to_text(), "abc\n\ndefgh");
    let empty = Editor::new();
    assert_eq!(empty.copy_range(Vector2(0, 0), Vector2(5, 5)), vec![]);
}

#[test]
fn copy_and_cut_agree_on_every_pair() {
    let source = "abc\n\ndefgh\nij";
    for r1 in -1..5 {
        for c1 in -1..7 {
            for r2 in -1..5 {
                for c2 in -1..7 {
                    let mut editor = Editor::from(source.to_string());
                    let copied = text_of(&editor.copy_range(Vector2(c1, r1), Vector2(c2, r2)));
                    let cut = text_of(&editor.cut_range(Vector2(c1, r1), Vector2(c2, r2)));
                    assert_eq!(copied, cut);
                    assert_eq!(editor.to_text().len() + cut.len(), source.len());
                    let start = {
                        let check = Editor::from(source.to_string());
                        let a = check.clamp_vector(Vector2(c1, r1));
                        let b = check.clamp_vector(Vector2(c2, r2));
                        if b < a { b } else { a }
                    };
                    let mut back = Editor::from(editor.to_text());
                    back.set_cursor(start);
                    for ch in cut.chars() {
                        back.write(ch);
                    }
                    assert_eq!(back.to_text(), source);
                }
            }
        }
    }
}

#[test]
fn cut_range_closes_the_gap() {
    let mut editor = editor_of(&["abcdef", "ghij", "klmno"]);
    let cut = editor.cut_range(Vector2(4, 0), Vector2(1, 2));
    assert_eq!(text_of(&cut), "ef\nghij\nk");
    assert_eq!(rows_of(&editor), vec!["abcdlmno"]);
}

#[test]
fn cut_range_moves_a_cursor_inside_the_range_to_its_start() {
    let mut editor = editor_of(&["abcdef", "ghij", "klmno"]);
    editor.set_cursor(Vector2(3, 0));
    editor.cut_range(Vector2(1, 0), Vector2(5, 0));
    assert_eq!(rows_of(&editor), vec!["af", "ghij", "klmno"]);
    assert_eq!(editor.cursor_pos(), Vector2(1, 0));
}

#[test]
fn cut_range_shifts_a_cursor_behind_the_range_on_its_row() {
    let mut editor = editor_of(&["abcdef", "ghij", "klmno"]);
    editor.set_cursor(Vector2(5, 0));
    editor.cut_range(Vector2(1, 0), Vector2(3, 0));
    assert_eq!(rows_of(&editor), vec!["adef", "ghij", "klmno"]);
    assert_eq!(editor.cursor_pos(), Vector2(3, 0));
}

#[test]
fn cut_range_lifts_a_cursor_on_a_later_row() {
    let mut editor = editor_of(&["abcdef", "ghij", "klmno"]);
    editor.set_cursor(Vector2(2, 2));
    editor.cut_range(Vector2(1, 0), Vector2(2, 1));
    assert_eq!(rows_of(&editor), vec!["aij", "klmno"]);
    assert_eq!(editor.cursor_pos(), Vector2(2, 1));
}

#[test]
fn cut_range_leaves_a_cursor_before_the_range() {
    let mut editor = editor_of(&["abcdef", "ghij", "klmno"]);
    editor.set_cursor(Vector2(1, 0));
    editor.cut_range(Vector2(1, 0), Vector2(2, 1));
    assert_eq!(rows_of(&editor), vec!["aij", "klmno"]);
    assert_eq!(editor.cursor_pos(), Vector2(1, 0));
    editor.set_cursor(Vector2(0, 0));
    editor.cut_range(Vector2(1, 0), Vector2(1, 1));
    assert_eq!(rows_of(&editor), vec!["almno"]);
    assert_eq!(editor.cursor_pos(), Vector2(0, 0));
}

#[test]
fn cut_range_shifts_a_cursor_behind_the_end_by_the_cells_cut_from_the_first_row() {
    let mut editor = editor_of(&["abcdef", "ghij", "klmno"]);
    editor.set_cursor(Vector2(3, 1));
    let cut = editor.cut_range(Vector2(4, 0), Vector2(1, 1));
    assert_eq!(text_of(&cut), "ef\ng");
    assert_eq!(rows_of(&editor), vec!["abcdhij", "klmno"]);
    assert_eq!(editor.cursor_pos(), Vector2(1, 1));
}

#[test]
fn selection_copy_and_cut() {
    let mut editor = editor_of(&["hello world"]);
    assert_eq!(editor.copy(), None);
    assert_eq!(editor.cut(), None);
    editor.set_cursor(Vector2(6, 0));
    editor.begin_select();
    assert!(editor.is_selecting());
    assert_eq!(editor.selection(), Some(Vector2(6, 0)));
    editor.set_cursor(Vector2(11, 0));
    assert_eq!(editor.copy().map(|c| text_of(&c)), Some("world".to_string()));
    assert!(editor.is_selecting());
    assert_eq!(editor.to_text(), "hello world");
    assert_eq!(editor.cut().map(|c| text_of(&c)), Some("world".to_string()));
    assert!(!editor.is_selecting());
    assert_eq!(editor.to_text(), "hello ");
    assert_eq!(editor.cursor_pos(), Vector2(6, 0));
}

#[test]
fn selection_anchor_is_clamped_when_read() {
    let mut editor = editor_of(&["abc", "de"]);
    editor.begin_select_at(Vector2(99, 99));
    assert_eq!(editor.selection(), Some(Vector2(99, 99)));
    editor.set_cursor(Vector2(2, 0));
    assert_eq!(editor.copy().map(|c| text_of(&c)), Some("c\nde".to_string()));
    editor.clear_selection();
    assert!(!editor.is_selecting());
    assert_eq!(editor.copy(), None);
}

#[test]
fn delete_with_a_selection_removes_the_selection_only() {
    let mut editor = editor_of(&["hello world"]);
    editor.set_cursor(Vector2(5, 0));
    editor.begin_select();
    editor.set_cursor(Vector2(11, 0));
    assert_eq!(editor.delete(), None);
    assert_eq!(editor.to_text(), "hello");
    assert!(!editor.is_selecting());
    assert_eq!(editor.cursor_pos(), Vector2(5, 0));
}

#[test]
fn get_cell_inside_and_outside() {
    let editor = editor_of(&["abc", "", "de"]);
    assert_eq!(editor.get_cell(Vector2(0, 0)), Some(CharCel::from('a')));
    assert_eq!(editor.get_cell(Vector2(2, 0)).map(|c| c.char), Some('c'));
    assert_eq!(editor.get_cell(Vector2(3, 0)), None);
    assert_eq!(editor.get_cell(Vector2(0, 1)), None);
    assert_eq!(editor.get_cell(Vector2(1, 2)).map(|c| c.char), Some('e'));
    assert_eq!(editor.get_cell(Vector2(0, 3)), None);
    assert_eq!(editor.get_cell(Vector2(-1, 0)), None);
    assert_eq!(editor.get_cell(Vector2(0, -1)), None);
}

#[test]
fn from_text_splits_rows() {
    assert_eq!(Editor::from(String::new()).row_count(), 0);
    assert_eq!(rows_of(&Editor::from("a".to_string())), vec!["a"]);
    assert_eq!(rows_of(&Editor::from("a\n".to_string())), vec!["a", ""]);
    assert_eq!(rows_of(&Editor::from("\n".to_string())), vec!["", ""]);
    assert_eq!(rows_of(&Editor::from("a\nb".to_string())), vec!["a", "b"]);
    assert_eq!(rows_of(&Editor::from("a\n\nb\n".to_string())), vec!["a", "", "b", ""]);
}

#[test]
fn from_text_takes_a_carriage_return_with_its_line_feed() {
    assert_eq!(rows_of(&Editor::from("a\r\nb".to_string())), vec!["a", "b"]);
    assert_eq!(rows_of(&Editor::from("a\r\n".to_string())), vec!["a", ""]);
    assert_eq!(rows_of(&Editor::from("a\r\r\nb".to_string())), vec!["a\r", "b"]);
    assert_eq!(rows_of(&Editor::from("a\rb\nc".to_string())), vec!["a\rb", "c"]);
    assert_eq!(rows_of(&Editor::from("a\nb\r".to_string())), vec!["a", "b\r"]);
    assert_eq!(Editor::from("a\r\nb\r\n".to_string()).to_text(), "a\nb\n");
}

#[test]
fn from_text_agrees_with_the_lines_of_the_standard_library() {
    let cases = ["", "a", "a\n", "\n\n", "a\r\nb\r\n", "x\ny\r\n\r\nz", "\r\n", "q\r"];
    for case in cases {
        let mut expected: Vec<String> = case.lines().map(|l| l.to_string()).collect();
        if case.ends_with('\n') {
            expected.push(String::new());
        }
        assert_eq!(rows_of(&Editor::from(case.to_string())), expected);
    }
}

#[test]
fn line_len_and_row_count() {
    let mut editor = editor_of(&["abc", "", "defgh"]);
    assert_eq!(editor.row_count(), 3);
    assert_eq!(editor.line_len(), 3);
    editor.set_cursor(Vector2(0, 1));
    assert_eq!(editor.line_len(), 0);
    editor.set_cursor(Vector2(0, 2));
    assert_eq!(editor.line_len(), 5);
    assert!(editor.has_room());
}

#[test]
fn cell_of_a_character() {
    let cell = CharCel::from('x');
    assert_eq!(cell.char, 'x');
    assert!(!cell.fg_on && !cell.bg_on);
    assert_eq!((cell.fg, cell.bg), (0, 0));
    assert_eq!(CharCel::default().char, '0');
    assert_eq!(CharCel::default(), CharCel::from('0'));
}
