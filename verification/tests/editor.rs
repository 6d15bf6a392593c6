use minitext::cursor::{Cursor, CursorMovement, CursorPos};
use minitext::document::Document;
use minitext::edit::EditLayouts;
use minitext::layout::{Glyph, LineLayout};
use minitext::line::Line;

const GLYPH_W: u32 = 8;

fn mono_row(n: usize) -> Vec<Glyph> {
    (0..n).map(|i| Glyph { x: i as u32 * GLYPH_W, width: GLYPH_W }).collect()
}

fn layout_for(len: usize, per_row: usize) -> LineLayout {
    let mut rows: Vec<Vec<Glyph>> = Vec::new();
    let mut rem = len;
    while rem > 0 {
        let k = rem.min(per_row);
        rows.push(mono_row(k));
        rem -= k;
    }
    LineLayout::from_rows(rows).unwrap()
}

fn line(text: &str, per_row: usize) -> Line {
    let chars: Vec<char> = text.chars().collect();
    let len = chars.len();
    Line::new(chars, layout_for(len, per_row)).unwrap()
}

fn doc(texts: &[&str]) -> Document {
    Document::from_lines(texts.iter().map(|t| line(t, 100)).collect())
}

fn texts(d: &Document) -> Vec<String> {
    (0..d.line_count()).map(|i| d.line_at(i).unwrap().text().iter().collect()).collect()
}

#[test]
fn insert_char_at_line_end() {
    let mut d = doc(&["ab"]);
    let mut cur = Cursor::new(CursorPos { col: 2, line: 0 });
    cur.insert_text(&mut d, 'c', EditLayouts::Single(layout_for(3, 100)));
    assert_eq!(texts(&d), vec!["abc".to_string()]);
    assert_eq!(cur.pos, CursorPos { col: 3, line: 0 });
}

#[test]
fn backspace_deletes_before_cursor() {
    let mut d = doc(&["abc"]);
    let mut cur = Cursor::new(CursorPos { col: 1, line: 0 });
    cur.insert_text(&mut d, '\u{8}', EditLayouts::Single(layout_for(2, 100)));
    assert_eq!(texts(&d), vec!["bc".to_string()]);
    assert_eq!(cur.pos, CursorPos { col: 0, line: 0 });
}

#[test]
fn backspace_at_line_start_merges() {
    let mut d = doc(&["ab", "cd"]);
    let mut cur = Cursor::new(CursorPos { col: 0, line: 1 });
    cur.insert_text(&mut d, '\u{8}', EditLayouts::Single(layout_for(4, 100)));
    assert_eq!(texts(&d), vec!["abcd".to_string()]);
    assert_eq!(cur.pos, CursorPos { col: 2, line: 0 });
}

#[test]
fn newline_splits_line() {
    let mut d = doc(&["abcd"]);
    let mut cur = Cursor::new(CursorPos { col: 2, line: 0 });
    cur.insert_text(
        &mut d,
        '\r',
        EditLayouts::Split(layout_for(2, 100), layout_for(2, 100)),
    );
    assert_eq!(texts(&d), vec!["ab".to_string(), "cd".to_string()]);
    assert_eq!(cur.pos, CursorPos { col: 0, line: 1 });
}

#[test]
fn empty_load_yields_one_empty_line() {
    let d = Document::from_lines(Vec::new());
    assert_eq!(d.line_count(), 1);
    assert_eq!(texts(&d), vec![String::new()]);
    // the fresh cursor position (0, 0) addresses the empty document
    let caret = d.locate(CursorPos { col: 0, line: 0 }, 16).unwrap();
    assert_eq!(caret.x, 0);
    assert_eq!(caret.y, 0);
}

#[test]
fn new_document_matches_empty_load() {
    let d = Document::new();
    assert_eq!(d.line_count(), 1);
    assert_eq!(d.line_at(0).unwrap().text_len(), 0);
    assert_eq!(d.line_at(0).unwrap().num_rows(), 1);
}

#[test]
fn tab_is_a_no_op() {
    let mut d = doc(&["ab"]);
    let mut cur = Cursor::new(CursorPos { col: 1, line: 0 });
    cur.insert_text(&mut d, '\t', EditLayouts::Unchanged);
    assert_eq!(texts(&d), vec!["ab".to_string()]);
    assert_eq!(cur.pos, CursorPos { col: 1, line: 0 });
}

#[test]
fn ignored_control_char_is_a_no_op() {
    let mut d = doc(&["ab"]);
    let mut cur = Cursor::new(CursorPos { col: 1, line: 0 });
    cur.insert_text(&mut d, '\u{1}', EditLayouts::Unchanged);
    assert_eq!(texts(&d), vec!["ab".to_string()]);
    assert_eq!(cur.pos, CursorPos { col: 1, line: 0 });
}

#[test]
fn backspace_at_document_start_is_a_no_op() {
    let mut d = doc(&["ab"]);
    let mut cur = Cursor::new(CursorPos { col: 0, line: 0 });
    cur.insert_text(&mut d, '\u{8}', EditLayouts::Unchanged);
    assert_eq!(texts(&d), vec!["ab".to_string()]);
    assert_eq!(cur.pos, CursorPos { col: 0, line: 0 });
}

#[test]
fn insert_then_backspace_restores_text_and_layout() {
    let mut d = doc(&["abcd"]);
    let breaks0 = d.line_at(0).unwrap().layout.breaks.clone();
    let rows0 = d.line_at(0).unwrap().layout.rows.clone();
    let restored_layout = LineLayout::from_rows(rows0.clone()).unwrap();

    let mut cur = Cursor::new(CursorPos { col: 2, line: 0 });
    cur.insert_text(&mut d, 'x', EditLayouts::Single(layout_for(5, 100)));
    assert_eq!(texts(&d), vec!["abxcd".to_string()]);

    cur.insert_text(&mut d, '\u{8}', EditLayouts::Single(restored_layout));
    assert_eq!(texts(&d), vec!["abcd".to_string()]);
    assert_eq!(cur.pos, CursorPos { col: 2, line: 0 });
    assert_eq!(d.line_at(0).unwrap().layout.breaks, breaks0);
    assert_eq!(d.line_at(0).unwrap().layout.rows, rows0);
}

#[test]
fn newline_then_backspace_restores_single_line() {
    let mut d = doc(&["abcd"]);
    let breaks0 = d.line_at(0).unwrap().layout.breaks.clone();
    let rows0 = d.line_at(0).unwrap().layout.rows.clone();
    let restored_layout = LineLayout::from_rows(rows0.clone()).unwrap();

    let mut cur = Cursor::new(CursorPos { col: 2, line: 0 });
    cur.insert_text(
        &mut d,
        '\r',
        EditLayouts::Split(layout_for(2, 100), layout_for(2, 100)),
    );
    assert_eq!(texts(&d), vec!["ab".to_string(), "cd".to_string()]);
    assert_eq!(cur.pos, CursorPos { col: 0, line: 1 });

    cur.insert_text(&mut d, '\u{8}', EditLayouts::Single(restored_layout));
    assert_eq!(texts(&d), vec!["abcd".to_string()]);
    assert_eq!(cur.pos, CursorPos { col: 2, line: 0 });
    assert_eq!(d.line_at(0).unwrap().layout.breaks, breaks0);
    assert_eq!(d.line_at(0).unwrap().layout.rows, rows0);
}

#[test]
fn move_left_at_origin_is_a_no_op() {
    let d = doc(&["ab", "cd"]);
    let mut cur = Cursor::new(CursorPos { col: 0, line: 0 });
    cur.move_cursor(&d, CursorMovement::Left);
    assert_eq!(cur.pos, CursorPos { col: 0, line: 0 });
}

#[test]
fn move_right_at_document_end_is_a_no_op() {
    let d = doc(&["ab", "cd"]);
    let mut cur = Cursor::new(CursorPos { col: 2, line: 1 });
    cur.move_cursor(&d, CursorMovement::Right);
    assert_eq!(cur.pos, CursorPos { col: 2, line: 1 });
}

#[test]
fn move_left_wraps_to_previous_line_end() {
    let d = doc(&["abc", "de"]);
    let mut cur = Cursor::new(CursorPos { col: 0, line: 1 });
    cur.move_cursor(&d, CursorMovement::Left);
    assert_eq!(cur.pos, CursorPos { col: 3, line: 0 });
}

#[test]
fn move_right_wraps_to_next_line_start() {
    let d = doc(&["ab", "cd"]);
    let mut cur = Cursor::new(CursorPos { col: 2, line: 0 });
    cur.move_cursor(&d, CursorMovement::Right);
    assert_eq!(cur.pos, CursorPos { col: 0, line: 1 });
}

#[test]
fn move_down_clamps_column() {
    let d = doc(&["abcd", "x"]);
    let mut cur = Cursor::new(CursorPos { col: 4, line: 0 });
    cur.move_cursor(&d, CursorMovement::Down);
    assert_eq!(cur.pos, CursorPos { col: 1, line: 1 });
}

#[test]
fn move_up_clamps_column() {
    let d = doc(&["x", "abcd"]);
    let mut cur = Cursor::new(CursorPos { col: 3, line: 1 });
    cur.move_cursor(&d, CursorMovement::Up);
    assert_eq!(cur.pos, CursorPos { col: 1, line: 0 });
}

#[test]
fn move_down_on_last_line_is_a_no_op() {
    let d = doc(&["ab"]);
    let mut cur = Cursor::new(CursorPos { col: 1, line: 0 });
    cur.move_cursor(&d, CursorMovement::Down);
    assert_eq!(cur.pos, CursorPos { col: 1, line: 0 });
}

#[test]
fn save_text_joins_lines_without_trailing_newline() {
    let d = doc(&["ab", "", "cd"]);
    let saved: String = d.save_text().iter().collect();
    assert_eq!(saved, "ab\n\ncd");
}

#[test]
fn save_text_of_single_line() {
    let d = doc(&["hello"]);
    let saved: String = d.save_text().iter().collect();
    assert_eq!(saved, "hello");
}

#[test]
fn structural_insert_and_remove_line() {
    let mut d = doc(&["a", "c"]);
    d.insert_line(1, line("b", 100));
    assert_eq!(texts(&d), vec!["a".to_string(), "b".to_string(), "c".to_string()]);
    let removed = d.remove_line(1);
    assert_eq!(removed.text().iter().collect::<String>(), "b");
    assert_eq!(texts(&d), vec!["a".to_string(), "c".to_string()]);
}

#[test]
fn relayout_texts_reports_the_reshaped_text() {
    let d = doc(&["ab", "cd"]);
    let cur = Cursor::new(CursorPos { col: 1, line: 0 });
    match cur.relayout_texts(&d, 'x') {
        minitext::edit::EditTexts::One(t) => {
            assert_eq!(t.iter().collect::<String>(), "axb");
        },
        _ => panic!("an insertion reshapes exactly one line"),
    }
    match cur.relayout_texts(&d, '\r') {
        minitext::edit::EditTexts::Two(a, b) => {
            assert_eq!(a.iter().collect::<String>(), "a");
            assert_eq!(b.iter().collect::<String>(), "b");
        },
        _ => panic!("a split reshapes two halves"),
    }
    let merge_cur = Cursor::new(CursorPos { col: 0, line: 1 });
    match merge_cur.relayout_texts(&d, '\u{8}') {
        minitext::edit::EditTexts::One(t) => {
            assert_eq!(t.iter().collect::<String>(), "abcd");
        },
        _ => panic!("a merge reshapes the joined line"),
    }
}
