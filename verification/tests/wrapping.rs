use minitext::addressing::FALLBACK_CARET_WIDTH;
use minitext::cursor::{Cursor, CursorPos};
use minitext::document::Document;
use minitext::edit::EditCommand;
use minitext::error::EditorError;
use minitext::layout::{Glyph, LineLayout};
use minitext::line::Line;
use minitext::rect::{top_margin_layout, PxRect};
use minitext::render::row_pixel_y;

const GLYPH_W: u32 = 8;

fn mono_row(n: usize) -> Vec<Glyph> {
    (0..n).map(|i| Glyph { x: i as u32 * GLYPH_W, width: GLYPH_W }).collect()
}

fn wrapped_layout(len: usize, per_row: usize) -> LineLayout {
    let mut rows: Vec<Vec<Glyph>> = Vec::new();
    let mut rem = len;
    while rem > 0 {
        let k = rem.min(per_row);
        rows.push(mono_row(k));
        rem -= k;
    }
    LineLayout::from_rows(rows).unwrap()
}

fn wrapped_line(text: &str, per_row: usize) -> Line {
    let chars: Vec<char> = text.chars().collect();
    let len = chars.len();
    Line::new(chars, wrapped_layout(len, per_row)).unwrap()
}

#[test]
fn breaks_start_at_zero_end_at_length_strictly_increasing() {
    let l = wrapped_line("abcde", 2);
    let breaks = &l.layout.breaks;
    assert_eq!(*breaks, vec![0, 2, 4, 5]);
    assert_eq!(breaks[0], 0);
    assert_eq!(*breaks.last().unwrap(), 5);
    for i in 1..breaks.len() {
        assert!(breaks[i - 1] < breaks[i]);
    }
}

#[test]
fn glyph_row_lengths_sum_to_text_length() {
    let l = wrapped_line("abcdefg", 3);
    let total: usize = l.layout.rows.iter().map(|r| r.len()).sum();
    assert_eq!(total, 7);
}

#[test]
fn empty_text_has_one_empty_row_and_breaks_zero_zero() {
    let l = Line::new(Vec::new(), LineLayout::empty()).unwrap();
    assert_eq!(l.layout.breaks, vec![0, 0]);
    assert_eq!(l.layout.rows.len(), 1);
    assert!(l.layout.rows[0].is_empty());
}

#[test]
fn from_rows_of_no_rows_stands_for_empty_text() {
    let lay = LineLayout::from_rows(Vec::new()).unwrap();
    assert_eq!(lay.breaks, vec![0, 0]);
    assert_eq!(lay.rows.len(), 1);
}

#[test]
fn from_rows_rejects_an_empty_row() {
    let rows = vec![mono_row(2), Vec::new()];
    assert!(LineLayout::from_rows(rows).is_none());
}

#[test]
fn line_new_rejects_a_layout_of_the_wrong_length() {
    let chars: Vec<char> = "abc".chars().collect();
    assert!(Line::new(chars, wrapped_layout(2, 100)).is_none());
}

#[test]
fn calculate_replaces_layout_only_when_it_fits() {
    let mut l = wrapped_line("abcd", 100);
    assert_eq!(l.layout.breaks, vec![0, 4]);
    assert!(l.calculate(wrapped_layout(4, 2)));
    assert_eq!(l.layout.breaks, vec![0, 2, 4]);
    assert!(!l.calculate(wrapped_layout(3, 2)));
    assert_eq!(l.layout.breaks, vec![0, 2, 4]);
}

#[test]
fn locate_addresses_each_glyph_of_each_row() {
    // "abc" wrapped two per row: rows "ab" / "c", 16 px per row
    let l = wrapped_line("abc", 2);
    let p0 = l.locate(0, 16).unwrap();
    assert_eq!((p0.x, p0.y, p0.width), (0, 0, GLYPH_W));
    let p1 = l.locate(1, 16).unwrap();
    assert_eq!((p1.x, p1.y, p1.width), (8, 0, GLYPH_W));
    let p2 = l.locate(2, 16).unwrap();
    assert_eq!((p2.x, p2.y, p2.width), (0, 16, GLYPH_W));
}

#[test]
fn locate_past_last_glyph_uses_its_right_edge() {
    let l = wrapped_line("abc", 2);
    let p = l.locate(3, 16).unwrap();
    // the last visual row holds one glyph at x = 0 of width 8
    assert_eq!(p.x, 8);
    assert_eq!(p.y, 16);
    assert_eq!(p.width, FALLBACK_CARET_WIDTH);
}

#[test]
fn locate_beyond_line_length_is_invalid() {
    let l = wrapped_line("abc", 2);
    assert_eq!(l.locate(4, 16).unwrap_err(), EditorError::InvalidCursorPosition);
}

#[test]
fn document_locate_accumulates_preceding_rows() {
    // line 0 wraps into two rows; line 1 follows at row ordinal 2
    let d = Document::from_lines(vec![wrapped_line("abcd", 2), wrapped_line("xy", 100)]);
    let p = d.locate(CursorPos { col: 1, line: 1 }, 16).unwrap();
    assert_eq!((p.x, p.y, p.width), (8, 32, GLYPH_W));
}

#[test]
fn document_locate_rejects_a_line_beyond_the_document() {
    let d = Document::from_lines(vec![wrapped_line("ab", 100)]);
    let r = d.locate(CursorPos { col: 0, line: 1 }, 16);
    assert_eq!(r.unwrap_err(), EditorError::OutOfRange);
}

#[test]
fn line_at_reports_out_of_range() {
    let d = Document::from_lines(vec![wrapped_line("ab", 100)]);
    match d.line_at(1) {
        Err(e) => assert_eq!(e, EditorError::OutOfRange),
        Ok(_) => panic!("a line index beyond the document must be out of range"),
    }
}

#[test]
fn caret_rect_applies_scroll_and_caret_height() {
    let d = Document::from_lines(vec![wrapped_line("abcd", 2), wrapped_line("xy", 100)]);
    let r = d.caret_rect(CursorPos { col: 0, line: 1 }, 16, 10).unwrap();
    assert_eq!((r.x, r.y), (0, 22));
    assert_eq!((r.w, r.h), (GLYPH_W, 16));
}

#[test]
fn rows_before_counts_wrapped_rows() {
    let d = Document::from_lines(vec![wrapped_line("abcde", 2), wrapped_line("x", 100)]);
    assert_eq!(d.rows_before(0), 0);
    assert_eq!(d.rows_before(1), 3);
    assert_eq!(d.rows_before(2), 4);
}

#[test]
fn get_cursor_inline_returns_the_cursor_row() {
    let l = wrapped_line("abcd", 2);
    let cur = Cursor::new(CursorPos { col: 2, line: 0 });
    let row: String = cur.get_cursor_inline(&l).unwrap().iter().collect();
    assert_eq!(row, "cd");
    let first = Cursor::new(CursorPos { col: 0, line: 0 });
    let row0: String = first.get_cursor_inline(&l).unwrap().iter().collect();
    assert_eq!(row0, "ab");
}

#[test]
fn get_cursor_inline_past_the_end_is_no_row() {
    let l = wrapped_line("abcd", 2);
    let cur = Cursor::new(CursorPos { col: 4, line: 0 });
    assert!(cur.get_cursor_inline(&l).is_none());
}

#[test]
fn visual_spans_walk_lines_and_rows_in_order() {
    let d = Document::from_lines(vec![wrapped_line("abc", 2), wrapped_line("d", 100)]);
    let spans = d.visual_spans();
    assert_eq!(spans.len(), 3);
    assert_eq!((spans[0].line, spans[0].start, spans[0].end, spans[0].y_rows), (0, 0, 2, 0));
    assert_eq!((spans[1].line, spans[1].start, spans[1].end, spans[1].y_rows), (0, 2, 3, 1));
    assert_eq!((spans[2].line, spans[2].start, spans[2].end, spans[2].y_rows), (1, 0, 1, 2));
}

#[test]
fn row_pixel_y_offsets_by_scroll_and_margin() {
    assert_eq!(row_pixel_y(2, 16, 5, 20), 47);
    assert_eq!(row_pixel_y(0, 16, 0, 20), 20);
}

#[test]
fn command_classification() {
    assert_eq!(EditCommand::of_char('\r'), Some(EditCommand::Newline));
    assert_eq!(EditCommand::of_char('\u{8}'), Some(EditCommand::Backspace));
    assert_eq!(EditCommand::of_char('\t'), Some(EditCommand::Tab));
    assert_eq!(EditCommand::of_char('x'), Some(EditCommand::InsertChar('x')));
    assert_eq!(EditCommand::of_char('é'), Some(EditCommand::InsertChar('é')));
    assert_eq!(EditCommand::of_char('\u{1}'), None);
    assert_eq!(EditCommand::of_char('\u{7f}'), None);
    assert_eq!(EditCommand::of_char('\u{9f}'), None);
}

#[test]
fn does_click_is_inclusive_of_edges() {
    let r = PxRect::new(10, 10, 5, 5, 0, 0);
    assert!(r.does_click(10, 10));
    assert!(r.does_click(15, 15));
    assert!(r.does_click(12, 14));
    assert!(!r.does_click(16, 12));
    assert!(!r.does_click(12, 16));
    assert!(!r.does_click(9, 12));
}

#[test]
fn top_margin_chrome_positions() {
    let m = top_margin_layout(100, 50);
    assert_eq!((m.bar.x, m.bar.y, m.bar.w, m.bar.h), (0, 0, 100, 20));
    assert_eq!((m.icon.x, m.icon.y, m.icon.w, m.icon.h), (2, 2, 16, 16));
    assert_eq!((m.exit_button.x, m.exit_button.y), (80, 2));
    assert_eq!((m.exit_button.w, m.exit_button.h), (16, 16));
    // the exit button is hit at its corner, as the close click is
    assert!(m.exit_button.does_click(80, 2));
    assert!(!m.exit_button.does_click(79, 2));
}

#[test]
fn px_rect_setters_keep_the_untouched_fields() {
    let mut r = PxRect::new(1, 2, 3, 4, 5, 6);
    r.set_pos(-7, 8);
    assert_eq!((r.x, r.y, r.w, r.h, r.offset_x, r.offset_y), (-7, 8, 3, 4, 5, 6));
    r.set_offset(0, 9);
    assert_eq!((r.x, r.y, r.w, r.h, r.offset_x, r.offset_y), (-7, 8, 3, 4, 0, 9));
    r.set_rect(1, 1, 2, 2);
    assert_eq!((r.x, r.y, r.w, r.h, r.offset_x, r.offset_y), (1, 1, 2, 2, 0, 9));
    assert_eq!(r.get_pos(), (1, 1));
}
