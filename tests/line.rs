use ratatui::buffer::Buffer;
use ratatui::layout::Rect;
use rrr_tui::geometry::{Direction, Rectangle};
use rrr_tui::line::{CellWrite, LineSpacer};

fn plus_line(direction: Direction) -> LineSpacer {
    LineSpacer::new(direction, "+", "-", "+", "o")
}

fn cell(x: u16, y: u16, symbol: &'static str) -> CellWrite {
    CellWrite { x, y, symbol }
}

fn row(buf: &Buffer, y: u16, width: u16) -> String {
    (0..width).map(|x| buf[(x, y)].symbol().to_string()).collect()
}

#[test]
fn horizontal_line_of_five_cells() {
    let line = plus_line(Direction::Horizontal);
    let cells = line.cells(Rectangle::new(0, 0, 5, 1));
    assert_eq!(
        cells,
        vec![cell(0, 0, "+"), cell(1, 0, "-"), cell(2, 0, "-"), cell(3, 0, "-"), cell(4, 0, "+")]
    );
    let mut buf = Buffer::empty(Rect::new(0, 0, 5, 1));
    line.render(Rectangle::new(0, 0, 5, 1), &mut buf);
    assert_eq!(row(&buf, 0, 5), "+---+");
}

#[test]
fn single_cell_writes_merged_glyph() {
    let line = plus_line(Direction::Horizontal);
    assert_eq!(line.cells(Rectangle::new(0, 0, 1, 1)), vec![cell(0, 0, "o")]);
    let mut buf = Buffer::empty(Rect::new(0, 0, 3, 1));
    line.render(Rectangle::new(0, 0, 1, 1), &mut buf);
    assert_eq!(row(&buf, 0, 3), "o  ");
}

#[test]
fn single_cell_vertical_writes_merged_glyph() {
    let line = plus_line(Direction::Vertical);
    assert_eq!(line.cells(Rectangle::new(2, 3, 1, 1)), vec![cell(2, 3, "o")]);
}

#[test]
fn empty_areas_write_nothing() {
    let line = plus_line(Direction::Horizontal);
    assert!(line.cells(Rectangle::new(0, 0, 0, 1)).is_empty());
    assert!(line.cells(Rectangle::new(0, 0, 5, 0)).is_empty());
    assert!(line.cells(Rectangle::new(0, 0, 0, 0)).is_empty());
    let mut buf = Buffer::empty(Rect::new(0, 0, 4, 1));
    let before = buf.clone();
    line.render(Rectangle::new(1, 0, 0, 1), &mut buf);
    line.render(Rectangle::new(1, 0, 3, 0), &mut buf);
    assert_eq!(buf, before);
}

#[test]
fn vertical_line_caps_and_inner() {
    let line = plus_line(Direction::Vertical);
    let cells = line.cells(Rectangle::new(3, 1, 1, 4));
    assert_eq!(cells, vec![cell(3, 1, "+"), cell(3, 2, "-"), cell(3, 3, "-"), cell(3, 4, "+")]);
    let inner = cells.iter().filter(|c| c.symbol == "-").count();
    assert_eq!(inner, 4 - 2);
    let mut buf = Buffer::empty(Rect::new(0, 0, 5, 6));
    line.render(Rectangle::new(3, 1, 1, 4), &mut buf);
    let column: String = (0..6).map(|y| buf[(3, y)].symbol().to_string()).collect();
    assert_eq!(column, " +--+ ");
}

#[test]
fn two_cell_line_has_only_caps() {
    let line = LineSpacer::new(Direction::Horizontal, "<", "=", ">", "*");
    assert_eq!(line.cells(Rectangle::new(7, 2, 2, 1)), vec![cell(7, 2, "<"), cell(8, 2, ">")]);
}

#[test]
fn render_keeps_other_cells() {
    let line = LineSpacer::new(Direction::Horizontal, "<", "=", ">", "*");
    let mut buf = Buffer::empty(Rect::new(0, 0, 6, 2));
    buf[(0, 0)].set_symbol("a");
    buf[(5, 1)].set_symbol("z");
    line.render(Rectangle::new(1, 1, 4, 1), &mut buf);
    assert_eq!(row(&buf, 0, 6), "a     ");
    assert_eq!(row(&buf, 1, 6), " <==>z");
}
