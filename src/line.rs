use vstd::prelude::*;
use crate::geometry::{Direction, Rectangle};
use ratatui::buffer::Buffer;

verus! {

#[verifier::external_type_specification]
#[verifier::external_body]
pub struct ExBuffer(Buffer);

/// The symbol held by each cell of a buffer, keyed by its `(x, y)` position.
pub uninterp spec fn buffer_symbols(b: Buffer) -> Map<(int, int), Seq<char>>;

/// The area of a buffer as `(x, y, width, height)`.
pub uninterp spec fn buffer_area(b: Buffer) -> (int, int, int, int);

/// The number of cells a buffer holds (the length of its `content`).
pub uninterp spec fn buffer_len(b: Buffer) -> int;

/// The buffer's edges fit the grid and it holds one cell per position of its area.
pub open spec fn buffer_wf(b: Buffer) -> bool {
    let (x, y, w, h) = buffer_area(b);
    x + w <= u16::MAX && y + h <= u16::MAX && buffer_len(b) == w * h
}

/// The buffer is well formed and has a cell at `(px, py)`.
pub open spec fn buffer_has_cell(b: Buffer, px: int, py: int) -> bool {
    let (x, y, w, h) = buffer_area(b);
    buffer_wf(b) && x <= px < x + w && y <= py < y + h
}

/// Relies on ratatui's `IndexMut<(u16, u16)>` for `Buffer` (indexes `content`
/// at `(y - area.y) * area.width + (x - area.x)` for a position inside `area`,
/// leaves `area` and the length of `content` as they are) and `Cell::set_symbol`
/// (replaces the cell's symbol by `symbol`).
#[verifier::external_body]
fn put_symbol(buf: &mut Buffer, x: u16, y: u16, symbol: &str)
    requires
        buffer_has_cell(*old(buf), x as int, y as int),
    ensures
        buffer_area(*final(buf)) == buffer_area(*old(buf)),
        buffer_len(*final(buf)) == buffer_len(*old(buf)),
        buffer_symbols(*final(buf)) == buffer_symbols(*old(buf)).insert((x as int, y as int), symbol@),
{
    buf[(x, y)].set_symbol(symbol);
}

/// One cell written by a line: its position and its glyph.
#[derive(Clone, Copy, Debug, PartialEq, Eq)]
pub struct CellWrite {
    pub x: u16,
    pub y: u16,
    pub symbol: &'static str,
}

/// A straight line drawn across a rectangle with four glyphs: the first cell,
/// the cells between, the last cell, and the glyph of a line of one cell.
#[derive(Clone, Copy, Debug)]
pub struct LineSpacer {
    pub direction: Direction,
    pub begin: &'static str,
    pub inner: &'static str,
    pub end: &'static str,
    pub merged: &'static str,
}

/// The glyph that `line` puts at index `k` of a line of `len` cells (`len >= 2`).
pub open spec fn glyph_at(line: LineSpacer, k: int, len: int) -> Seq<char> {
    if k == 0 {
        line.begin@
    } else if k == len - 1 {
        line.end@
    } else {
        line.inner@
    }
}

/// The cells that `line` writes into `area`, in order along its axis.
pub open spec fn line_cells(line: LineSpacer, area: Rectangle) -> Seq<(int, int, Seq<char>)> {
    if area.is_empty() {
        Seq::empty()
    } else if area.width <= 1 && area.height <= 1 {
        seq![(area.x as int, area.y as int, line.merged@)]
    } else {
        let len = area.extent(line.direction);
        Seq::new(
            len as nat,
            |k: int|
                match line.direction {
                    Direction::Horizontal => (area.x + k, area.y as int, glyph_at(line, k, len)),
                    Direction::Vertical => (area.x as int, area.y + k, glyph_at(line, k, len)),
                },
        )
    }
}

/// The line fits `area`: across its axis the area is one cell wide, unless
/// the area holds at most one cell.
pub open spec fn fits(line: LineSpacer, area: Rectangle) -> bool {
    area.is_empty() || (area.width <= 1 && area.height <= 1) || area.cross_extent(line.direction)
        == 1
}

/// The symbols of `m` after writing `cells` in order.
pub open spec fn paint(m: Map<(int, int), Seq<char>>, cells: Seq<(int, int, Seq<char>)>) -> Map<
    (int, int),
    Seq<char>,
>
    decreases cells.len(),
{
    if cells.len() == 0 {
        m
    } else {
        let c = cells.last();
        paint(m, cells.drop_last()).insert((c.0, c.1), c.2)
    }
}

/// A line over an area without cells writes nothing and leaves every symbol as it was.
pub proof fn lemma_empty_area_writes_nothing(
    line: LineSpacer,
    area: Rectangle,
    m: Map<(int, int), Seq<char>>,
)
    requires
        area.is_empty(),
    ensures
        line_cells(line, area).len() == 0,
        paint(m, line_cells(line, area)) == m,
{
}

/// A line over a single cell writes exactly that cell, with the merged glyph.
pub proof fn lemma_single_cell_writes_merged(
    line: LineSpacer,
    area: Rectangle,
    m: Map<(int, int), Seq<char>>,
)
    requires
        !area.is_empty(),
        area.width <= 1,
        area.height <= 1,
    ensures
        line_cells(line, area) == seq![(area.x as int, area.y as int, line.merged@)],
        paint(m, line_cells(line, area)) == m.insert((area.x as int, area.y as int), line.merged@),
{
    let cells = line_cells(line, area);
    assert(cells.drop_last() =~= Seq::<(int, int, Seq<char>)>::empty());
    assert(paint(m, cells.drop_last()) == m);
}

/// A line at least two cells long writes one cell per step along its axis:
/// the begin glyph at the first, the end glyph at the last, and the inner glyph
/// at each of the `extent - 2` cells between.
pub proof fn lemma_long_line_caps_and_inner(line: LineSpacer, area: Rectangle)
    requires
        !area.is_empty(),
        fits(line, area),
        area.extent(line.direction) >= 2,
    ensures
        ({
            let cells = line_cells(line, area);
            let len = area.extent(line.direction);
            &&& cells.len() == len
            &&& cells[0].2 == line.begin@
            &&& cells[len - 1].2 == line.end@
            &&& forall|k: int| 0 < k < len - 1 ==> #[trigger] cells[k].2 == line.inner@
            &&& cells.subrange(1, len - 1).len() == len - 2
            &&& forall|k: int|
                0 <= k < len ==> #[trigger] cells[k] == match line.direction {
                    Direction::Horizontal => (area.x + k, area.y as int, cells[k].2),
                    Direction::Vertical => (area.x as int, area.y + k, cells[k].2),
                }
        }),
{
}

impl CellWrite {
    pub open spec fn view(self) -> (int, int, Seq<char>) {
        (self.x as int, self.y as int, self.symbol@)
    }
}

impl LineSpacer {
    pub fn new(
        direction: Direction,
        begin: &'static str,
        inner: &'static str,
        end: &'static str,
        merged: &'static str,
    ) -> (r: LineSpacer)
        ensures
            r == (LineSpacer { direction, begin, inner, end, merged }),
    {
        LineSpacer { direction, begin, inner, end, merged }
    }

    /// The cells this line writes into `area`, in order along its axis.
    pub fn cells(&self, area: Rectangle) -> (r: Vec<CellWrite>)
        requires
            area.wf(),
            fits(*self, area),
        ensures
            r@.len() == line_cells(*self, area).len(),
            forall|k: int| 0 <= k < r@.len() ==> #[trigger] r@[k].view() == line_cells(*self, area)[k],
    {
        let mut out: Vec<CellWrite> = Vec::new();
        if area.width == 0 || area.height == 0 {
            return out;
        }
        if area.width <= 1 && area.height <= 1 {
            out.push(CellWrite { x: area.x, y: area.y, symbol: self.merged });
            return out;
        }
        let len: u16 = area.extent_along(self.direction);
        let ghost cells = line_cells(*self, area);
        let mut k: u16 = 0;
        while k < len
            invariant
                len == area.extent(self.direction),
                len >= 2,
                area.wf(),
                cells == line_cells(*self, area),
                cells.len() == len,
                k <= len,
                out@.len() == k,
                forall|j: int| 0 <= j < k ==> #[trigger] out@[j].view() == cells[j],
            decreases len - k,
        {
            let symbol: &'static str = if k == 0 {
                self.begin
            } else if k == len - 1 {
                self.end
            } else {
                self.inner
            };
            let c = match self.direction {
                Direction::Horizontal => CellWrite { x: area.x + k, y: area.y, symbol },
                Direction::Vertical => CellWrite { x: area.x, y: area.y + k, symbol },
            };
            out.push(c);
            k = k + 1;
        }
        out
    }

    /// Draws the line into `buf` over `area`.
    pub fn render(self, area: Rectangle, buf: &mut Buffer)
        requires
            area.wf(),
            fits(self, area),
            !area.is_empty() ==> forall|px: int, py: int|
                area.contains(px, py) ==> buffer_has_cell(*old(buf), px, py),
        ensures
            buffer_area(*final(buf)) == buffer_area(*old(buf)),
            buffer_len(*final(buf)) == buffer_len(*old(buf)),
            buffer_symbols(*final(buf)) == paint(buffer_symbols(*old(buf)), line_cells(self, area)),
    {
        let cells = self.cells(area);
        let ghost spec_cells = line_cells(self, area);
        let mut i: usize = 0;
        while i < cells.len()
            invariant
                cells@.len() == spec_cells.len(),
                spec_cells == line_cells(self, area),
                forall|k: int| 0 <= k < cells@.len() ==> #[trigger] cells@[k].view() == spec_cells[k],
                forall|k: int| 0 <= k < spec_cells.len() ==> area.contains(#[trigger] spec_cells[k].0, spec_cells[k].1),
                !area.is_empty() ==> forall|px: int, py: int|
                    area.contains(px, py) ==> buffer_has_cell(*buf, px, py),
                buffer_area(*buf) == buffer_area(*old(buf)),
                buffer_len(*buf) == buffer_len(*old(buf)),
                i <= cells@.len(),
                buffer_symbols(*buf) == paint(buffer_symbols(*old(buf)), spec_cells.take(i as int)),
            decreases cells@.len() - i,
        {
            let c = cells[i];
            assert(cells@[i as int].view() == spec_cells[i as int]);
            assert(!area.is_empty());
            assert(area.contains(spec_cells[i as int].0, spec_cells[i as int].1));
            put_symbol(buf, c.x, c.y, c.symbol);
            assert(spec_cells.take(i as int + 1).drop_last() == spec_cells.take(i as int));
            i = i + 1;
        }
        assert(spec_cells.take(cells@.len() as int) == spec_cells);
    }
}

} // verus!
