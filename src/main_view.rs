use vstd::prelude::*;
use crate::geometry::{lemma_inside_contains, Direction, Rectangle};
use crate::ids::{ComponentId, IdAllocator};
use crate::layout::{
    Constraint, fixed_prefix, gap_rect, lemma_split_inside, lemma_split_sizes, lemma_split_with_fill,
    lemma_split_without_fill, seg_rect, split, split_extent,
};
use crate::line::{buffer_area, buffer_has_cell, buffer_len, buffer_symbols, line_cells, paint, LineSpacer};
use ratatui::buffer::Buffer;
use accesskit::Node;
use crate::access::{group_node, node_children, node_is_group, set_node_children};

verus! {

/// The vertical bands of the main view: header, upper row, content, spacer,
/// lower rows, footer.
pub open spec fn band_constraints() -> Seq<Constraint> {
    seq![
        Constraint::Length(1),
        Constraint::Length(7),
        Constraint::Fill(1),
        Constraint::Length(1),
        Constraint::Length(2),
        Constraint::Length(1),
    ]
}

/// The columns of the upper row: tree, metadata, overview.
pub open spec fn column_constraints() -> Seq<Constraint> {
    seq![Constraint::Length(8), Constraint::Fill(1), Constraint::Length(16)]
}

/// The two lines of the lower rows.
pub open spec fn line_constraints() -> Seq<Constraint> {
    seq![Constraint::Length(1), Constraint::Length(1)]
}

/// A label followed by its field, within one lower line.
pub open spec fn label_constraints() -> Seq<Constraint> {
    seq![Constraint::Length(11), Constraint::Fill(1)]
}

pub open spec fn sat_sub(a: int, b: int) -> int {
    if a >= b {
        a - b
    } else {
        0
    }
}

/// Where each part of the main view goes.
#[derive(Clone, Copy, Debug, PartialEq, Eq, Structural)]
pub struct MainViewAreas {
    pub header: Rectangle,
    pub top: Rectangle,
    pub content: Rectangle,
    pub bottom_spacer: Rectangle,
    pub bottom: Rectangle,
    pub footer: Rectangle,
    pub tree: Rectangle,
    pub metadata: Rectangle,
    pub overview: Rectangle,
    pub top_spacer_0: Rectangle,
    pub top_spacer_1: Rectangle,
    pub content_title: Rectangle,
    pub bottom_title: Rectangle,
    pub record_name_label: Rectangle,
    pub record_name_field: Rectangle,
    pub encoding_label: Rectangle,
    pub encoding_field: Rectangle,
}

/// A title line at row `y`, from the metadata column's left edge to the
/// upper row's right edge, kept inside `area`.
pub open spec fn title_row(area: Rectangle, top: Rectangle, metadata: Rectangle, y: int) -> Rectangle {
    Rectangle {
        x: metadata.x,
        y: y as u16,
        width: sat_sub(top.x + top.width, metadata.x as int) as u16,
        height: 1,
    }.clamped(area)
}

fn title_row_exec(area: Rectangle, top: Rectangle, metadata: Rectangle, y: u16) -> (r: Rectangle)
    requires
        area.wf(),
        top.wf(),
    ensures
        r == title_row(area, top, metadata, y as int),
        r.inside(area),
{
    let right: u16 = top.x + top.width;
    Rectangle { x: metadata.x, y, width: right.saturating_sub(metadata.x), height: 1 }.clamp_into(area)
}

/// Every part of the main view lies inside `area`.
pub open spec fn areas_inside(a: MainViewAreas, area: Rectangle) -> bool {
    &&& a.header.inside(area)
    &&& a.top.inside(area)
    &&& a.content.inside(area)
    &&& a.bottom_spacer.inside(area)
    &&& a.bottom.inside(area)
    &&& a.footer.inside(area)
    &&& a.tree.inside(area)
    &&& a.metadata.inside(area)
    &&& a.overview.inside(area)
    &&& a.top_spacer_0.inside(area)
    &&& a.top_spacer_1.inside(area)
    &&& a.content_title.inside(area)
    &&& a.bottom_title.inside(area)
    &&& a.record_name_label.inside(area)
    &&& a.record_name_field.inside(area)
    &&& a.encoding_label.inside(area)
    &&& a.encoding_field.inside(area)
}

/// The areas of the main view drawn over `area`.
pub open spec fn main_view_spec(area: Rectangle) -> MainViewAreas {
    let v = Direction::Vertical;
    let h = Direction::Horizontal;
    let top = seg_rect(area, v, band_constraints(), 0, 1);
    let bottom = seg_rect(area, v, band_constraints(), 0, 4);
    let bottom_spacer = seg_rect(area, v, band_constraints(), 0, 3);
    let metadata = seg_rect(top, h, column_constraints(), 1, 1);
    let record_name = seg_rect(bottom, v, line_constraints(), 0, 0);
    let encoding = seg_rect(bottom, v, line_constraints(), 0, 1);
    let content_title = title_row(area, top, metadata, sat_sub(top.y + top.height, 1));
    MainViewAreas {
        header: seg_rect(area, v, band_constraints(), 0, 0),
        top,
        content: seg_rect(area, v, band_constraints(), 0, 2),
        bottom_spacer,
        bottom,
        footer: seg_rect(area, v, band_constraints(), 0, 5),
        tree: seg_rect(top, h, column_constraints(), 1, 0),
        metadata,
        overview: seg_rect(top, h, column_constraints(), 1, 2),
        top_spacer_0: gap_rect(top, h, column_constraints(), 1, 0),
        top_spacer_1: gap_rect(top, h, column_constraints(), 1, 1),
        content_title,
        bottom_title: title_row(area, top, metadata, bottom_spacer.y as int),
        record_name_label: seg_rect(record_name, h, label_constraints(), 1, 0),
        record_name_field: seg_rect(record_name, h, label_constraints(), 1, 1),
        encoding_label: seg_rect(encoding, h, label_constraints(), 1, 0),
        encoding_field: seg_rect(encoding, h, label_constraints(), 1, 1),
    }
}

/// Lays out the main view over `area`: the bands top to bottom, the columns of
/// the upper row with a one-cell gap between them, the titles that sit on the
/// lower edge of the upper row and on the spacer band, and the label and field
/// of each lower line. Every part lies inside `area`.
/// The columns of the upper row and the gaps between them.
fn upper_row(top: Rectangle) -> (r: (Rectangle, Rectangle, Rectangle, Rectangle, Rectangle))
    requires
        top.wf(),
    ensures
        r.0 == seg_rect(top, Direction::Horizontal, column_constraints(), 1, 0),
        r.1 == seg_rect(top, Direction::Horizontal, column_constraints(), 1, 1),
        r.2 == seg_rect(top, Direction::Horizontal, column_constraints(), 1, 2),
        r.3 == gap_rect(top, Direction::Horizontal, column_constraints(), 1, 0),
        r.4 == gap_rect(top, Direction::Horizontal, column_constraints(), 1, 1),
        r.0.inside(top) && r.1.inside(top) && r.2.inside(top),
        r.3.inside(top) && r.4.inside(top),
{
    let h = Direction::Horizontal;
    let columns_c = vec![Constraint::Length(8), Constraint::Fill(1), Constraint::Length(16)];
    assert(columns_c@ == column_constraints());
    let (columns, spacers) = split(top, h, &columns_c, 1);
    proof {
        lemma_split_inside(top, h, column_constraints(), 1, 0);
        lemma_split_inside(top, h, column_constraints(), 1, 1);
        lemma_split_inside(top, h, column_constraints(), 1, 2);
    }
    (columns[0], columns[1], columns[2], spacers[0], spacers[1])
}

/// The label and field of each of the two lower lines.
fn lower_lines(bottom: Rectangle) -> (r: (Rectangle, Rectangle, Rectangle, Rectangle))
    requires
        bottom.wf(),
    ensures
        ({
            let v = Direction::Vertical;
            let h = Direction::Horizontal;
            let record_name = seg_rect(bottom, v, line_constraints(), 0, 0);
            let encoding = seg_rect(bottom, v, line_constraints(), 0, 1);
            &&& r.0 == seg_rect(record_name, h, label_constraints(), 1, 0)
            &&& r.1 == seg_rect(record_name, h, label_constraints(), 1, 1)
            &&& r.2 == seg_rect(encoding, h, label_constraints(), 1, 0)
            &&& r.3 == seg_rect(encoding, h, label_constraints(), 1, 1)
        }),
        r.0.inside(bottom) && r.1.inside(bottom) && r.2.inside(bottom) && r.3.inside(bottom),
{
    let v = Direction::Vertical;
    let h = Direction::Horizontal;
    let lines_c = vec![Constraint::Length(1), Constraint::Length(1)];
    assert(lines_c@ == line_constraints());
    let (lines, _) = split(bottom, v, &lines_c, 0);
    proof {
        lemma_split_inside(bottom, v, line_constraints(), 0, 0);
        lemma_split_inside(bottom, v, line_constraints(), 0, 1);
    }
    let labels_c = vec![Constraint::Length(11), Constraint::Fill(1)];
    assert(labels_c@ == label_constraints());
    let (record_name, _) = split(lines[0], h, &labels_c, 1);
    let (encoding, _) = split(lines[1], h, &labels_c, 1);
    proof {
        lemma_split_inside(lines[0], h, label_constraints(), 1, 0);
        lemma_split_inside(lines[0], h, label_constraints(), 1, 1);
        lemma_split_inside(lines[1], h, label_constraints(), 1, 0);
        lemma_split_inside(lines[1], h, label_constraints(), 1, 1);
    }
    (record_name[0], record_name[1], encoding[0], encoding[1])
}

/// Lays out the main view over `area`: the bands top to bottom, the columns of
/// the upper row with a one-cell gap between them, the titles that sit on the
/// lower edge of the upper row and on the spacer band, and the label and field
/// of each lower line. Every part lies inside `area`.
pub fn main_view_areas(area: Rectangle) -> (r: MainViewAreas)
    requires
        area.wf(),
    ensures
        r == main_view_spec(area),
        areas_inside(r, area),
{
    let v = Direction::Vertical;
    let bands_c = vec![
        Constraint::Length(1),
        Constraint::Length(7),
        Constraint::Fill(1),
        Constraint::Length(1),
        Constraint::Length(2),
        Constraint::Length(1),
    ];
    assert(bands_c@ == band_constraints());
    let (bands, _) = split(area, v, &bands_c, 0);
    proof {
        lemma_split_inside(area, v, band_constraints(), 0, 0);
        lemma_split_inside(area, v, band_constraints(), 0, 1);
        lemma_split_inside(area, v, band_constraints(), 0, 2);
        lemma_split_inside(area, v, band_constraints(), 0, 3);
        lemma_split_inside(area, v, band_constraints(), 0, 4);
        lemma_split_inside(area, v, band_constraints(), 0, 5);
    }
    let top = bands[1];
    let bottom = bands[4];
    let bottom_spacer = bands[3];
    let (tree, metadata, overview, top_spacer_0, top_spacer_1) = upper_row(top);
    let (record_name_label, record_name_field, encoding_label, encoding_field) = lower_lines(bottom);
    let top_end: u16 = top.y + top.height;
    let content_title = title_row_exec(area, top, metadata, top_end.saturating_sub(1));
    let bottom_title = title_row_exec(area, top, metadata, bottom_spacer.y);
    MainViewAreas {
        header: bands[0],
        top,
        content: bands[2],
        bottom_spacer,
        bottom,
        footer: bands[5],
        tree,
        metadata,
        overview,
        top_spacer_0,
        top_spacer_1,
        content_title,
        bottom_title,
        record_name_label,
        record_name_field,
        encoding_label,
        encoding_field,
    }
}

/// A line of plain horizontal strokes.
pub open spec fn spacer_horizontal_spec() -> LineSpacer {
    LineSpacer {
        direction: Direction::Horizontal,
        begin: "\u{2500}",
        inner: "\u{2500}",
        end: "\u{2500}",
        merged: "\u{2500}",
    }
}

/// A vertical line whose ends join the horizontal lines above and below it.
pub open spec fn spacer_vertical_forked_spec() -> LineSpacer {
    LineSpacer {
        direction: Direction::Vertical,
        begin: "\u{252c}",
        inner: "\u{2502}",
        end: "\u{2534}",
        merged: "\u{2500}",
    }
}

/// Relies on ratatui's `symbols::line` constants, in this order: `HORIZONTAL`
/// ("\u{2500}"), `VERTICAL` ("\u{2502}"), `HORIZONTAL_DOWN` ("\u{252c}") and
/// `HORIZONTAL_UP` ("\u{2534}").
#[verifier::external_body]
fn line_symbols() -> (r: (&'static str, &'static str, &'static str, &'static str))
    ensures
        r.0@ == "\u{2500}"@,
        r.1@ == "\u{2502}"@,
        r.2@ == "\u{252c}"@,
        r.3@ == "\u{2534}"@,
{
    (
        ratatui::symbols::line::HORIZONTAL,
        ratatui::symbols::line::VERTICAL,
        ratatui::symbols::line::HORIZONTAL_DOWN,
        ratatui::symbols::line::HORIZONTAL_UP,
    )
}

/// Two lines with the same direction and the same glyphs write the same cells.
proof fn lemma_same_glyphs_same_cells(a: LineSpacer, b: LineSpacer, area: Rectangle)
    requires
        a.direction == b.direction,
        a.begin@ == b.begin@,
        a.inner@ == b.inner@,
        a.end@ == b.end@,
        a.merged@ == b.merged@,
    ensures
        line_cells(a, area) == line_cells(b, area),
{
    assert(line_cells(a, area) =~= line_cells(b, area));
}

/// A line with the glyphs of `spec`.
pub open spec fn same_glyphs(l: LineSpacer, spec: LineSpacer) -> bool {
    l.direction == spec.direction && l.begin@ == spec.begin@ && l.inner@ == spec.inner@ && l.end@
        == spec.end@ && l.merged@ == spec.merged@
}

pub fn spacer_horizontal() -> (r: LineSpacer)
    ensures
        same_glyphs(r, spacer_horizontal_spec()),
{
    let (horizontal, _, _, _) = line_symbols();
    LineSpacer::new(Direction::Horizontal, horizontal, horizontal, horizontal, horizontal)
}

pub fn spacer_vertical_forked() -> (r: LineSpacer)
    ensures
        same_glyphs(r, spacer_vertical_forked_spec()),
{
    let (horizontal, vertical, down, up) = line_symbols();
    LineSpacer::new(Direction::Vertical, down, vertical, up, horizontal)
}

/// The encodings a record's content can be shown in.
#[derive(Clone, Copy, Debug, PartialEq, Eq, Structural)]
pub enum Encoding {
    Utf8,
    Hex,
}

impl Encoding {
    /// The name shown for the encoding.
    pub fn label(&self) -> (r: &'static str)
        ensures
            *self == Encoding::Utf8 ==> r@ == "UTF-8"@,
            *self == Encoding::Hex ==> r@ == "Hexadecimal Byte String"@,
    {
        match self {
            Encoding::Utf8 => "UTF-8",
            Encoding::Hex => "Hexadecimal Byte String",
        }
    }
}

/// The encodings offered by the main view, and the one selected at first.
pub fn encoding_options() -> (r: (Vec<Encoding>, Encoding))
    ensures
        r.0@ == seq![Encoding::Utf8, Encoding::Hex],
        r.1 == Encoding::Utf8,
{
    (vec![Encoding::Utf8, Encoding::Hex], Encoding::Utf8)
}

/// A request to draw a child: which child, where, and the focused identifier
/// handed down to it.
#[derive(Clone, Copy, Debug, PartialEq, Eq, Structural)]
pub struct ChildDraw {
    pub id: ComponentId,
    pub area: Rectangle,
    pub focused_id: ComponentId,
}

/// The main view: the record browser's screen, with a field for a record's
/// name and a choice of encoding as its children.
#[derive(Debug)]
pub struct MainView {
    pub id: ComponentId,
    pub record_name_field: ComponentId,
    pub encoding_radio_array: ComponentId,
    /// The encodings the encoding choice offers, in order.
    pub encodings: Vec<Encoding>,
    /// The encoding selected at first.
    pub selected_encoding: Encoding,
    /// The direction the encoding choice is laid out in.
    pub encoding_direction: Direction,
}

/// The symbols of `m` after the main view's lines are drawn over `area`.
pub open spec fn main_view_lines(m: Map<(int, int), Seq<char>>, area: Rectangle) -> Map<
    (int, int),
    Seq<char>,
> {
    let a = main_view_spec(area);
    let m1 = paint(m, line_cells(spacer_vertical_forked_spec(), a.top_spacer_0));
    let m2 = paint(m1, line_cells(spacer_vertical_forked_spec(), a.top_spacer_1));
    let m3 = paint(m2, line_cells(spacer_horizontal_spec(), a.footer));
    paint(m3, line_cells(spacer_horizontal_spec(), a.bottom_spacer))
}

impl MainView {
    /// The identifiers of the children, in drawing order.
    pub open spec fn get_children_spec(self) -> Seq<ComponentId> {
        seq![self.record_name_field, self.encoding_radio_array]
    }

    /// The children in drawing order, each with its area and the focused identifier.
    pub open spec fn child_draws_spec(self, area: Rectangle, focused_id: ComponentId) -> Seq<
        ChildDraw,
    > {
        let a = main_view_spec(area);
        seq![
            ChildDraw { id: self.record_name_field, area: a.record_name_field, focused_id },
            ChildDraw { id: self.encoding_radio_array, area: a.encoding_field, focused_id },
        ]
    }

    /// A main view with identifier `id`; its children take the next two
    /// identifiers of `ids`.
    pub fn new(id: ComponentId, ids: &mut IdAllocator) -> (r: MainView)
        requires
            old(ids).remaining() >= 2,
        ensures
            r.id == id,
            !old(ids).issued().contains(r.record_name_field@),
            !old(ids).issued().contains(r.encoding_radio_array@),
            r.record_name_field != r.encoding_radio_array,
            final(ids).issued() == old(ids).issued().insert(r.record_name_field@).insert(
                r.encoding_radio_array@,
            ),
            final(ids).remaining() == old(ids).remaining() - 2,
            r.encodings@ == seq![Encoding::Utf8, Encoding::Hex],
            r.selected_encoding == Encoding::Utf8,
            r.encoding_direction == Direction::Horizontal,
    {
        let record_name_field = ids.next();
        let encoding_radio_array = ids.next();
        let (encodings, selected_encoding) = encoding_options();
        MainView {
            id,
            record_name_field,
            encoding_radio_array,
            encodings,
            selected_encoding,
            encoding_direction: Direction::Horizontal,
        }
    }

    /// Takes a message addressed to the view: the view has no state that a
    /// message changes, and asks for no action.
    pub fn update<M, A>(&mut self, message: M) -> (r: Option<A>)
        ensures
            r is None,
            *final(self) == *old(self),
    {
        None
    }

    /// Takes an input event: the view has no state that an event changes, and
    /// asks for no action.
    pub fn handle_event<E, A>(&mut self, event: E) -> (r: Option<A>)
        ensures
            r is None,
            *final(self) == *old(self),
    {
        None
    }

    /// The main view takes no focus itself: its children do.
    pub fn is_focusable(&self) -> (r: bool)
        ensures
            !r,
    {
        false
    }

    pub fn get_id(&self) -> (r: ComponentId)
        ensures
            r == self.id,
    {
        self.id
    }

    /// The identifiers of the children, in drawing order.
    pub fn get_children(&self) -> (r: Vec<ComponentId>)
        ensures
            r@ == self.get_children_spec(),
    {
        vec![self.record_name_field, self.encoding_radio_array]
    }

    /// This view's entry in the accessibility tree: a group whose children
    /// are the view's children, in drawing order.
    pub fn get_accessibility_node(&self) -> (r: Node)
        ensures
            node_is_group(r),
            node_children(r) == seq![self.record_name_field@, self.encoding_radio_array@],
    {
        let mut node = group_node();
        set_node_children(
            &mut node,
            vec![self.record_name_field.value(), self.encoding_radio_array.value()],
        );
        node
    }

    /// Where each child is drawn, and with which focused identifier: the one
    /// handed to the main view, unchanged.
    pub fn child_draws(&self, area: Rectangle, focused_id: ComponentId) -> (r: Vec<ChildDraw>)
        requires
            area.wf(),
        ensures
            r@ == self.child_draws_spec(area, focused_id),
    {
        let a = main_view_areas(area);
        vec![
            ChildDraw { id: self.record_name_field, area: a.record_name_field, focused_id },
            ChildDraw { id: self.encoding_radio_array, area: a.encoding_field, focused_id },
        ]
    }

    /// Draws the main view's lines into `buf` over `area`: a forked vertical
    /// line in each gap of the upper row, and horizontal lines over the footer
    /// and the spacer band. Returns the areas of all parts and the children's
    /// draw requests, for the text and the children to be drawn in.
    pub fn draw(&self, area: Rectangle, buf: &mut Buffer, focused_id: ComponentId) -> (r: (
        MainViewAreas,
        Vec<ChildDraw>,
    ))
        requires
            area.wf(),
            forall|px: int, py: int| area.contains(px, py) ==> buffer_has_cell(*old(buf), px, py),
        ensures
            r.0 == main_view_spec(area),
            areas_inside(r.0, area),
            r.1@ == self.child_draws_spec(area, focused_id),
            buffer_area(*final(buf)) == buffer_area(*old(buf)),
            buffer_len(*final(buf)) == buffer_len(*old(buf)),
            buffer_symbols(*final(buf)) == main_view_lines(buffer_symbols(*old(buf)), area),
    {
        let a = main_view_areas(area);
        let v = Direction::Vertical;
        let h = Direction::Horizontal;
        proof {
            lemma_split_inside(area, v, band_constraints(), 0, 1);
            lemma_split_inside(area, v, band_constraints(), 0, 3);
            lemma_split_inside(area, v, band_constraints(), 0, 5);
            lemma_split_sizes(area, v, band_constraints(), 0, 3);
            lemma_split_sizes(area, v, band_constraints(), 0, 5);
            lemma_split_inside(a.top, h, column_constraints(), 1, 0);
            lemma_split_inside(a.top, h, column_constraints(), 1, 1);
            lemma_split_sizes(a.top, h, column_constraints(), 1, 0);
            lemma_split_sizes(a.top, h, column_constraints(), 1, 1);
            lemma_inside_contains(a.top, area);
            lemma_inside_contains(a.top_spacer_0, a.top);
            lemma_inside_contains(a.top_spacer_1, a.top);
            lemma_inside_contains(a.footer, area);
            lemma_inside_contains(a.bottom_spacer, area);
        }
        let forked = spacer_vertical_forked();
        let plain = spacer_horizontal();
        proof {
            lemma_same_glyphs_same_cells(forked, spacer_vertical_forked_spec(), a.top_spacer_0);
            lemma_same_glyphs_same_cells(forked, spacer_vertical_forked_spec(), a.top_spacer_1);
            lemma_same_glyphs_same_cells(plain, spacer_horizontal_spec(), a.footer);
            lemma_same_glyphs_same_cells(plain, spacer_horizontal_spec(), a.bottom_spacer);
        }
        forked.render(a.top_spacer_0, buf);
        forked.render(a.top_spacer_1, buf);
        plain.render(a.footer, buf);
        plain.render(a.bottom_spacer, buf);
        (a, self.child_draws(area, focused_id))
    }
}

/// On a screen at least 26 cells wide and 12 high no split of the main view
/// is clipped: the bands cover its height, and the upper row and each lower
/// line cover its width, with no cell left over.
pub proof fn lemma_main_view_fills_exactly(area: Rectangle)
    requires
        area.wf(),
        area.width >= 26,
        area.height >= 12,
    ensures
        ({
            let a = main_view_spec(area);
            let v = Direction::Vertical;
            let h = Direction::Horizontal;
            let record_name = seg_rect(a.bottom, v, line_constraints(), 0, 0);
            let encoding = seg_rect(a.bottom, v, line_constraints(), 0, 1);
            &&& split_extent(area, v, band_constraints(), 0) == area.height
            &&& split_extent(a.top, h, column_constraints(), 1) == area.width
            &&& split_extent(record_name, h, label_constraints(), 1) == area.width
            &&& split_extent(encoding, h, label_constraints(), 1) == area.width
        }),
{
    let a = main_view_spec(area);
    let v = Direction::Vertical;
    let h = Direction::Horizontal;
    reveal_with_fuel(fixed_prefix, 7);
    assert(band_constraints()[2] is Fill);
    lemma_split_with_fill(area, v, band_constraints(), 0);
    lemma_split_inside(area, v, band_constraints(), 0, 1);
    lemma_split_inside(area, v, band_constraints(), 0, 4);
    lemma_split_sizes(area, v, band_constraints(), 0, 1);
    lemma_split_sizes(area, v, band_constraints(), 0, 4);
    assert(column_constraints()[1] is Fill);
    lemma_split_with_fill(a.top, h, column_constraints(), 1);
    lemma_split_inside(a.bottom, v, line_constraints(), 0, 0);
    lemma_split_inside(a.bottom, v, line_constraints(), 0, 1);
    lemma_split_sizes(a.bottom, v, line_constraints(), 0, 0);
    lemma_split_sizes(a.bottom, v, line_constraints(), 0, 1);
    let record_name = seg_rect(a.bottom, v, line_constraints(), 0, 0);
    let encoding = seg_rect(a.bottom, v, line_constraints(), 0, 1);
    assert(label_constraints()[1] is Fill);
    lemma_split_with_fill(record_name, h, label_constraints(), 1);
    lemma_split_with_fill(encoding, h, label_constraints(), 1);
}

/// The two lower lines never take more rows than the lower band has, and
/// take exactly its two rows when it has them.
pub proof fn lemma_lower_lines_fit(area: Rectangle)
    requires
        area.wf(),
    ensures
        ({
            let a = main_view_spec(area);
            let v = Direction::Vertical;
            &&& split_extent(a.bottom, v, line_constraints(), 0) <= a.bottom.height
            &&& a.bottom.height == 2 ==> split_extent(a.bottom, v, line_constraints(), 0) == 2
        }),
{
    let a = main_view_spec(area);
    let v = Direction::Vertical;
    reveal_with_fuel(fixed_prefix, 3);
    lemma_split_inside(area, v, band_constraints(), 0, 4);
    lemma_split_without_fill(a.bottom, v, line_constraints(), 0);
}

/// Drawing the main view hands every child the focused identifier unchanged,
/// so the child whose identifier is the focused one receives its own
/// identifier.
pub proof fn lemma_focus_routing(view: MainView, area: Rectangle, focused_id: ComponentId)
    ensures
        forall|k: int|
            0 <= k < view.child_draws_spec(area, focused_id).len() ==> (#[trigger] view.child_draws_spec(
                area,
                focused_id,
            )[k]).focused_id == focused_id,
        forall|k: int|
            0 <= k < view.child_draws_spec(area, focused_id).len() && (#[trigger] view.child_draws_spec(
                area,
                focused_id,
            )[k]).id == focused_id ==> view.child_draws_spec(area, focused_id)[k].focused_id
                == view.child_draws_spec(area, focused_id)[k].id,
        view.get_children_spec() == view.child_draws_spec(area, focused_id).map_values(
            |d: ChildDraw| d.id,
        ),
{
    assert(view.get_children_spec() =~= view.child_draws_spec(area, focused_id).map_values(
        |d: ChildDraw| d.id,
    ));
}

} // verus!
