use accesskit::NodeId;
use ratatui::buffer::Buffer;
use ratatui::layout::Rect;
use rrr_tui::geometry::Rectangle;
use rrr_tui::ids::IdAllocator;
use rrr_tui::main_view::{encoding_options, main_view_areas, ChildDraw, Encoding, MainView};

fn r(x: u16, y: u16, width: u16, height: u16) -> Rectangle {
    Rectangle::new(x, y, width, height)
}

fn view() -> (MainView, IdAllocator) {
    let mut ids = IdAllocator::new();
    let id = ids.next();
    let v = MainView::new(id, &mut ids);
    (v, ids)
}

#[test]
fn areas_of_a_full_screen() {
    let a = main_view_areas(r(0, 0, 80, 24));
    assert_eq!(a.header, r(0, 0, 80, 1));
    assert_eq!(a.top, r(0, 1, 80, 7));
    assert_eq!(a.content, r(0, 8, 80, 12));
    assert_eq!(a.bottom_spacer, r(0, 20, 80, 1));
    assert_eq!(a.bottom, r(0, 21, 80, 2));
    assert_eq!(a.footer, r(0, 23, 80, 1));
    assert_eq!(a.tree, r(0, 1, 8, 7));
    assert_eq!(a.top_spacer_0, r(8, 1, 1, 7));
    assert_eq!(a.metadata, r(9, 1, 54, 7));
    assert_eq!(a.top_spacer_1, r(63, 1, 1, 7));
    assert_eq!(a.overview, r(64, 1, 16, 7));
    assert_eq!(a.content_title, r(9, 7, 71, 1));
    assert_eq!(a.bottom_title, r(9, 20, 71, 1));
    assert_eq!(a.record_name_label, r(0, 21, 11, 1));
    assert_eq!(a.record_name_field, r(12, 21, 68, 1));
    assert_eq!(a.encoding_label, r(0, 22, 11, 1));
    assert_eq!(a.encoding_field, r(12, 22, 68, 1));
}

#[test]
fn areas_of_an_empty_screen_are_empty() {
    let a = main_view_areas(r(0, 0, 0, 0));
    assert_eq!(a.top, r(0, 0, 0, 0));
    assert_eq!(a.footer, r(0, 0, 0, 0));
    assert_eq!(a.content_title, r(0, 0, 0, 0));
    assert_eq!(a.bottom_title, r(0, 0, 0, 0));
    assert_eq!(a.encoding_field, r(0, 0, 0, 0));
}

#[test]
fn draw_puts_lines_at_band_boundaries() {
    let (v, _) = view();
    let mut buf = Buffer::empty(Rect::new(0, 0, 80, 24));
    let (areas, _) = v.draw(r(0, 0, 80, 24), &mut buf, v.get_id());
    assert_eq!(areas, main_view_areas(r(0, 0, 80, 24)));
    assert_eq!(buf[(8, 1)].symbol(), "\u{252c}");
    assert_eq!(buf[(8, 4)].symbol(), "\u{2502}");
    assert_eq!(buf[(8, 7)].symbol(), "\u{2534}");
    assert_eq!(buf[(63, 1)].symbol(), "\u{252c}");
    assert_eq!(buf[(63, 7)].symbol(), "\u{2534}");
    for x in 0..80 {
        assert_eq!(buf[(x, 23)].symbol(), "\u{2500}");
        assert_eq!(buf[(x, 20)].symbol(), "\u{2500}");
        assert_eq!(buf[(x, 10)].symbol(), " ");
    }
}

#[test]
fn draw_on_a_single_cell_screen_draws_no_line() {
    let (v, _) = view();
    let mut buf = Buffer::empty(Rect::new(0, 0, 1, 1));
    v.draw(r(0, 0, 1, 1), &mut buf, v.get_id());
    assert_eq!(buf[(0, 0)].symbol(), " ");
}

#[test]
fn focused_child_receives_its_own_id() {
    let (v, _) = view();
    let children = v.get_children();
    assert_eq!(children, vec![v.record_name_field, v.encoding_radio_array]);
    let focused = v.record_name_field;
    let a = main_view_areas(r(0, 0, 80, 24));
    let draws = v.child_draws(r(0, 0, 80, 24), focused);
    assert_eq!(
        draws,
        vec![
            ChildDraw { id: v.record_name_field, area: a.record_name_field, focused_id: focused },
            ChildDraw { id: v.encoding_radio_array, area: a.encoding_field, focused_id: focused },
        ]
    );
    assert_eq!(draws[0].focused_id, draws[0].id);
    assert!(draws.iter().all(|d| d.focused_id == focused));
}

#[test]
fn main_view_is_not_focusable_and_children_have_fresh_ids() {
    let (v, mut ids) = view();
    assert!(!v.is_focusable());
    assert_ne!(v.get_id(), v.record_name_field);
    assert_ne!(v.record_name_field, v.encoding_radio_array);
    let later = ids.next();
    assert_ne!(later, v.encoding_radio_array);
}

#[test]
fn accessibility_node_lists_children() {
    let (v, _) = view();
    let node = v.get_accessibility_node();
    assert_eq!(node.role(), accesskit::Role::Group);
    assert_eq!(v.get_accessibility_node().children().len(), 2);
    assert_eq!(
        node.children(),
        &[NodeId(v.record_name_field.value()), NodeId(v.encoding_radio_array.value())]
    );
}

fn inside(a: Rectangle, outer: Rectangle) -> bool {
    outer.x <= a.x
        && a.x as u32 + a.width as u32 <= outer.x as u32 + outer.width as u32
        && outer.y <= a.y
        && a.y as u32 + a.height as u32 <= outer.y as u32 + outer.height as u32
}

fn all_areas(a: &rrr_tui::main_view::MainViewAreas) -> Vec<Rectangle> {
    vec![
        a.header, a.top, a.content, a.bottom_spacer, a.bottom, a.footer, a.tree, a.metadata,
        a.overview, a.top_spacer_0, a.top_spacer_1, a.content_title, a.bottom_title,
        a.record_name_label, a.record_name_field, a.encoding_label, a.encoding_field,
    ]
}

#[test]
fn titles_of_an_offset_screen_reach_its_right_edge() {
    let a = main_view_areas(r(10, 5, 80, 24));
    assert_eq!(a.metadata, r(19, 6, 54, 7));
    assert_eq!(a.content_title, r(19, 12, 71, 1));
    assert_eq!(a.bottom_title, r(19, 25, 71, 1));
}

#[test]
fn every_area_stays_inside_small_screens() {
    for (w, h) in [(0, 0), (1, 1), (5, 2), (30, 2), (30, 0), (40, 11), (3, 13)] {
        let area = r(4, 3, w, h);
        let a = main_view_areas(area);
        for part in all_areas(&a) {
            assert!(inside(part, area), "{:?} outside {:?}", part, area);
        }
    }
}

#[test]
fn short_screen_clamps_the_bottom_title() {
    let a = main_view_areas(r(0, 0, 30, 2));
    assert_eq!(a.bottom_spacer, r(0, 2, 30, 0));
    assert_eq!(a.bottom_title.height, 0);
    let b = main_view_areas(r(0, 4, 30, 0));
    assert_eq!(b.content_title, r(9, 4, 21, 0));
}

#[test]
fn update_and_events_ask_for_nothing() {
    let (mut v, _) = view();
    let before = (v.get_id(), v.get_children());
    let r: Option<u8> = v.update("message");
    assert!(r.is_none());
    let e: Option<u8> = v.handle_event(7u32);
    assert!(e.is_none());
    assert_eq!((v.get_id(), v.get_children()), before);
}

#[test]
fn encoding_labels() {
    assert_eq!(Encoding::Utf8.label(), "UTF-8");
    assert_eq!(Encoding::Hex.label(), "Hexadecimal Byte String");
    let (options, selected) = encoding_options();
    assert_eq!(options, vec![Encoding::Utf8, Encoding::Hex]);
    assert_eq!(selected, Encoding::Utf8);
    let (v, _) = view();
    assert_eq!(v.encodings, vec![Encoding::Utf8, Encoding::Hex]);
    assert_eq!(v.selected_encoding, Encoding::Utf8);
    assert_eq!(v.encoding_direction, rrr_tui::geometry::Direction::Horizontal);
}

#[test]
fn smallest_unclipped_screen_is_covered_exactly() {
    let a = main_view_areas(r(2, 1, 26, 12));
    let heights: u16 = [a.header, a.top, a.content, a.bottom_spacer, a.bottom, a.footer]
        .iter()
        .map(|b| b.height)
        .sum();
    assert_eq!(heights, 12);
    assert_eq!(a.content.height, 0);
    assert_eq!(a.tree.width + 1 + a.metadata.width + 1 + a.overview.width, 26);
    assert_eq!(a.record_name_label.width + 1 + a.record_name_field.width, 26);
    assert_eq!(a.encoding_label.width + 1 + a.encoding_field.width, 26);
    assert_eq!(a.record_name_field.height + a.encoding_field.height, a.bottom.height);
}
