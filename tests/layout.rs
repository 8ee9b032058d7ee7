use rrr_tui::geometry::{Direction, Rectangle};
use rrr_tui::layout::{split, Constraint};

fn r(x: u16, y: u16, width: u16, height: u16) -> Rectangle {
    Rectangle::new(x, y, width, height)
}

fn total(segs: &[Rectangle], gaps: &[Rectangle], dir: Direction) -> u32 {
    segs.iter().chain(gaps.iter()).map(|s| s.extent_along(dir) as u32).sum()
}

#[test]
fn fixed_then_fill_with_spacing() {
    let (segs, gaps) = split(
        r(0, 0, 10, 1),
        Direction::Horizontal,
        &vec![Constraint::Length(3), Constraint::Fill(1)],
        1,
    );
    assert_eq!(segs, vec![r(0, 0, 3, 1), r(4, 0, 6, 1)]);
    assert_eq!(gaps, vec![r(3, 0, 1, 1)]);
}

#[test]
fn fixed_then_fill_with_spacing_offset_origin() {
    let (segs, gaps) = split(
        r(5, 2, 10, 1),
        Direction::Horizontal,
        &vec![Constraint::Length(3), Constraint::Fill(1)],
        1,
    );
    assert_eq!(segs, vec![r(5, 2, 3, 1), r(9, 2, 6, 1)]);
    assert_eq!(gaps, vec![r(8, 2, 1, 1)]);
}

#[test]
fn vertical_split_keeps_width() {
    let (segs, gaps) = split(
        r(1, 1, 4, 6),
        Direction::Vertical,
        &vec![Constraint::Length(2), Constraint::Length(3)],
        0,
    );
    assert_eq!(segs, vec![r(1, 1, 4, 2), r(1, 3, 4, 3)]);
    assert_eq!(gaps, vec![r(1, 3, 4, 0)]);
    assert_eq!(total(&segs, &gaps, Direction::Vertical), 5);
}

#[test]
fn lengths_past_the_edge_are_clipped() {
    let (segs, gaps) = split(
        r(0, 0, 5, 1),
        Direction::Horizontal,
        &vec![Constraint::Length(3), Constraint::Length(4), Constraint::Length(2)],
        1,
    );
    assert_eq!(segs, vec![r(0, 0, 3, 1), r(4, 0, 1, 1), r(5, 0, 0, 1)]);
    assert_eq!(gaps, vec![r(3, 0, 1, 1), r(5, 0, 0, 1)]);
    assert_eq!(total(&segs, &gaps, Direction::Horizontal), 5);
}

#[test]
fn lengths_that_fit_leave_the_rest_unused() {
    let (segs, gaps) = split(r(0, 0, 10, 1), Direction::Horizontal, &vec![Constraint::Length(3)], 0);
    assert_eq!(segs, vec![r(0, 0, 3, 1)]);
    assert!(gaps.is_empty());
    assert_eq!(total(&segs, &gaps, Direction::Horizontal), 3);
}

#[test]
fn lengths_and_gaps_filling_the_parent_cover_it() {
    let (segs, gaps) = split(
        r(0, 0, 7, 1),
        Direction::Horizontal,
        &vec![Constraint::Length(3), Constraint::Length(3)],
        1,
    );
    assert_eq!(total(&segs, &gaps, Direction::Horizontal), 7);
}

#[test]
fn fills_share_by_weight() {
    let (segs, gaps) = split(
        r(0, 0, 10, 1),
        Direction::Horizontal,
        &vec![Constraint::Fill(1), Constraint::Fill(2)],
        0,
    );
    assert_eq!(segs, vec![r(0, 0, 3, 1), r(3, 0, 7, 1)]);
    assert_eq!(total(&segs, &gaps, Direction::Horizontal), 10);
}

#[test]
fn fills_of_zero_weight_share_equally() {
    let (segs, _) = split(
        r(0, 0, 5, 1),
        Direction::Horizontal,
        &vec![Constraint::Fill(0), Constraint::Fill(0)],
        0,
    );
    assert_eq!(segs, vec![r(0, 0, 2, 1), r(2, 0, 3, 1)]);
}

#[test]
fn fills_with_lengths_and_gaps_cover_the_parent() {
    let (segs, gaps) = split(
        r(0, 0, 80, 7),
        Direction::Horizontal,
        &vec![Constraint::Length(8), Constraint::Fill(1), Constraint::Length(16)],
        1,
    );
    assert_eq!(segs, vec![r(0, 0, 8, 7), r(9, 0, 54, 7), r(64, 0, 16, 7)]);
    assert_eq!(gaps, vec![r(8, 0, 1, 7), r(63, 0, 1, 7)]);
    assert_eq!(total(&segs, &gaps, Direction::Horizontal), 80);
}

#[test]
fn fill_gets_zero_when_lengths_take_everything() {
    let (segs, _) = split(
        r(0, 0, 4, 1),
        Direction::Horizontal,
        &vec![Constraint::Length(4), Constraint::Fill(3)],
        0,
    );
    assert_eq!(segs, vec![r(0, 0, 4, 1), r(4, 0, 0, 1)]);
}

#[test]
fn empty_constraint_list_gives_nothing() {
    let (segs, gaps) = split(r(0, 0, 10, 10), Direction::Vertical, &vec![], 3);
    assert!(segs.is_empty());
    assert!(gaps.is_empty());
}

#[test]
fn zero_extent_gives_empty_segments() {
    let (segs, gaps) = split(
        r(3, 4, 0, 2),
        Direction::Horizontal,
        &vec![Constraint::Length(2), Constraint::Fill(1)],
        1,
    );
    assert_eq!(segs, vec![r(3, 4, 0, 2), r(3, 4, 0, 2)]);
    assert_eq!(gaps, vec![r(3, 4, 0, 2)]);
}

#[test]
fn split_is_deterministic() {
    let cs = vec![Constraint::Length(2), Constraint::Fill(3), Constraint::Fill(1)];
    let a = split(r(0, 0, 17, 3), Direction::Horizontal, &cs, 2);
    let b = split(r(0, 0, 17, 3), Direction::Horizontal, &cs, 2);
    assert_eq!(a, b);
}
