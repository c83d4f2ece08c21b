use maxtui::geom::Rect;
use maxtui::layout::{solve, Constraint, Direction, Layout};

fn area(w: u16, h: u16) -> Rect {
    Rect { x: 0, y: 0, width: w, height: h }
}

fn widths(rects: &[Rect]) -> Vec<u16> {
    rects.iter().map(|r| r.width).collect()
}

#[test]
fn fixed_and_fills_over_width_30() {
    let cons = vec![Constraint::Fixed(10), Constraint::Fill(1), Constraint::Fill(1)];
    let out = solve(Direction::Horizontal, &cons, area(30, 5));
    assert_eq!(widths(&out), vec![10, 10, 10]);
    assert_eq!(out[0].x, 0);
    assert_eq!(out[1].x, 10);
    assert_eq!(out[2].x, 20);
}

#[test]
fn extra_cell_goes_to_last_fill() {
    let cons = vec![Constraint::Fixed(10), Constraint::Fill(1), Constraint::Fill(1)];
    let out = solve(Direction::Horizontal, &cons, area(31, 5));
    assert_eq!(widths(&out), vec![10, 10, 11]);
}

#[test]
fn exact_fixed_sum_partitions_parent() {
    let cons = vec![Constraint::Fixed(10), Constraint::Fixed(20)];
    let out = solve(Direction::Horizontal, &cons, area(30, 5));
    assert_eq!(widths(&out), vec![10, 20]);
    assert_eq!(out[0].x, 0);
    assert_eq!(out[1].x, 10);
    assert_eq!(out[1].x + out[1].width, 30);
}

#[test]
fn fills_partition_with_no_gap() {
    let cons = vec![Constraint::Fill(1), Constraint::Fill(2), Constraint::Fill(1)];
    let out = solve(Direction::Horizontal, &cons, area(30, 5));
    let total: u16 = widths(&out).iter().sum();
    assert_eq!(total, 30);
    for i in 1..out.len() {
        assert_eq!(out[i].x, out[i - 1].x + out[i - 1].width);
    }
}

#[test]
fn percentage_rounds_to_nearest_cell() {
    let cons = vec![Constraint::Percentage(50), Constraint::Fill(1)];
    let out = solve(Direction::Horizontal, &cons, area(31, 5));
    // 31 * 50 = 1550; +50 then /100 rounds to 16.
    assert_eq!(widths(&out), vec![16, 15]);
}

#[test]
fn overflowing_requests_are_scaled_proportionally() {
    let cons = vec![Constraint::Fixed(40), Constraint::Fixed(40)];
    let out = solve(Direction::Horizontal, &cons, area(30, 5));
    assert_eq!(widths(&out), vec![15, 15]);
    assert!(out[1].x + out[1].width <= 30);
}

#[test]
fn zero_constraints_yield_empty_output() {
    let cons: Vec<Constraint> = Vec::new();
    let out = solve(Direction::Horizontal, &cons, area(30, 5));
    assert!(out.is_empty());
}

#[test]
fn vertical_split_partitions_heights() {
    let cons = vec![Constraint::Fixed(2), Constraint::Fill(1)];
    let out = solve(Direction::Vertical, &cons, area(10, 12));
    assert_eq!(out[0].height, 2);
    assert_eq!(out[1].height, 10);
    assert_eq!(out[0].y, 0);
    assert_eq!(out[1].y, 2);
    assert_eq!(out[0].width, 10);
    assert_eq!(out[1].width, 10);
}

#[test]
fn layout_builder_splits() {
    let mut layout = Layout::horizontal();
    layout.add_constraint(Constraint::fixed(10));
    layout.add_constraint(Constraint::fill(1));
    let out = layout.split(area(30, 5));
    assert_eq!(widths(&out), vec![10, 20]);

    let vertical = Layout::vertical();
    assert!(vertical.split(area(30, 5)).is_empty());
}

#[test]
fn percentage_constructor_builds_percentage() {
    assert_eq!(Constraint::percentage(40), Constraint::Percentage(40));
    assert_eq!(Constraint::fixed(7), Constraint::Fixed(7));
    assert_eq!(Constraint::fill(3), Constraint::Fill(3));
}
