use maxtui::buffer::{Buffer, Cell};
use maxtui::style::{Color, Style};

fn mark(symbol: char) -> Cell {
    Cell::new(symbol, Color::Red, Color::Black, Style::new().bold())
}

#[test]
fn new_buffer_is_all_default() {
    let b = Buffer::new(4, 3);
    for y in 0..3 {
        for x in 0..4 {
            assert_eq!(b.get(x, y), Cell::empty());
        }
    }
}

#[test]
fn set_then_get_round_trips() {
    let mut b = Buffer::new(4, 3);
    b.set(2, 1, mark('x'));
    assert_eq!(b.get(2, 1), mark('x'));
    assert_eq!(b.get(1, 1), Cell::empty());
}

#[test]
fn set_out_of_bounds_is_a_noop() {
    let mut b = Buffer::new(4, 3);
    b.set(1, 1, mark('x'));
    b.set(4, 0, mark('z'));
    b.set(0, 3, mark('z'));
    b.set(65535, 65535, mark('z'));
    for y in 0..3 {
        for x in 0..4 {
            let expected = if (x, y) == (1, 1) { mark('x') } else { Cell::empty() };
            assert_eq!(b.get(x, y), expected);
        }
    }
}

#[test]
fn diff_of_equal_buffers_is_empty() {
    let a = Buffer::new(5, 4);
    let b = Buffer::new(5, 4);
    assert!(a.diff(&b).is_empty());
    assert!(a.diff(&a).is_empty());

    let mut c = Buffer::new(5, 4);
    let mut d = Buffer::new(5, 4);
    c.set(3, 2, mark('q'));
    d.set(3, 2, mark('q'));
    assert!(c.diff(&d).is_empty());
}

#[test]
fn diff_reports_exactly_the_differing_cells() {
    let front = Buffer::new(5, 4);
    let mut back = Buffer::new(5, 4);
    back.set(3, 0, mark('a'));
    back.set(1, 2, mark('b'));
    let writes = back.diff(&front);
    assert_eq!(writes, vec![(3, 0, mark('a')), (1, 2, mark('b'))]);
}

#[test]
fn diff_is_row_major_ordered() {
    let front = Buffer::new(3, 3);
    let mut back = Buffer::new(3, 3);
    back.set(2, 2, mark('c'));
    back.set(0, 0, mark('a'));
    back.set(1, 1, mark('b'));
    let writes = back.diff(&front);
    assert_eq!(writes, vec![(0, 0, mark('a')), (1, 1, mark('b')), (2, 2, mark('c'))]);
}

#[test]
fn resize_discards_content_and_resets_to_default() {
    let mut b = Buffer::new(3, 2);
    b.fill(mark('#'));
    for y in 0..2 {
        for x in 0..3 {
            assert_eq!(b.get(x, y), mark('#'));
        }
    }
    b.resize(3, 2);
    for y in 0..2 {
        for x in 0..3 {
            assert_eq!(b.get(x, y), Cell::empty());
        }
    }
}

#[test]
fn resize_round_trip_leaves_no_stale_content() {
    let mut b = Buffer::new(4, 4);
    b.resize(2, 2);
    for y in 0..2 {
        for x in 0..2 {
            b.set(x, y, mark('s'));
        }
    }
    b.resize(2, 2);
    for y in 0..2 {
        for x in 0..2 {
            assert_eq!(b.get(x, y), Cell::empty());
        }
    }
}

#[test]
fn set_string_writes_and_clips_at_the_grid_edge() {
    let mut b = Buffer::new(4, 2);
    b.set_string(2, 1, "abc", Color::Reset, Color::Reset, Style::new());
    assert_eq!(b.get(2, 1).symbol, 'a');
    assert_eq!(b.get(3, 1).symbol, 'b');
    assert_eq!(b.get(0, 1), Cell::empty());
    assert_eq!(b.get(2, 0), Cell::empty());
}

#[test]
fn empty_buffer_diff_is_empty() {
    let a = Buffer::new(0, 0);
    let b = Buffer::new(0, 0);
    assert!(a.diff(&b).is_empty());
}
