use maxtui::buffer::{Buffer, Cell};
use maxtui::geom::Rect;
use maxtui::widget::{
    draw_text, Button, Chart, Gauge, Input, List, Modal, Paragraph, Spinner, Table, Widget,
};
use maxtui::style::{Color, Style};

fn row_text(buf: &Buffer, y: u16, width: u16) -> String {
    let mut s = String::new();
    for x in 0..width {
        s.push(buf.get(x, y).symbol);
    }
    s
}

#[test]
fn draw_text_clips_to_the_area() {
    let mut buf = Buffer::new(6, 3);
    let area = Rect { x: 1, y: 1, width: 3, height: 1 };
    draw_text(&mut buf, area, 0, "hello", Color::Reset, Color::Reset, Style::new());
    assert_eq!(row_text(&buf, 1, 6), " hel  ");
    assert_eq!(row_text(&buf, 0, 6), "      ");
    assert_eq!(row_text(&buf, 2, 6), "      ");
}

#[test]
fn draw_text_skips_rows_past_the_area() {
    let mut buf = Buffer::new(6, 3);
    let area = Rect { x: 0, y: 0, width: 6, height: 1 };
    draw_text(&mut buf, area, 1, "hidden", Color::Reset, Color::Reset, Style::new());
    for y in 0..3 {
        assert_eq!(row_text(&buf, y, 6), "      ");
    }
}

#[test]
fn button_renders_label_bold_when_focused() {
    let mut b = Button::new(String::from("ok"));
    b.set_focused(true);
    let mut buf = Buffer::new(5, 1);
    b.render(Rect { x: 0, y: 0, width: 5, height: 1 }, &mut buf);
    assert_eq!(buf.get(0, 0).symbol, 'o');
    assert_eq!(buf.get(1, 0).symbol, 'k');
    assert!(buf.get(0, 0).style.is_bold);

    let plain = Button::new(String::from("no"));
    let mut buf2 = Buffer::new(5, 1);
    plain.render(Rect { x: 0, y: 0, width: 5, height: 1 }, &mut buf2);
    assert!(!buf2.get(0, 0).style.is_bold);
}

#[test]
fn input_shows_placeholder_until_a_value_is_set() {
    let mut inp = Input::new(String::from("name"));
    let area = Rect { x: 0, y: 0, width: 6, height: 1 };
    let mut buf = Buffer::new(6, 1);
    inp.render(area, &mut buf);
    assert_eq!(row_text(&buf, 0, 6), "name  ");
    assert!(buf.get(0, 0).style.is_italic);

    inp.set_value(String::from("ada"));
    assert_eq!(inp.get_value(), "ada");
    let mut buf2 = Buffer::new(6, 1);
    inp.render(area, &mut buf2);
    assert_eq!(row_text(&buf2, 0, 6), "ada   ");
    assert!(!buf2.get(0, 0).style.is_italic);
}

#[test]
fn paragraph_renders_its_text_inside_the_area_only() {
    let mut p = Paragraph::new(String::from("x"));
    p.set_text(String::from("zzzz"));
    let mut buf = Buffer::new(4, 4);
    let area = Rect { x: 1, y: 1, width: 2, height: 2 };
    p.render(area, &mut buf);
    assert_eq!(row_text(&buf, 0, 4), "    ");
    assert_eq!(row_text(&buf, 1, 4), " zz ");
    assert_eq!(row_text(&buf, 2, 4), "    ");
    assert_eq!(row_text(&buf, 3, 4), "    ");
}

#[test]
fn gauge_constructor_stores_the_percent_as_passed() {
    // Clamping happens only in the setter; the constructor keeps the value.
    let g = Gauge::new(String::from("cpu"), 150);
    assert_eq!(g.percent, 150);
}

#[test]
fn gauge_setter_clamps_and_fills_proportionally() {
    let mut g = Gauge::new(String::from("cpu"), 0);
    g.set_percent(150);
    assert_eq!(g.percent, 100);
    g.set_percent(50);
    assert_eq!(g.percent, 50);
    let mut buf = Buffer::new(10, 1);
    g.render(Rect { x: 0, y: 0, width: 10, height: 1 }, &mut buf);
    assert_eq!(row_text(&buf, 0, 10), "#####     ");

    g.set_percent(0);
    let mut buf2 = Buffer::new(10, 1);
    g.render(Rect { x: 0, y: 0, width: 10, height: 1 }, &mut buf2);
    assert_eq!(row_text(&buf2, 0, 10), "          ");
}

#[test]
fn list_renders_title_then_items() {
    let mut l = List::new(String::from("todo"));
    l.add_item(String::from("one"));
    l.add_item(String::from("two"));
    let mut buf = Buffer::new(6, 3);
    l.render(Rect { x: 0, y: 0, width: 6, height: 3 }, &mut buf);
    assert_eq!(row_text(&buf, 0, 6), "todo  ");
    assert_eq!(row_text(&buf, 1, 6), "one   ");
    assert_eq!(row_text(&buf, 2, 6), "two   ");
}

#[test]
fn table_lays_rows_out_in_equal_columns() {
    let mut t = Table::new(String::from("tbl"));
    t.add_row(vec![String::from("a"), String::from("b")]);
    let mut buf = Buffer::new(10, 3);
    t.render(Rect { x: 0, y: 0, width: 10, height: 3 }, &mut buf);
    assert_eq!(row_text(&buf, 0, 10), "tbl       ");
    assert_eq!(buf.get(0, 1).symbol, 'a');
    assert_eq!(buf.get(5, 1).symbol, 'b');
}

#[test]
fn modal_renders_title_strip_over_content() {
    let m = Modal::new(String::from("hi"), String::from("body"));
    let mut buf = Buffer::new(6, 3);
    m.render(Rect { x: 0, y: 0, width: 6, height: 3 }, &mut buf);
    assert_eq!(row_text(&buf, 0, 6), "hi    ");
    assert_eq!(row_text(&buf, 1, 6), "body  ");
}

#[test]
fn spinner_and_chart_render_their_labels() {
    let s = Spinner::new(String::from("wait"));
    let mut buf = Buffer::new(6, 1);
    s.render(Rect { x: 0, y: 0, width: 6, height: 1 }, &mut buf);
    assert_eq!(row_text(&buf, 0, 6), "wait  ");

    let mut c = Chart::new(String::from("load"));
    c.add_point(1, 2);
    c.add_point(3, 4);
    assert_eq!(c.points, vec![(1, 2), (3, 4)]);
    let mut buf2 = Buffer::new(6, 1);
    c.render(Rect { x: 0, y: 0, width: 6, height: 1 }, &mut buf2);
    assert_eq!(row_text(&buf2, 0, 6), "load  ");
}

#[test]
fn widget_dispatch_paints_like_the_inner_widget() {
    let w = Widget::Paragraph(Paragraph::new(String::from("hey")));
    let mut buf = Buffer::new(5, 1);
    w.render(Rect { x: 0, y: 0, width: 5, height: 1 }, &mut buf);
    assert_eq!(row_text(&buf, 0, 5), "hey  ");
}

#[test]
fn render_into_empty_area_changes_nothing() {
    let p = Paragraph::new(String::from("text"));
    let mut buf = Buffer::new(4, 2);
    p.render(Rect { x: 0, y: 0, width: 4, height: 0 }, &mut buf);
    for y in 0..2 {
        assert_eq!(row_text(&buf, y, 4), "    ");
    }
}

#[test]
fn cell_constructor_keeps_its_fields() {
    let c = Cell::new('q', Color::Rgb(1, 2, 3), Color::Blue, Style::new().underline());
    assert_eq!(c.symbol, 'q');
    assert_eq!(c.fg, Color::Rgb(1, 2, 3));
    assert_eq!(c.bg, Color::Blue);
    assert!(c.style.is_underline);
}
