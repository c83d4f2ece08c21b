//! The widget render protocol: each widget paints itself into a
//! sub-rectangle of a buffer and never writes outside it. Rendering is a
//! pure function of the widget's current field values and the given area:
//! each widget states in a `painted` predicate what its render leaves in
//! the buffer, and `render` ensures both confinement and that predicate.

use vstd::prelude::*;
use vstd::string::StrSliceExecFns;
use crate::buffer::{Buffer, Cell};
use crate::geom::Rect;
use crate::layout::{base_total, last_fill, share_total, size_total, solve, spec_size_at,
    weight_total, Constraint, Direction};
use crate::style::{Color, Style};

verus! {

/// `post` differs from `pre` only inside `area`: the dimensions are kept
/// and every in-bounds cell outside `area` is untouched.
pub open spec fn confined_to(pre: Buffer, post: Buffer, area: Rect) -> bool {
    &&& post.wf()
    &&& post.same_size(pre)
    &&& forall|cx: int, cy: int|
        pre.spec_in_bounds(cx, cy) && !area.spec_contains(cx, cy) ==> post.cell_at(cx, cy)
            == pre.cell_at(cx, cy)
}

/// Law: confinement composes across successive paints into the same area.
pub proof fn lemma_confined_trans(a: Buffer, b: Buffer, c: Buffer, area: Rect)
    requires
        confined_to(a, b, area),
        confined_to(b, c, area),
    ensures
        confined_to(a, c, area),
{
}

/// Law: a paint confined to an inner rectangle is confined to any
/// rectangle that contains every cell of the inner one.
pub proof fn lemma_confined_mono(a: Buffer, b: Buffer, inner: Rect, outer: Rect)
    requires
        confined_to(a, b, inner),
        forall|cx: int, cy: int| inner.spec_contains(cx, cy) ==> outer.spec_contains(cx, cy),
    ensures
        confined_to(a, b, outer),
{
}

/// The text `s` stands painted on the row `row` rows below the top of
/// `area`: every character that fits the area's width fills its whole cell
/// with the given colors and style. Rows past the area's bottom carry no
/// claim.
pub open spec fn row_painted(
    area: Rect,
    row: int,
    s: Seq<char>,
    fg: Color,
    bg: Color,
    style: Style,
    buf: Buffer,
) -> bool {
    row < area.height ==> forall|j: int|
        0 <= j < s.len() && j < area.width && buf.spec_in_bounds(
            area.x as int + j,
            area.y as int + row,
        ) ==> buf.cell_at(area.x as int + j, area.y as int + row) == (Cell {
            symbol: s[j],
            fg,
            bg,
            style,
        })
}

/// Law: a painted row survives any later paint that leaves the cells of
/// that row inside `area` unchanged.
pub proof fn lemma_row_painted_frame(
    area: Rect,
    row: int,
    s: Seq<char>,
    fg: Color,
    bg: Color,
    style: Style,
    b1: Buffer,
    b2: Buffer,
)
    requires
        0 <= row,
        row_painted(area, row, s, fg, bg, style, b1),
        b2.wf(),
        b2.same_size(b1),
        forall|cx: int, cy: int|
            b1.spec_in_bounds(cx, cy) && area.spec_contains(cx, cy) && cy == area.y + row
                ==> b2.cell_at(cx, cy) == b1.cell_at(cx, cy),
    ensures
        row_painted(area, row, s, fg, bg, style, b2),
{
    if row < area.height {
        assert forall|j: int|
            0 <= j < s.len() && j < area.width && b2.spec_in_bounds(
                area.x as int + j,
                area.y as int + row,
            ) implies b2.cell_at(area.x as int + j, area.y as int + row) == (Cell {
            symbol: s[j],
            fg,
            bg,
            style,
        }) by {
            assert(b1.spec_in_bounds(area.x as int + j, area.y as int + row));
            assert(area.spec_contains(area.x as int + j, area.y as int + row));
        }
    }
}

/// Writes `s` into the row `row` rows below the top of `area`, left
/// aligned and clipped to the area's width. Cells outside `area` are
/// untouched, as is every row but the one written; rows past the area's
/// bottom are not drawn.
pub fn draw_text(buf: &mut Buffer, area: Rect, row: u16, s: &str, fg: Color, bg: Color, style: Style)
    requires
        old(buf).wf(),
        area.wf(),
    ensures
        confined_to(*old(buf), *final(buf), area),
        forall|cx: int, cy: int|
            old(buf).spec_in_bounds(cx, cy) && cy != area.y + row ==> final(buf).cell_at(cx, cy)
                == old(buf).cell_at(cx, cy),
        row_painted(area, row as int, s@, fg, bg, style, *final(buf)),
{
    if row >= area.height {
        return ;
    }
    let len = s.unicode_len();
    let clip: usize = if len > area.width as usize {
        area.width as usize
    } else {
        len
    };
    let s2 = s.substring_char(0, clip);
    buf.set_string(area.x, area.y + row, s2, fg, bg, style);
    proof {
        assert forall|cx: int, cy: int|
            old(buf).spec_in_bounds(cx, cy) && !area.spec_contains(cx, cy) implies buf.cell_at(
            cx,
            cy,
        ) == old(buf).cell_at(cx, cy) by {
            assert(!(cy == area.y + row && area.x <= cx < area.x + s2@.len()));
        }
        assert forall|cx: int, cy: int|
            old(buf).spec_in_bounds(cx, cy) && cy != area.y + row implies buf.cell_at(cx, cy)
            == old(buf).cell_at(cx, cy) by {
            assert(!(cy == area.y + row && area.x <= cx < area.x + s2@.len()));
        }
        assert forall|j: int|
            0 <= j < s@.len() && j < area.width && buf.spec_in_bounds(
                area.x as int + j,
                area.y as int + row as int,
            ) implies buf.cell_at(area.x as int + j, area.y as int + row as int) == (Cell {
            symbol: s@[j],
            fg,
            bg,
            style,
        }) by {
            assert(j < s2@.len());
            assert(s2@[j] == s@[j]);
        }
    }
}

/// A push button with a text label; rendered bold while focused.
pub struct Button {
    pub label: String,
    pub focused: bool,
}

impl Button {
    pub fn new(label: String) -> (b: Button)
        ensures
            b.label@ == label@,
            b.focused == false,
    {
        Button { label, focused: false }
    }

    pub fn set_focused(&mut self, focused: bool)
        ensures
            final(self).focused == focused,
            final(self).label@ == old(self).label@,
    {
        self.focused = focused;
    }

    /// The style the button paints with: bold while focused.
    pub open spec fn render_style(self) -> Style {
        if self.focused {
            Style::spec_bold()
        } else {
            Style::spec_plain()
        }
    }

    /// The label stands on the area's first row.
    pub open spec fn painted(self, area: Rect, buf: Buffer) -> bool {
        row_painted(area, 0, self.label@, Color::Reset, Color::Reset, self.render_style(), buf)
    }

    /// Paints the label on the area's first row.
    pub fn render(&self, area: Rect, buf: &mut Buffer)
        requires
            old(buf).wf(),
            area.wf(),
        ensures
            confined_to(*old(buf), *final(buf), area),
            self.painted(area, *final(buf)),
    {
        let style = if self.focused {
            Style::new().bold()
        } else {
            Style::new()
        };
        draw_text(buf, area, 0, self.label.as_str(), Color::Reset, Color::Reset, style);
    }
}

/// A single-line text input with a placeholder shown while empty.
pub struct Input {
    pub value: String,
    pub placeholder: String,
}

impl Input {
    pub fn new(placeholder: String) -> (inp: Input)
        ensures
            inp.value@.len() == 0,
            inp.placeholder@ == placeholder@,
    {
        Input { value: String::new(), placeholder }
    }

    pub fn get_value(&self) -> (v: String)
        ensures
            v@ == self.value@,
    {
        self.value.clone()
    }

    pub fn set_value(&mut self, value: String)
        ensures
            final(self).value@ == value@,
            final(self).placeholder@ == old(self).placeholder@,
    {
        self.value = value;
    }

    /// The text the input shows: its value, or the placeholder while the
    /// value is empty.
    pub open spec fn shown_text(self) -> Seq<char> {
        if self.value@.len() > 0 {
            self.value@
        } else {
            self.placeholder@
        }
    }

    /// The style the input paints with: italics for the placeholder, plain
    /// for a value.
    pub open spec fn render_style(self) -> Style {
        if self.value@.len() > 0 {
            Style::spec_plain()
        } else {
            Style::spec_italic()
        }
    }

    /// The shown text stands on the area's first row.
    pub open spec fn painted(self, area: Rect, buf: Buffer) -> bool {
        row_painted(area, 0, self.shown_text(), Color::Reset, Color::Reset, self.render_style(), buf)
    }

    /// Paints the value — or, while it is empty, the placeholder in
    /// italics — on the area's first row.
    pub fn render(&self, area: Rect, buf: &mut Buffer)
        requires
            old(buf).wf(),
            area.wf(),
        ensures
            confined_to(*old(buf), *final(buf), area),
            self.painted(area, *final(buf)),
    {
        if self.value.as_str().unicode_len() > 0 {
            draw_text(buf, area, 0, self.value.as_str(), Color::Reset, Color::Reset, Style::new());
        } else {
            draw_text(
                buf,
                area,
                0,
                self.placeholder.as_str(),
                Color::Reset,
                Color::Reset,
                Style::new().italic(),
            );
        }
    }
}

/// A block of text painted on one row.
pub struct Paragraph {
    pub text: String,
}

impl Paragraph {
    pub fn new(text: String) -> (p: Paragraph)
        ensures
            p.text@ == text@,
    {
        Paragraph { text }
    }

    pub fn set_text(&mut self, text: String)
        ensures
            final(self).text@ == text@,
    {
        self.text = text;
    }

    /// The text stands plain on the area's first row.
    pub open spec fn painted(self, area: Rect, buf: Buffer) -> bool {
        row_painted(area, 0, self.text@, Color::Reset, Color::Reset, Style::spec_plain(), buf)
    }

    /// Paints the text on the area's first row.
    pub fn render(&self, area: Rect, buf: &mut Buffer)
        requires
            old(buf).wf(),
            area.wf(),
        ensures
            confined_to(*old(buf), *final(buf), area),
            self.painted(area, *final(buf)),
    {
        draw_text(buf, area, 0, self.text.as_str(), Color::Reset, Color::Reset, Style::new());
    }
}

/// A progress bar: a labelled gauge filled to a whole-number percentage.
pub struct Gauge {
    pub label: String,
    pub percent: u16,
}

impl Gauge {
    /// The percentage never exceeds one hundred.
    pub open spec fn wf(self) -> bool {
        self.percent <= 100
    }

    /// How many of `width` columns the bar fills.
    pub open spec fn spec_filled(self, width: int) -> int {
        self.percent * width / 100
    }

    /// Stores the percentage exactly as passed; `set_percent` is where
    /// clamping happens.
    pub fn new(label: String, percent: u16) -> (g: Gauge)
        ensures
            g.label@ == label@,
            g.percent == percent,
    {
        Gauge { label, percent }
    }

    /// Sets the fill percentage, clamped to at most one hundred.
    pub fn set_percent(&mut self, percent: u16)
        ensures
            final(self).percent == (if percent > 100 {
                100u16
            } else {
                percent
            }),
            final(self).label@ == old(self).label@,
            final(self).wf(),
    {
        self.percent = if percent > 100 { 100 } else { percent };
    }

    /// The bar stands on the area's first row: the filled prefix as `#`
    /// cells, the rest as blanks, all plain with default colors.
    pub open spec fn painted(self, area: Rect, buf: Buffer) -> bool {
        area.height > 0 ==> forall|cx: int|
            area.x <= cx < area.x + area.width && buf.spec_in_bounds(cx, area.y as int)
                ==> buf.cell_at(cx, area.y as int) == (Cell {
                symbol: if cx - area.x < self.spec_filled(area.width as int) {
                    '#'
                } else {
                    ' '
                },
                fg: Color::Reset,
                bg: Color::Reset,
                style: Style::spec_plain(),
            })
    }

    /// Paints the bar on the area's first row.
    pub fn render(&self, area: Rect, buf: &mut Buffer)
        requires
            old(buf).wf(),
            area.wf(),
            self.wf(),
        ensures
            confined_to(*old(buf), *final(buf), area),
            self.painted(area, *final(buf)),
    {
        if area.height == 0 {
            return ;
        }
        proof {
            vstd::arithmetic::mul::lemma_mul_nonnegative(self.percent as int, area.width as int);
            vstd::arithmetic::div_mod::lemma_div_pos_is_pos(
                self.percent as int * area.width as int,
                100,
            );
            vstd::arithmetic::mul::lemma_mul_inequality(self.percent as int, 100, area.width as int);
            vstd::arithmetic::div_mod::lemma_div_is_ordered(
                self.percent as int * area.width as int,
                100 * area.width as int,
                100,
            );
            vstd::arithmetic::div_mod::lemma_div_multiples_vanish(area.width as int, 100);
        }
        let filled: u16 = (((self.percent as u32) * (area.width as u32)) / 100) as u16;
        let mut j: u16 = 0;
        while j < area.width
            invariant
                j <= area.width,
                area.wf(),
                area.height > 0,
                buf.wf(),
                buf.same_size(*old(buf)),
                filled as int == self.spec_filled(area.width as int),
                filled <= area.width,
                confined_to(*old(buf), *buf, area),
                forall|cx: int|
                    area.x <= cx < area.x + j && buf.spec_in_bounds(cx, area.y as int)
                        ==> buf.cell_at(cx, area.y as int) == (Cell {
                        symbol: if cx - area.x < filled as int {
                            '#'
                        } else {
                            ' '
                        },
                        fg: Color::Reset,
                        bg: Color::Reset,
                        style: Style::spec_plain(),
                    }),
            decreases area.width - j,
        {
            let symbol = if j < filled {
                '#'
            } else {
                ' '
            };
            buf.set(area.x + j, area.y, Cell::new(symbol, Color::Reset, Color::Reset, Style::new()));
            j = j + 1;
        }
    }
}

/// A titled list of text items, one per row under the title.
pub struct List {
    pub title: String,
    pub items: Vec<String>,
}

impl List {
    pub fn new(title: String) -> (l: List)
        ensures
            l.title@ == title@,
            l.items@.len() == 0,
    {
        List { title, items: Vec::new() }
    }

    pub fn add_item(&mut self, item: String)
        ensures
            final(self).items@ == old(self).items@.push(item),
            final(self).title@ == old(self).title@,
    {
        self.items.push(item);
    }

    /// The title stands bold on the first row and item `k` stands plain on
    /// row `k + 1`, each clipped to the area.
    pub open spec fn painted(self, area: Rect, buf: Buffer) -> bool {
        &&& row_painted(area, 0, self.title@, Color::Reset, Color::Reset, Style::spec_bold(), buf)
        &&& forall|k: int|
            0 <= k < self.items@.len() ==> row_painted(
                area,
                k + 1,
                (#[trigger] self.items@[k])@,
                Color::Reset,
                Color::Reset,
                Style::spec_plain(),
                buf,
            )
    }

    /// Paints the title bold on the first row and one item per following
    /// row, clipped to the area.
    pub fn render(&self, area: Rect, buf: &mut Buffer)
        requires
            old(buf).wf(),
            area.wf(),
        ensures
            confined_to(*old(buf), *final(buf), area),
            self.painted(area, *final(buf)),
    {
        draw_text(buf, area, 0, self.title.as_str(), Color::Reset, Color::Reset, Style::new().bold());
        let mut k: usize = 0;
        while k < self.items.len()
            invariant
                k <= self.items@.len(),
                area.wf(),
                buf.wf(),
                buf.same_size(*old(buf)),
                confined_to(*old(buf), *buf, area),
                row_painted(
                    area,
                    0,
                    self.title@,
                    Color::Reset,
                    Color::Reset,
                    Style::spec_bold(),
                    *buf,
                ),
                forall|m: int|
                    0 <= m < k ==> row_painted(
                        area,
                        m + 1,
                        (#[trigger] self.items@[m])@,
                        Color::Reset,
                        Color::Reset,
                        Style::spec_plain(),
                        *buf,
                    ),
            decreases self.items@.len() - k,
        {
            let ghost pre = *buf;
            if k + 1 < area.height as usize {
                let row: u16 = (k + 1) as u16;
                draw_text(
                    buf,
                    area,
                    row,
                    self.items[k].as_str(),
                    Color::Reset,
                    Color::Reset,
                    Style::new(),
                );
                proof {
                    lemma_confined_trans(*old(buf), pre, *buf, area);
                    lemma_row_painted_frame(
                        area,
                        0,
                        self.title@,
                        Color::Reset,
                        Color::Reset,
                        Style::spec_bold(),
                        pre,
                        *buf,
                    );
                    assert forall|m: int| 0 <= m < k implies row_painted(
                        area,
                        m + 1,
                        (#[trigger] self.items@[m])@,
                        Color::Reset,
                        Color::Reset,
                        Style::spec_plain(),
                        *buf,
                    ) by {
                        lemma_row_painted_frame(
                            area,
                            m + 1,
                            self.items@[m]@,
                            Color::Reset,
                            Color::Reset,
                            Style::spec_plain(),
                            pre,
                            *buf,
                        );
                    }
                }
            }
            k = k + 1;
        }
    }
}

/// A titled table; each added row is a sequence of cell texts laid out in
/// equal-weight columns by the layout solver.
pub struct Table {
    pub title: String,
    pub rows: Vec<Vec<String>>,
}

impl Table {
    pub fn new(title: String) -> (t: Table)
        ensures
            t.title@ == title@,
            t.rows@.len() == 0,
    {
        Table { title, rows: Vec::new() }
    }

    pub fn add_row(&mut self, row: Vec<String>)
        ensures
            final(self).rows@ == old(self).rows@.push(row),
            final(self).title@ == old(self).title@,
    {
        self.rows.push(row);
    }

    /// The title stands bold on the area's first row.
    pub open spec fn painted(self, area: Rect, buf: Buffer) -> bool {
        row_painted(area, 0, self.title@, Color::Reset, Color::Reset, Style::spec_bold(), buf)
    }

    /// Paints the title on the first row, then each table row on its own
    /// row, splitting the width into one equal-weight column per cell.
    pub fn render(&self, area: Rect, buf: &mut Buffer)
        requires
            old(buf).wf(),
            area.wf(),
        ensures
            confined_to(*old(buf), *final(buf), area),
            self.painted(area, *final(buf)),
    {
        draw_text(buf, area, 0, self.title.as_str(), Color::Reset, Color::Reset, Style::new().bold());
        let mut r: usize = 0;
        while r < self.rows.len()
            invariant
                r <= self.rows@.len(),
                area.wf(),
                buf.wf(),
                buf.same_size(*old(buf)),
                confined_to(*old(buf), *buf, area),
                row_painted(
                    area,
                    0,
                    self.title@,
                    Color::Reset,
                    Color::Reset,
                    Style::spec_bold(),
                    *buf,
                ),
            decreases self.rows@.len() - r,
        {
            let ghost pre = *buf;
            if r + 1 < area.height as usize {
                let row_y: u16 = area.y + (r as u16) + 1;
                let row_area = Rect { x: area.x, y: row_y, width: area.width, height: 1 };
                let row = &self.rows[r];
                let mut cons: Vec<Constraint> = Vec::new();
                let mut c: usize = 0;
                while c < row.len()
                    invariant
                        c <= row@.len(),
                        cons@.len() == c,
                    decreases row@.len() - c,
                {
                    cons.push(Constraint::Fill(1));
                    c = c + 1;
                }
                let chunks = solve(Direction::Horizontal, &cons, row_area);
                proof {
                    assert forall|cx: int, cy: int| row_area.spec_contains(cx, cy)
                        implies area.spec_contains(cx, cy) by {}
                }
                let mut c2: usize = 0;
                while c2 < chunks.len()
                    invariant
                        c2 <= chunks@.len(),
                        chunks@.len() == row@.len(),
                        row@ == self.rows@[r as int]@,
                        r < self.rows@.len(),
                        area.wf(),
                        row_area.wf(),
                        row_area.y == area.y + 1 + r,
                        forall|i: int| 0 <= i < chunks@.len() ==> (#[trigger] chunks@[i]).wf(),
                        forall|i: int| 0 <= i < chunks@.len() ==> (#[trigger] chunks@[i]).y == row_area.y,
                        forall|i: int, cx: int, cy: int|
                            0 <= i < chunks@.len() && chunks@[i].spec_contains(cx, cy)
                                ==> row_area.spec_contains(cx, cy),
                        forall|cx: int, cy: int|
                            row_area.spec_contains(cx, cy) ==> area.spec_contains(cx, cy),
                        buf.wf(),
                        buf.same_size(*old(buf)),
                        confined_to(*old(buf), *buf, area),
                        row_painted(
                            area,
                            0,
                            self.title@,
                            Color::Reset,
                            Color::Reset,
                            Style::spec_bold(),
                            *buf,
                        ),
                    decreases chunks@.len() - c2,
                {
                    let ghost pre2 = *buf;
                    draw_text(
                        buf,
                        chunks[c2],
                        0,
                        row[c2].as_str(),
                        Color::Reset,
                        Color::Reset,
                        Style::new(),
                    );
                    proof {
                        lemma_confined_mono(pre2, *buf, chunks@[c2 as int], area);
                        lemma_confined_trans(*old(buf), pre2, *buf, area);
                        lemma_row_painted_frame(
                            area,
                            0,
                            self.title@,
                            Color::Reset,
                            Color::Reset,
                            Style::spec_bold(),
                            pre2,
                            *buf,
                        );
                    }
                    c2 = c2 + 1;
                }
            }
            proof {
                lemma_confined_trans(*old(buf), pre, *buf, area);
            }
            r = r + 1;
        }
    }
}

/// A titled chart holding a series of data points.
pub struct Chart {
    pub title: String,
    pub points: Vec<(u64, u64)>,
}

impl Chart {
    pub fn new(title: String) -> (c: Chart)
        ensures
            c.title@ == title@,
            c.points@.len() == 0,
    {
        Chart { title, points: Vec::new() }
    }

    pub fn add_point(&mut self, x: u64, y: u64)
        ensures
            final(self).points@ == old(self).points@.push((x, y)),
            final(self).title@ == old(self).title@,
    {
        self.points.push((x, y));
    }

    /// The title stands bold on the area's first row.
    pub open spec fn painted(self, area: Rect, buf: Buffer) -> bool {
        row_painted(area, 0, self.title@, Color::Reset, Color::Reset, Style::spec_bold(), buf)
    }

    /// Paints the title bold on the first row.
    pub fn render(&self, area: Rect, buf: &mut Buffer)
        requires
            old(buf).wf(),
            area.wf(),
        ensures
            confined_to(*old(buf), *final(buf), area),
            self.painted(area, *final(buf)),
    {
        draw_text(buf, area, 0, self.title.as_str(), Color::Reset, Color::Reset, Style::new().bold());
    }
}

/// A modal panel: a one-row title over a content region, carved out of the
/// area by the layout solver.
pub struct Modal {
    pub title: String,
    pub content: String,
}

impl Modal {
    pub fn new(title: String, content: String) -> (m: Modal)
        ensures
            m.title@ == title@,
            m.content@ == content@,
    {
        Modal { title, content }
    }

    /// The title stands bold on the area's first row and the content plain
    /// on the second.
    pub open spec fn painted(self, area: Rect, buf: Buffer) -> bool {
        &&& row_painted(area, 0, self.title@, Color::Reset, Color::Reset, Style::spec_bold(), buf)
        &&& row_painted(area, 1, self.content@, Color::Reset, Color::Reset, Style::spec_plain(), buf)
    }

    /// Splits the area into a one-row title strip and a content region,
    /// then paints the title bold and the content below it.
    pub fn render(&self, area: Rect, buf: &mut Buffer)
        requires
            old(buf).wf(),
            area.wf(),
        ensures
            confined_to(*old(buf), *final(buf), area),
            self.painted(area, *final(buf)),
    {
        let mut cons: Vec<Constraint> = Vec::new();
        cons.push(Constraint::Fixed(1));
        cons.push(Constraint::Fill(1));
        let chunks = solve(Direction::Vertical, &cons, area);
        proof {
            let cs = cons@;
            let e = area.height as int;
            assert(cs[0] == Constraint::Fixed(1));
            assert(cs[1] == Constraint::Fill(1));
            assert(base_total(cs, e, 0) == 0);
            assert(base_total(cs, e, 1) == 1);
            assert(base_total(cs, e, 2) == 1);
            assert(weight_total(cs, 0) == 0);
            assert(weight_total(cs, 1) == 0);
            assert(weight_total(cs, 2) == 1);
            assert(last_fill(cs, 2) == 1);
            if e >= 1 {
                assert(spec_size_at(cs, e, 0) == 1);
                assert(share_total(cs, e - 1, 1, 0) == 0);
                assert(share_total(cs, e - 1, 1, 1) == 0);
                assert((e - 1) * 1 == e - 1) by (nonlinear_arith);
                assert(share_total(cs, e - 1, 1, 2) == e - 1);
                assert(spec_size_at(cs, e, 1) == e - 1);
                assert(size_total(cs, e, 0) == 0);
                assert(size_total(cs, e, 1) == 1);
                assert(chunks@[0] == (Rect {
                    x: area.x,
                    y: area.y,
                    width: area.width,
                    height: 1u16,
                }));
                assert(chunks@[1] == (Rect {
                    x: area.x,
                    y: (area.y + 1) as u16,
                    width: area.width,
                    height: (e - 1) as u16,
                }));
            }
        }
        let ghost pre = *buf;
        draw_text(
            buf,
            chunks[0],
            0,
            self.title.as_str(),
            Color::Reset,
            Color::Reset,
            Style::new().bold(),
        );
        proof {
            lemma_confined_mono(pre, *buf, chunks@[0], area);
            if area.height >= 1 {
                assert(row_painted(
                    area,
                    0,
                    self.title@,
                    Color::Reset,
                    Color::Reset,
                    Style::spec_bold(),
                    *buf,
                ));
            }
        }
        let ghost mid = *buf;
        draw_text(
            buf,
            chunks[1],
            0,
            self.content.as_str(),
            Color::Reset,
            Color::Reset,
            Style::new(),
        );
        proof {
            lemma_confined_mono(mid, *buf, chunks@[1], area);
            lemma_confined_trans(pre, mid, *buf, area);
            if area.height >= 1 {
                lemma_row_painted_frame(
                    area,
                    0,
                    self.title@,
                    Color::Reset,
                    Color::Reset,
                    Style::spec_bold(),
                    mid,
                    *buf,
                );
                if area.height >= 2 {
                    assert(row_painted(
                        area,
                        1,
                        self.content@,
                        Color::Reset,
                        Color::Reset,
                        Style::spec_plain(),
                        *buf,
                    ));
                }
            }
        }
    }
}

/// A labelled activity indicator.
pub struct Spinner {
    pub label: String,
}

impl Spinner {
    pub fn new(label: String) -> (s: Spinner)
        ensures
            s.label@ == label@,
    {
        Spinner { label }
    }

    /// The label stands plain on the area's first row.
    pub open spec fn painted(self, area: Rect, buf: Buffer) -> bool {
        row_painted(area, 0, self.label@, Color::Reset, Color::Reset, Style::spec_plain(), buf)
    }

    /// Paints the label on the area's first row.
    pub fn render(&self, area: Rect, buf: &mut Buffer)
        requires
            old(buf).wf(),
            area.wf(),
        ensures
            confined_to(*old(buf), *final(buf), area),
            self.painted(area, *final(buf)),
    {
        draw_text(buf, area, 0, self.label.as_str(), Color::Reset, Color::Reset, Style::new());
    }
}

/// The closed widget catalog: the render protocol dispatches over it.
pub enum Widget {
    Button(Button),
    Input(Input),
    Paragraph(Paragraph),
    Gauge(Gauge),
    List(List),
    Table(Table),
    Chart(Chart),
    Modal(Modal),
    Spinner(Spinner),
}

impl Widget {
    /// Every widget's gauge percentage is in range; other widgets carry no
    /// internal invariant.
    pub open spec fn wf(self) -> bool {
        match self {
            Widget::Gauge(g) => g.wf(),
            _ => true,
        }
    }

    /// What this widget's render leaves in the buffer inside `area`.
    pub open spec fn painted(self, area: Rect, buf: Buffer) -> bool {
        match self {
            Widget::Button(w) => w.painted(area, buf),
            Widget::Input(w) => w.painted(area, buf),
            Widget::Paragraph(w) => w.painted(area, buf),
            Widget::Gauge(w) => w.painted(area, buf),
            Widget::List(w) => w.painted(area, buf),
            Widget::Table(w) => w.painted(area, buf),
            Widget::Chart(w) => w.painted(area, buf),
            Widget::Modal(w) => w.painted(area, buf),
            Widget::Spinner(w) => w.painted(area, buf),
        }
    }

    /// Paints this widget into `area`: it never writes outside `area`, and
    /// afterwards the buffer holds what the widget's `painted` predicate
    /// states.
    pub fn render(&self, area: Rect, buf: &mut Buffer)
        requires
            old(buf).wf(),
            area.wf(),
            self.wf(),
        ensures
            confined_to(*old(buf), *final(buf), area),
            self.painted(area, *final(buf)),
    {
        match self {
            Widget::Button(w) => w.render(area, buf),
            Widget::Input(w) => w.render(area, buf),
            Widget::Paragraph(w) => w.render(area, buf),
            Widget::Gauge(w) => w.render(area, buf),
            Widget::List(w) => w.render(area, buf),
            Widget::Table(w) => w.render(area, buf),
            Widget::Chart(w) => w.render(area, buf),
            Widget::Modal(w) => w.render(area, buf),
            Widget::Spinner(w) => w.render(area, buf),
        }
    }
}

/// Law: what a widget painted inside `area` survives any later paint that
/// leaves the area's cells unchanged.
pub proof fn lemma_painted_frame(w: Widget, area: Rect, b1: Buffer, b2: Buffer)
    requires
        w.painted(area, b1),
        b2.wf(),
        b2.same_size(b1),
        forall|cx: int, cy: int|
            b1.spec_in_bounds(cx, cy) && area.spec_contains(cx, cy) ==> b2.cell_at(cx, cy)
                == b1.cell_at(cx, cy),
    ensures
        w.painted(area, b2),
{
    match w {
        Widget::Button(v) => {
            lemma_row_painted_frame(
                area,
                0,
                v.label@,
                Color::Reset,
                Color::Reset,
                v.render_style(),
                b1,
                b2,
            );
        },
        Widget::Input(v) => {
            lemma_row_painted_frame(
                area,
                0,
                v.shown_text(),
                Color::Reset,
                Color::Reset,
                v.render_style(),
                b1,
                b2,
            );
        },
        Widget::Paragraph(v) => {
            lemma_row_painted_frame(
                area,
                0,
                v.text@,
                Color::Reset,
                Color::Reset,
                Style::spec_plain(),
                b1,
                b2,
            );
        },
        Widget::Gauge(v) => {
            if area.height > 0 {
                assert forall|cx: int|
                    area.x <= cx < area.x + area.width && b2.spec_in_bounds(cx, area.y as int)
                        implies b2.cell_at(cx, area.y as int) == (Cell {
                    symbol: if cx - area.x < v.spec_filled(area.width as int) {
                        '#'
                    } else {
                        ' '
                    },
                    fg: Color::Reset,
                    bg: Color::Reset,
                    style: Style::spec_plain(),
                }) by {
                    assert(b1.spec_in_bounds(cx, area.y as int));
                    assert(area.spec_contains(cx, area.y as int));
                }
            }
        },
        Widget::List(v) => {
            lemma_row_painted_frame(
                area,
                0,
                v.title@,
                Color::Reset,
                Color::Reset,
                Style::spec_bold(),
                b1,
                b2,
            );
            assert forall|k: int| 0 <= k < v.items@.len() implies row_painted(
                area,
                k + 1,
                (#[trigger] v.items@[k])@,
                Color::Reset,
                Color::Reset,
                Style::spec_plain(),
                b2,
            ) by {
                lemma_row_painted_frame(
                    area,
                    k + 1,
                    v.items@[k]@,
                    Color::Reset,
                    Color::Reset,
                    Style::spec_plain(),
                    b1,
                    b2,
                );
            }
        },
        Widget::Table(v) => {
            lemma_row_painted_frame(
                area,
                0,
                v.title@,
                Color::Reset,
                Color::Reset,
                Style::spec_bold(),
                b1,
                b2,
            );
        },
        Widget::Chart(v) => {
            lemma_row_painted_frame(
                area,
                0,
                v.title@,
                Color::Reset,
                Color::Reset,
                Style::spec_bold(),
                b1,
                b2,
            );
        },
        Widget::Modal(v) => {
            lemma_row_painted_frame(
                area,
                0,
                v.title@,
                Color::Reset,
                Color::Reset,
                Style::spec_bold(),
                b1,
                b2,
            );
            lemma_row_painted_frame(
                area,
                1,
                v.content@,
                Color::Reset,
                Color::Reset,
                Style::spec_plain(),
                b1,
                b2,
            );
        },
        Widget::Spinner(v) => {
            lemma_row_painted_frame(
                area,
                0,
                v.label@,
                Color::Reset,
                Color::Reset,
                Style::spec_plain(),
                b1,
                b2,
            );
        },
    }
}

} // verus!
