//! The cell grid: styled character cells, fixed-size 2D buffers, and the
//! cell-level diff between two equally sized buffers.

use vstd::prelude::*;
use vstd::arithmetic::div_mod::{
    lemma_div_is_ordered, lemma_div_pos_is_pos, lemma_fundamental_div_mod,
    lemma_fundamental_div_mod_converse, lemma_mod_pos_bound,
};
use vstd::arithmetic::mul::lemma_mul_is_commutative;
use vstd::seq_lib::lemma_seq_contains_after_push;
use vstd::string::StrSliceExecFns;
use crate::style::{Color, Style};

verus! {

/// One terminal character position: a display character, foreground and
/// background colors, and a style attribute set.
#[derive(Clone, Copy, PartialEq, Eq, Structural, Debug)]
pub struct Cell {
    pub symbol: char,
    pub fg: Color,
    pub bg: Color,
    pub style: Style,
}

impl Cell {
    /// The default cell: a blank space with default colors and no attributes.
    pub open spec fn spec_default() -> Cell {
        Cell { symbol: ' ', fg: Color::Reset, bg: Color::Reset, style: Style::spec_plain() }
    }

    pub fn empty() -> (c: Cell)
        ensures
            c == Cell::spec_default(),
    {
        Cell { symbol: ' ', fg: Color::Reset, bg: Color::Reset, style: Style::new() }
    }

    pub fn new(symbol: char, fg: Color, bg: Color, style: Style) -> (c: Cell)
        ensures
            c == (Cell { symbol, fg, bg, style }),
    {
        Cell { symbol, fg, bg, style }
    }
}

/// A fixed-size 2D grid of cells, stored row-major.
pub struct Buffer {
    pub width: u16,
    pub height: u16,
    pub cells: Vec<Cell>,
}

impl Buffer {
    /// The cell vector holds exactly one cell per grid position.
    pub open spec fn wf(self) -> bool {
        self.cells@.len() == self.width as int * self.height as int
    }

    /// Row-major index of cell `(x, y)`.
    pub open spec fn spec_index(self, x: int, y: int) -> int {
        y * self.width + x
    }

    pub open spec fn spec_in_bounds(self, x: int, y: int) -> bool {
        0 <= x < self.width && 0 <= y < self.height
    }

    /// The cell stored at `(x, y)`.
    pub open spec fn cell_at(self, x: int, y: int) -> Cell {
        self.cells@[self.spec_index(x, y)]
    }

    /// Every cell holds the default cell.
    pub open spec fn all_default(self) -> bool {
        forall|i: int| 0 <= i < self.cells@.len() ==> self.cells@[i] == Cell::spec_default()
    }

    /// Same dimensions as `other`.
    pub open spec fn same_size(self, other: Buffer) -> bool {
        self.width == other.width && self.height == other.height
    }

    /// An in-bounds position indexes into the cell vector, and the vector is
    /// never longer than the largest possible grid.
    pub proof fn lemma_index_in_range(self, x: int, y: int)
        requires
            self.wf(),
            self.spec_in_bounds(x, y),
        ensures
            0 <= self.spec_index(x, y) < self.cells@.len(),
            self.cells@.len() <= 0xffff * 0xffff,
    {
        let w = self.width as int;
        let h = self.height as int;
        assert(0 <= y * w + x < w * h) by (nonlinear_arith)
            requires
                0 <= x < w,
                0 <= y < h,
        ;
        assert(w * h <= 0xffff * 0xffff) by (nonlinear_arith)
            requires
                0 <= w <= 0xffff,
                0 <= h <= 0xffff,
        ;
    }

    /// Distinct in-bounds positions have distinct row-major indices.
    pub proof fn lemma_index_injective(self, x1: int, y1: int, x2: int, y2: int)
        requires
            self.spec_in_bounds(x1, y1),
            self.spec_in_bounds(x2, y2),
            !(x1 == x2 && y1 == y2),
        ensures
            self.spec_index(x1, y1) != self.spec_index(x2, y2),
    {
        let w = self.width as int;
        assert(y1 * w + x1 != y2 * w + x2) by (nonlinear_arith)
            requires
                0 <= x1 < w,
                0 <= x2 < w,
                !(x1 == x2 && y1 == y2),
        ;
    }

    /// A buffer of the given size, every cell default.
    pub fn new(width: u16, height: u16) -> (b: Buffer)
        ensures
            b.width == width,
            b.height == height,
            b.wf(),
            b.all_default(),
    {
        proof {
            assert(width as int * height as int <= 0xffff * 0xffff) by (nonlinear_arith)
                requires
                    0 <= width as int <= 0xffff,
                    0 <= height as int <= 0xffff,
            ;
        }
        let n: usize = (width as usize) * (height as usize);
        let mut cells: Vec<Cell> = Vec::new();
        let mut i: usize = 0;
        while i < n
            invariant
                i <= n,
                cells@.len() == i,
                forall|j: int| 0 <= j < i ==> cells@[j] == Cell::spec_default(),
            decreases n - i,
        {
            cells.push(Cell::empty());
            i = i + 1;
        }
        Buffer { width, height, cells }
    }

    /// Reallocates the grid to the new size; all prior content is discarded
    /// and every cell is reset to the default cell.
    pub fn resize(&mut self, width: u16, height: u16)
        ensures
            final(self).width == width,
            final(self).height == height,
            final(self).wf(),
            final(self).all_default(),
    {
        *self = Buffer::new(width, height);
    }

    fn index_of(&self, x: u16, y: u16) -> (i: usize)
        requires
            self.wf(),
            self.spec_in_bounds(x as int, y as int),
        ensures
            i == self.spec_index(x as int, y as int),
            i < self.cells@.len(),
    {
        proof {
            self.lemma_index_in_range(x as int, y as int);
        }
        (y as usize) * (self.width as usize) + (x as usize)
    }

    /// The cell at an in-bounds position.
    pub fn get(&self, x: u16, y: u16) -> (c: Cell)
        requires
            self.wf(),
            self.spec_in_bounds(x as int, y as int),
        ensures
            c == self.cell_at(x as int, y as int),
    {
        let i = self.index_of(x, y);
        self.cells[i]
    }

    /// Writes `cell` at `(x, y)`. Out-of-range coordinates are a no-op —
    /// never a failure — and alter no cell.
    pub fn set(&mut self, x: u16, y: u16, cell: Cell)
        requires
            old(self).wf(),
        ensures
            final(self).wf(),
            final(self).same_size(*old(self)),
            old(self).spec_in_bounds(x as int, y as int) ==> {
                &&& final(self).cells@ == old(self).cells@.update(
                    old(self).spec_index(x as int, y as int),
                    cell,
                )
                &&& final(self).cell_at(x as int, y as int) == cell
            },
            !old(self).spec_in_bounds(x as int, y as int) ==> final(self).cells@ == old(
                self,
            ).cells@,
            forall|cx: int, cy: int|
                old(self).spec_in_bounds(cx, cy) && !(cx == x as int && cy == y as int)
                    ==> final(self).cell_at(cx, cy) == old(self).cell_at(cx, cy),
    {
        if x < self.width && y < self.height {
            let i = self.index_of(x, y);
            self.cells[i] = cell;
            proof {
                assert forall|cx: int, cy: int|
                    old(self).spec_in_bounds(cx, cy) && !(cx == x as int && cy == y as int)
                        implies self.cell_at(cx, cy) == old(self).cell_at(cx, cy) by {
                    old(self).lemma_index_in_range(cx, cy);
                    old(self).lemma_index_injective(cx, cy, x as int, y as int);
                }
            }
        }
    }

    /// Writes `cell` at every position of the grid.
    pub fn fill(&mut self, cell: Cell)
        requires
            old(self).wf(),
        ensures
            final(self).wf(),
            final(self).same_size(*old(self)),
            forall|i: int|
                0 <= i < final(self).cells@.len() ==> final(self).cells@[i] == cell,
    {
        let n = self.cells.len();
        let mut i: usize = 0;
        while i < n
            invariant
                i <= n,
                self.wf(),
                self.same_size(*old(self)),
                n == self.cells@.len(),
                forall|j: int| 0 <= j < i ==> self.cells@[j] == cell,
            decreases n - i,
        {
            self.cells[i] = cell;
            i = i + 1;
        }
    }

    /// Writes the characters of `s` left to right starting at `(x, y)`, each
    /// with the given colors and style. Characters that would fall outside
    /// the grid are dropped; no other cell changes.
    pub fn set_string(&mut self, x: u16, y: u16, s: &str, fg: Color, bg: Color, style: Style)
        requires
            old(self).wf(),
        ensures
            final(self).wf(),
            final(self).same_size(*old(self)),
            forall|cx: int, cy: int|
                old(self).spec_in_bounds(cx, cy) && !(cy == y as int && x as int <= cx < x as int
                    + s@.len()) ==> final(self).cell_at(cx, cy) == old(self).cell_at(cx, cy),
            forall|j: int|
                0 <= j < s@.len() && old(self).spec_in_bounds(x as int + j, y as int)
                    ==> final(self).cell_at(x as int + j, y as int) == (Cell {
                    symbol: s@[j],
                    fg,
                    bg,
                    style,
                }),
    {
        let len = s.unicode_len();
        if y >= self.height || x >= self.width {
            return ;
        }
        let limit_w: usize = (self.width - x) as usize;
        let mut i: usize = 0;
        while i < len && i < limit_w
            invariant
                self.wf(),
                self.same_size(*old(self)),
                x < old(self).width,
                y < old(self).height,
                len == s@.len(),
                limit_w == old(self).width - x,
                i <= len,
                i <= limit_w,
                forall|cx: int, cy: int|
                    old(self).spec_in_bounds(cx, cy) && !(cy == y as int && x as int <= cx < x
                        as int + i) ==> self.cell_at(cx, cy) == old(self).cell_at(cx, cy),
                forall|j: int|
                    0 <= j < i ==> self.cell_at(x as int + j, y as int) == (Cell {
                        symbol: s@[j],
                        fg,
                        bg,
                        style,
                    }),
            decreases len - i,
        {
            let c = s.get_char(i);
            let cx: u16 = x + (i as u16);
            self.set(cx, y, Cell { symbol: c, fg, bg, style });
            i = i + 1;
        }
    }

    /// The diff of `a` against `b` over the first `n` linear positions, in
    /// row-major order: one `(x, y, cell)` entry, carrying `a`'s cell, for
    /// every position where the two buffers disagree.
    pub open spec fn spec_diff_upto(a: Buffer, b: Buffer, n: int) -> Seq<(u16, u16, Cell)>
        decreases n,
    {
        if n <= 0 {
            Seq::empty()
        } else {
            let i = n - 1;
            let prev = Buffer::spec_diff_upto(a, b, i);
            if a.cells@[i] == b.cells@[i] {
                prev
            } else {
                prev.push(
                    (((i % (a.width as int)) as u16), ((i / (a.width as int)) as u16), a.cells@[i]),
                )
            }
        }
    }

    /// The full diff of `a` against `b`.
    pub open spec fn spec_diff(a: Buffer, b: Buffer) -> Seq<(u16, u16, Cell)> {
        Buffer::spec_diff_upto(a, b, a.width as int * a.height as int)
    }

    /// Returns, in row-major order, every coordinate whose cell differs
    /// between `self` and `other`, together with `self`'s cell there: no
    /// entry where the cells agree, no omission where they differ.
    pub fn diff(&self, other: &Buffer) -> (out: Vec<(u16, u16, Cell)>)
        requires
            self.wf(),
            other.wf(),
            self.same_size(*other),
        ensures
            out@ == Buffer::spec_diff(*self, *other),
    {
        let mut out: Vec<(u16, u16, Cell)> = Vec::new();
        let n = self.cells.len();
        let mut idx: usize = 0;
        while idx < n
            invariant
                idx <= n,
                self.wf(),
                other.wf(),
                self.same_size(*other),
                n == self.cells@.len(),
                n == other.cells@.len(),
                out@ == Buffer::spec_diff_upto(*self, *other, idx as int),
            decreases n - idx,
        {
            let a = self.cells[idx];
            let b = other.cells[idx];
            if !(a == b) {
                proof {
                    assert(self.width as int * self.height as int > 0);
                    assert(self.width > 0) by (nonlinear_arith)
                        requires
                            self.width as int * self.height as int > 0,
                    ;
                }
                let x = (idx % (self.width as usize)) as u16;
                let y = (idx / (self.width as usize)) as u16;
                out.push((x, y, a));
            }
            idx = idx + 1;
        }
        out
    }

    /// Law: the diff over the first `n` positions is empty exactly when the
    /// buffers agree on each of those positions.
    proof fn lemma_diff_upto_empty_iff(a: Buffer, b: Buffer, n: int)
        ensures
            (Buffer::spec_diff_upto(a, b, n).len() == 0) <==> (forall|i: int|
                0 <= i < n ==> a.cells@[i] == b.cells@[i]),
        decreases n,
    {
        if n > 0 {
            Buffer::lemma_diff_upto_empty_iff(a, b, n - 1);
        }
    }

    /// The diff entry that linear position `i` contributes: the position's
    /// coordinates and `a`'s cell there.
    pub open spec fn entry_of(a: Buffer, i: int) -> (u16, u16, Cell) {
        (((i % (a.width as int)) as u16), ((i / (a.width as int)) as u16), a.cells@[i])
    }

    /// Over the first `n` linear positions, every differing position
    /// contributes its entry to the diff.
    proof fn lemma_diff_upto_complete(a: Buffer, b: Buffer, n: int)
        ensures
            forall|i: int|
                0 <= i < n && #[trigger] a.cells@[i] != b.cells@[i] ==> Buffer::spec_diff_upto(
                    a,
                    b,
                    n,
                ).contains(Buffer::entry_of(a, i)),
        decreases n,
    {
        if n > 0 {
            Buffer::lemma_diff_upto_complete(a, b, n - 1);
            if a.cells@[n - 1] != b.cells@[n - 1] {
                assert(Buffer::spec_diff_upto(a, b, n) == Buffer::spec_diff_upto(
                    a,
                    b,
                    n - 1,
                ).push(Buffer::entry_of(a, n - 1)));
                assert forall|i: int|
                    0 <= i < n && #[trigger] a.cells@[i] != b.cells@[i] implies Buffer::spec_diff_upto(
                    a,
                    b,
                    n,
                ).contains(Buffer::entry_of(a, i)) by {
                    lemma_seq_contains_after_push(
                        Buffer::spec_diff_upto(a, b, n - 1),
                        Buffer::entry_of(a, n - 1),
                        Buffer::entry_of(a, i),
                    );
                }
            }
        }
    }

    /// The entry `e` stems from one of the first `n` linear positions: one
    /// where the two buffers disagree and whose entry `e` is.
    pub open spec fn entry_stems(a: Buffer, b: Buffer, n: int, e: (u16, u16, Cell)) -> bool {
        exists|i: int|
            0 <= i < n && a.cells@[i] != b.cells@[i] && e == #[trigger] Buffer::entry_of(a, i)
    }

    /// Over the first `n` linear positions, every diff entry stems from
    /// some differing position.
    proof fn lemma_diff_upto_sound(a: Buffer, b: Buffer, n: int)
        ensures
            forall|k: int|
                0 <= k < Buffer::spec_diff_upto(a, b, n).len() ==> #[trigger] Buffer::entry_stems(
                    a,
                    b,
                    n,
                    Buffer::spec_diff_upto(a, b, n)[k],
                ),
        decreases n,
    {
        if n > 0 {
            Buffer::lemma_diff_upto_sound(a, b, n - 1);
            assert forall|k: int|
                0 <= k < Buffer::spec_diff_upto(a, b, n).len() implies #[trigger] Buffer::entry_stems(
                a,
                b,
                n,
                Buffer::spec_diff_upto(a, b, n)[k],
            ) by {
                if a.cells@[n - 1] != b.cells@[n - 1] && k == Buffer::spec_diff_upto(
                    a,
                    b,
                    n - 1,
                ).len() {
                    assert(Buffer::spec_diff_upto(a, b, n)[k] == Buffer::entry_of(a, n - 1));
                } else {
                    assert(Buffer::spec_diff_upto(a, b, n)[k] == Buffer::spec_diff_upto(
                        a,
                        b,
                        n - 1,
                    )[k]);
                    assert(Buffer::entry_stems(a, b, n - 1, Buffer::spec_diff_upto(a, b, n - 1)[k]));
                    let i = choose|i: int|
                        0 <= i < n - 1 && a.cells@[i] != b.cells@[i] && Buffer::spec_diff_upto(
                            a,
                            b,
                            n - 1,
                        )[k] == #[trigger] Buffer::entry_of(a, i);
                    assert(Buffer::spec_diff_upto(a, b, n)[k] == Buffer::entry_of(a, i));
                }
            }
        }
    }

    /// Law: the diff is a true minimal set. Every in-bounds coordinate
    /// whose cells differ appears in the diff with `a`'s cell — no
    /// omission — and every diff entry names an in-bounds coordinate whose
    /// cells differ, carrying `a`'s cell there — no false positive.
    pub proof fn lemma_diff_exact(a: Buffer, b: Buffer)
        requires
            a.wf(),
            b.wf(),
            a.same_size(b),
        ensures
            forall|x: int, y: int|
                a.spec_in_bounds(x, y) && #[trigger] a.cell_at(x, y) != b.cell_at(x, y)
                    ==> Buffer::spec_diff(a, b).contains(((x as u16), (y as u16), a.cell_at(x, y))),
            forall|k: int|
                0 <= k < Buffer::spec_diff(a, b).len() ==> {
                    let e = #[trigger] Buffer::spec_diff(a, b)[k];
                    &&& a.spec_in_bounds(e.0 as int, e.1 as int)
                    &&& a.cell_at(e.0 as int, e.1 as int) != b.cell_at(e.0 as int, e.1 as int)
                    &&& e.2 == a.cell_at(e.0 as int, e.1 as int)
                },
    {
        let w = a.width as int;
        let h = a.height as int;
        let n = w * h;
        if a.width == 0 || a.height == 0 {
            assert(w * h == 0) by (nonlinear_arith)
                requires
                    w == 0 || h == 0,
            ;
        } else {
            Buffer::lemma_diff_upto_complete(a, b, n);
            Buffer::lemma_diff_upto_sound(a, b, n);
            assert forall|x: int, y: int|
                a.spec_in_bounds(x, y) && #[trigger] a.cell_at(x, y) != b.cell_at(x, y)
                    implies Buffer::spec_diff(a, b).contains(
                ((x as u16), (y as u16), a.cell_at(x, y)),
            ) by {
                let i = y * w + x;
                a.lemma_index_in_range(x, y);
                lemma_fundamental_div_mod_converse(i, w, y, x);
                assert(a.cells@[i] == a.cell_at(x, y));
                assert(b.cells@[i] == b.cell_at(x, y));
                assert(Buffer::entry_of(a, i) == ((x as u16), (y as u16), a.cell_at(x, y)));
            }
            assert forall|k: int| 0 <= k < Buffer::spec_diff(a, b).len() implies {
                let e = #[trigger] Buffer::spec_diff(a, b)[k];
                &&& a.spec_in_bounds(e.0 as int, e.1 as int)
                &&& a.cell_at(e.0 as int, e.1 as int) != b.cell_at(e.0 as int, e.1 as int)
                &&& e.2 == a.cell_at(e.0 as int, e.1 as int)
            } by {
                let e = Buffer::spec_diff(a, b)[k];
                assert(Buffer::entry_stems(a, b, n, e));
                let i = choose|i: int|
                    0 <= i < n && a.cells@[i] != b.cells@[i] && e == #[trigger] Buffer::entry_of(
                        a,
                        i,
                    );
                assert(e == Buffer::entry_of(a, i));
                lemma_mod_pos_bound(i, w);
                lemma_div_pos_is_pos(i, w);
                assert((h - 1) * w + (w - 1) == w * h - 1) by (nonlinear_arith);
                lemma_fundamental_div_mod_converse(w * h - 1, w, h - 1, w - 1);
                lemma_div_is_ordered(i, w * h - 1, w);
                assert(i / w < h);
                lemma_fundamental_div_mod(i, w);
                lemma_mul_is_commutative(w, i / w);
                assert((i / w) * w + (i % w) == i);
                assert(e.0 as int == i % w);
                assert(e.1 as int == i / w);
                assert(a.cell_at(e.0 as int, e.1 as int) == a.cells@[i]);
                assert(b.cell_at(e.0 as int, e.1 as int) == b.cells@[i]);
            }
        }
    }

    /// Law: for buffers of equal size, the diff is empty exactly when the
    /// two buffers are cell-wise equal; the diff of a buffer against itself
    /// is always empty.
    pub proof fn lemma_diff_empty_iff_equal(a: Buffer, b: Buffer)
        requires
            a.wf(),
            b.wf(),
            a.same_size(b),
        ensures
            (Buffer::spec_diff(a, b).len() == 0) <==> (a.cells@ =~= b.cells@),
            Buffer::spec_diff(a, a).len() == 0,
    {
        Buffer::lemma_diff_upto_empty_iff(a, b, a.width as int * a.height as int);
        Buffer::lemma_diff_upto_empty_iff(a, a, a.width as int * a.height as int);
    }
}

} // verus!
