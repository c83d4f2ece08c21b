//! The layout solver: partitions a parent rectangle into child rectangles
//! according to a sequence of size constraints and a split direction.
//!
//! Fixed and percentage constraints are sized first (percentages round to
//! the nearest cell); the remaining space is split among fill constraints
//! in proportion to their weights, with the leftover cells from integer
//! rounding given to the last fill constraint. When the requested sizes
//! exceed the parent's extent, every request is scaled down proportionally;
//! the children never overflow the parent.

use vstd::prelude::*;
use vstd::arithmetic::div_mod::*;
use vstd::arithmetic::mul::*;
use crate::geom::Rect;

verus! {

/// A rule for sizing one child: an exact cell count, a percentage of the
/// parent's extent, or a weighted share of the space left over.
#[derive(Clone, Copy, PartialEq, Eq, Structural, Debug)]
pub enum Constraint {
    Fixed(u16),
    Percentage(u16),
    Fill(u16),
}

/// The axis along which a rectangle is split.
#[derive(Clone, Copy, PartialEq, Eq, Structural, Debug)]
pub enum Direction {
    Horizontal,
    Vertical,
}

impl Constraint {
    pub fn fixed(size: u16) -> (c: Constraint)
        ensures
            c == Constraint::Fixed(size),
    {
        Constraint::Fixed(size)
    }

    pub fn percentage(p: u16) -> (c: Constraint)
        requires
            p <= 100,
        ensures
            c == Constraint::Percentage(p),
    {
        Constraint::Percentage(p)
    }

    pub fn fill(weight: u16) -> (c: Constraint)
        ensures
            c == Constraint::Fill(weight),
    {
        Constraint::Fill(weight)
    }

    pub open spec fn is_fill(self) -> bool {
        match self {
            Constraint::Fill(_) => true,
            _ => false,
        }
    }

    pub open spec fn fill_weight(self) -> int {
        match self {
            Constraint::Fill(w) => w as int,
            _ => 0,
        }
    }

    /// The size this constraint asks for before fill space is distributed:
    /// fixed constraints ask for their cell count, percentages for the
    /// nearest-cell rounding of their share of the extent, fills for nothing.
    pub open spec fn spec_want(self, extent: int) -> int {
        match self {
            Constraint::Fixed(n) => n as int,
            Constraint::Percentage(p) => (extent * p + 50) / 100,
            Constraint::Fill(_) => 0,
        }
    }

    /// A requested size is never negative and never larger than `2^32`
    /// when the extent fits a `u16`.
    pub proof fn lemma_want_bounds(self, extent: int)
        requires
            0 <= extent <= 0xffff,
        ensures
            0 <= self.spec_want(extent) <= 0xffff_ffff,
    {
        match self {
            Constraint::Percentage(p) => {
                lemma_mul_nonnegative(extent, p as int);
                lemma_div_pos_is_pos(extent * p + 50, 100);
                lemma_mul_upper_bound(extent, 0xffff, p as int, 0xffff);
                lemma_div_is_ordered(extent * p + 50, (0xffff * 0xffff + 50) as int, 100);
            },
            _ => {},
        }
    }
}

/// Sum of the requested (pre-fill) sizes of the first `n` constraints.
pub open spec fn base_total(cs: Seq<Constraint>, extent: int, n: int) -> int
    decreases n,
{
    if n <= 0 {
        0
    } else {
        base_total(cs, extent, n - 1) + cs[n - 1].spec_want(extent)
    }
}

/// Sum of the fill weights of the first `n` constraints.
pub open spec fn weight_total(cs: Seq<Constraint>, n: int) -> int
    decreases n,
{
    if n <= 0 {
        0
    } else {
        weight_total(cs, n - 1) + cs[n - 1].fill_weight()
    }
}

/// Sum over the first `n` constraints of the rounded-down fill shares of
/// `rem` cells split by weight out of `w_total`.
pub open spec fn share_total(cs: Seq<Constraint>, rem: int, w_total: int, n: int) -> int
    decreases n,
{
    if n <= 0 {
        0
    } else {
        share_total(cs, rem, w_total, n - 1) + if cs[n - 1].is_fill() {
            rem * cs[n - 1].fill_weight() / w_total
        } else {
            0
        }
    }
}

/// Index of the last fill constraint among the first `n`, or `-1` if none.
pub open spec fn last_fill(cs: Seq<Constraint>, n: int) -> int
    decreases n,
{
    if n <= 0 {
        -1
    } else if cs[n - 1].is_fill() {
        n - 1
    } else {
        last_fill(cs, n - 1)
    }
}

/// The solved size of constraint `i`: proportional scaling when the
/// requests overflow the extent; otherwise the request itself for fixed and
/// percentage constraints, and the weighted share of the leftover space for
/// fills, with the rounding remainder going to the last fill.
pub open spec fn spec_size_at(cs: Seq<Constraint>, extent: int, i: int) -> int {
    let bt = base_total(cs, extent, cs.len() as int);
    if bt > extent {
        cs[i].spec_want(extent) * extent / bt
    } else if !cs[i].is_fill() {
        cs[i].spec_want(extent)
    } else {
        let wt = weight_total(cs, cs.len() as int);
        if wt <= 0 {
            0
        } else {
            let rem = extent - bt;
            let share = rem * cs[i].fill_weight() / wt;
            if i == last_fill(cs, cs.len() as int) {
                share + (rem - share_total(cs, rem, wt, cs.len() as int))
            } else {
                share
            }
        }
    }
}

/// Sum of the solved sizes of the first `n` constraints.
pub open spec fn size_total(cs: Seq<Constraint>, extent: int, n: int) -> int
    decreases n,
{
    if n <= 0 {
        0
    } else {
        size_total(cs, extent, n - 1) + spec_size_at(cs, extent, n - 1)
    }
}

/// The rectangle assigned to constraint `i`: child rectangles sit side by
/// side along the split axis, starting at the parent's origin, and span the
/// parent fully across the other axis.
pub open spec fn spec_chunk(direction: Direction, cs: Seq<Constraint>, area: Rect, i: int) -> Rect {
    match direction {
        Direction::Horizontal => Rect {
            x: (area.x + size_total(cs, area.width as int, i)) as u16,
            y: area.y,
            width: spec_size_at(cs, area.width as int, i) as u16,
            height: area.height,
        },
        Direction::Vertical => Rect {
            x: area.x,
            y: (area.y + size_total(cs, area.height as int, i)) as u16,
            width: area.width,
            height: spec_size_at(cs, area.height as int, i) as u16,
        },
    }
}

/// The sum of two rounded-down quotients never exceeds the rounded-down
/// quotient of the sum.
proof fn lemma_div_superadd(a: int, b: int, d: int)
    requires
        d > 0,
        a >= 0,
        b >= 0,
    ensures
        a / d + b / d <= (a + b) / d,
{
    lemma_fundamental_div_mod(a, d);
    lemma_fundamental_div_mod(b, d);
    lemma_mod_pos_bound(a, d);
    lemma_mod_pos_bound(b, d);
    let q1 = a / d;
    let r1 = a % d;
    let q2 = b / d;
    let r2 = b % d;
    lemma_mul_is_distributive_add(d, q1, q2);
    lemma_mul_is_commutative(d, q1 + q2);
    lemma_mul_is_commutative(d, q1);
    lemma_mul_is_commutative(d, q2);
    if r1 + r2 < d {
        lemma_fundamental_div_mod_converse(a + b, d, q1 + q2, r1 + r2);
    } else {
        lemma_mul_is_distributive_add_other_way(d, q1 + q2, 1);
        assert(1 * d == d) by (nonlinear_arith);
        lemma_fundamental_div_mod_converse(a + b, d, q1 + q2 + 1, r1 + r2 - d);
    }
}

/// Scaling `e` by a fraction `x / d` with `x <= d` yields a value between
/// `0` and `e`.
proof fn lemma_scale_le(x: int, e: int, d: int)
    requires
        0 <= x <= d,
        0 <= e,
        d > 0,
    ensures
        0 <= x * e / d <= e,
{
    lemma_mul_nonnegative(x, e);
    lemma_div_pos_is_pos(x * e, d);
    lemma_mul_inequality(x, d, e);
    lemma_div_is_ordered(x * e, d * e, d);
    lemma_div_multiples_vanish(e, d);
}

/// Requested sizes are nonnegative, so their partial sums are nonnegative
/// and every single request is at most the total.
proof fn lemma_base_total_bounds(cs: Seq<Constraint>, extent: int, n: int)
    requires
        0 <= extent <= 0xffff,
        0 <= n <= cs.len(),
    ensures
        0 <= base_total(cs, extent, n) <= n * 0x1_0000_0000,
        forall|i: int| 0 <= i < n ==> cs[i].spec_want(extent) <= base_total(cs, extent, n),
    decreases n,
{
    if n > 0 {
        lemma_base_total_bounds(cs, extent, n - 1);
        cs[n - 1].lemma_want_bounds(extent);
        lemma_mul_is_distributive_add_other_way(0x1_0000_0000, n - 1, 1);
    }
}

/// Fill weights are nonnegative, so their partial sums are nonnegative and
/// every single weight is at most the total.
proof fn lemma_weight_total_bounds(cs: Seq<Constraint>, n: int)
    requires
        0 <= n <= cs.len(),
    ensures
        0 <= weight_total(cs, n) <= n * 0x1_0000,
        forall|i: int| 0 <= i < n ==> cs[i].fill_weight() <= weight_total(cs, n),
    decreases n,
{
    if n > 0 {
        lemma_weight_total_bounds(cs, n - 1);
        lemma_mul_is_distributive_add_other_way(0x1_0000, n - 1, 1);
    }
}

/// When the total fill weight is positive, some fill constraint exists, and
/// `last_fill` names the last one.
proof fn lemma_last_fill_props(cs: Seq<Constraint>, n: int)
    requires
        0 <= n <= cs.len(),
    ensures
        -1 <= last_fill(cs, n) < n,
        last_fill(cs, n) >= 0 ==> cs[last_fill(cs, n)].is_fill(),
        weight_total(cs, n) > 0 ==> last_fill(cs, n) >= 0,
        forall|i: int| last_fill(cs, n) < i < n ==> !cs[i].is_fill(),
    decreases n,
{
    if n > 0 {
        lemma_last_fill_props(cs, n - 1);
        lemma_weight_total_bounds(cs, n - 1);
    }
}

/// Every fill share is between `0` and `rem`, partial share sums stay
/// between `0` and the weight-proportional bound, and each single share is
/// at most the partial sum.
proof fn lemma_share_total_bounds(cs: Seq<Constraint>, rem: int, w_total: int, n: int)
    requires
        0 <= rem,
        w_total >= weight_total(cs, cs.len() as int),
        w_total > 0,
        0 <= n <= cs.len(),
    ensures
        0 <= share_total(cs, rem, w_total, n),
        share_total(cs, rem, w_total, n) <= rem * weight_total(cs, n) / w_total,
        forall|i: int|
            0 <= i < n && cs[i].is_fill() ==> rem * cs[i].fill_weight() / w_total <= share_total(
                cs,
                rem,
                w_total,
                n,
            ),
    decreases n,
{
    lemma_weight_total_bounds(cs, n);
    lemma_mul_nonnegative(rem, weight_total(cs, n));
    lemma_div_pos_is_pos(rem * weight_total(cs, n), w_total);
    if n > 0 {
        lemma_share_total_bounds(cs, rem, w_total, n - 1);
        lemma_weight_total_bounds(cs, n - 1);
        let w = cs[n - 1].fill_weight();
        lemma_mul_nonnegative(rem, w);
        lemma_div_pos_is_pos(rem * w, w_total);
        lemma_mul_nonnegative(rem, weight_total(cs, n - 1));
        lemma_div_superadd(rem * weight_total(cs, n - 1), rem * w, w_total);
        lemma_mul_is_distributive_add(rem, weight_total(cs, n - 1), w);
        if cs[n - 1].is_fill() {
        } else {
            assert(w == 0);
        }
    }
}

/// The total fill share never exceeds the space left over.
proof fn lemma_share_total_le_rem(cs: Seq<Constraint>, rem: int, w_total: int)
    requires
        0 <= rem,
        w_total == weight_total(cs, cs.len() as int),
        w_total > 0,
    ensures
        0 <= share_total(cs, rem, w_total, cs.len() as int) <= rem,
{
    let n = cs.len() as int;
    lemma_share_total_bounds(cs, rem, w_total, n);
    lemma_mul_is_commutative(rem, w_total);
    lemma_div_multiples_vanish(rem, w_total);
}

/// Every solved size is between `0` and the extent.
pub proof fn lemma_size_at_bounds(cs: Seq<Constraint>, extent: int, i: int)
    requires
        0 <= extent <= 0xffff,
        0 <= i < cs.len(),
    ensures
        0 <= spec_size_at(cs, extent, i) <= extent,
{
    let n = cs.len() as int;
    let bt = base_total(cs, extent, n);
    lemma_base_total_bounds(cs, extent, n);
    cs[i].lemma_want_bounds(extent);
    if bt > extent {
        lemma_scale_le(cs[i].spec_want(extent), extent, bt);
    } else if !cs[i].is_fill() {
    } else {
        let wt = weight_total(cs, n);
        lemma_weight_total_bounds(cs, n);
        if wt > 0 {
            let rem = extent - bt;
            lemma_scale_le(cs[i].fill_weight(), rem, wt);
            lemma_mul_is_commutative(cs[i].fill_weight(), rem);
            if i == last_fill(cs, n) {
                lemma_share_total_le_rem(cs, rem, wt);
                lemma_share_total_bounds(cs, rem, wt, n);
            }
        }
    }
}

/// Partial sums of solved sizes are monotone in the prefix length.
pub proof fn lemma_size_total_mono(cs: Seq<Constraint>, extent: int, i: int, j: int)
    requires
        0 <= extent <= 0xffff,
        0 <= i <= j <= cs.len(),
    ensures
        size_total(cs, extent, i) <= size_total(cs, extent, j),
    decreases j - i,
{
    if i < j {
        lemma_size_at_bounds(cs, extent, j - 1);
        lemma_size_total_mono(cs, extent, i, j - 1);
    }
}

/// In the proportional-scaling case, the partial sums of solved sizes stay
/// below the same proportional scaling of the requested sums.
proof fn lemma_scaled_total_le(cs: Seq<Constraint>, extent: int, n: int)
    requires
        0 <= extent <= 0xffff,
        0 <= n <= cs.len(),
        base_total(cs, extent, cs.len() as int) > extent,
    ensures
        size_total(cs, extent, n) <= base_total(cs, extent, n) * extent / base_total(
            cs,
            extent,
            cs.len() as int,
        ),
    decreases n,
{
    let bt = base_total(cs, extent, cs.len() as int);
    lemma_base_total_bounds(cs, extent, cs.len() as int);
    lemma_base_total_bounds(cs, extent, n);
    lemma_mul_nonnegative(base_total(cs, extent, n), extent);
    lemma_div_pos_is_pos(base_total(cs, extent, n) * extent, bt);
    if n > 0 {
        lemma_scaled_total_le(cs, extent, n - 1);
        lemma_base_total_bounds(cs, extent, n - 1);
        cs[n - 1].lemma_want_bounds(extent);
        lemma_mul_nonnegative(base_total(cs, extent, n - 1), extent);
        lemma_mul_nonnegative(cs[n - 1].spec_want(extent), extent);
        lemma_div_superadd(
            base_total(cs, extent, n - 1) * extent,
            cs[n - 1].spec_want(extent) * extent,
            bt,
        );
        lemma_mul_is_distributive_add_other_way(
            extent,
            base_total(cs, extent, n - 1),
            cs[n - 1].spec_want(extent),
        );
    }
}

/// In the fill-distribution case, the partial sums of solved sizes
/// decompose into requested sizes plus fill shares plus, once the last fill
/// has been passed, the rounding leftover.
proof fn lemma_size_total_decomp(cs: Seq<Constraint>, extent: int, n: int)
    requires
        0 <= extent <= 0xffff,
        0 <= n <= cs.len(),
        base_total(cs, extent, cs.len() as int) <= extent,
        weight_total(cs, cs.len() as int) > 0,
    ensures
        size_total(cs, extent, n) == base_total(cs, extent, n) + share_total(
            cs,
            extent - base_total(cs, extent, cs.len() as int),
            weight_total(cs, cs.len() as int),
            n,
        ) + if last_fill(cs, cs.len() as int) < n {
            (extent - base_total(cs, extent, cs.len() as int)) - share_total(
                cs,
                extent - base_total(cs, extent, cs.len() as int),
                weight_total(cs, cs.len() as int),
                cs.len() as int,
            )
        } else {
            0
        },
    decreases n,
{
    let full = cs.len() as int;
    lemma_last_fill_props(cs, full);
    if n > 0 {
        lemma_size_total_decomp(cs, extent, n - 1);
    } else {
        assert(last_fill(cs, full) >= 0);
    }
}

/// Law: the solved sizes never overfill the parent; their total is at most
/// the extent.
pub proof fn lemma_size_total_le_extent(cs: Seq<Constraint>, extent: int)
    requires
        0 <= extent <= 0xffff,
    ensures
        0 <= size_total(cs, extent, cs.len() as int) <= extent,
{
    let n = cs.len() as int;
    let bt = base_total(cs, extent, n);
    let wt = weight_total(cs, n);
    lemma_size_total_mono(cs, extent, 0, n);
    lemma_base_total_bounds(cs, extent, n);
    lemma_weight_total_bounds(cs, n);
    if bt > extent {
        lemma_scaled_total_le(cs, extent, n);
        lemma_mul_is_commutative(bt, extent);
        lemma_div_multiples_vanish(extent, bt);
    } else if wt > 0 {
        lemma_size_total_decomp(cs, extent, n);
        lemma_last_fill_props(cs, n);
        lemma_share_total_le_rem(cs, extent - bt, wt);
    } else {
        lemma_size_total_eq_base(cs, extent, n);
    }
}

/// Law: the solved children never overlap — a cell of one chunk lies in no
/// other chunk.
pub proof fn lemma_chunks_disjoint(
    direction: Direction,
    cs: Seq<Constraint>,
    area: Rect,
    i: int,
    j: int,
)
    requires
        area.wf(),
        0 <= i < cs.len(),
        0 <= j < cs.len(),
        i != j,
    ensures
        forall|cx: int, cy: int|
            spec_chunk(direction, cs, area, i).spec_contains(cx, cy) ==> !spec_chunk(
                direction,
                cs,
                area,
                j,
            ).spec_contains(cx, cy),
{
    let lo: int = if i < j {
        i
    } else {
        j
    };
    let hi: int = if i < j {
        j
    } else {
        i
    };
    let e: int = match direction {
        Direction::Horizontal => area.width as int,
        Direction::Vertical => area.height as int,
    };
    let n = cs.len() as int;
    lemma_size_total_le_extent(cs, e);
    lemma_size_at_bounds(cs, e, lo);
    lemma_size_at_bounds(cs, e, hi);
    lemma_size_total_mono(cs, e, 0, lo);
    lemma_size_total_mono(cs, e, 0, hi);
    lemma_size_total_mono(cs, e, lo, n);
    lemma_size_total_mono(cs, e, hi, n);
    lemma_size_total_mono(cs, e, lo + 1, hi);
    lemma_size_total_mono(cs, e, lo + 1, n);
    assert(size_total(cs, e, lo + 1) == size_total(cs, e, lo) + spec_size_at(cs, e, lo));
}

/// With no positive fill weight and no overflow, each solved size equals
/// its request, so the totals agree.
proof fn lemma_size_total_eq_base(cs: Seq<Constraint>, extent: int, n: int)
    requires
        0 <= extent <= 0xffff,
        0 <= n <= cs.len(),
        base_total(cs, extent, cs.len() as int) <= extent,
        weight_total(cs, cs.len() as int) <= 0,
    ensures
        size_total(cs, extent, n) == base_total(cs, extent, n),
    decreases n,
{
    if n > 0 {
        lemma_size_total_eq_base(cs, extent, n - 1);
    }
}

/// Law: whenever the requested sizes sum exactly to the parent's extent, or
/// they fit within it and some fill constraint carries positive weight, the
/// solved sizes sum to exactly the extent — the children partition the
/// parent along the split axis with no gap and no overlap.
pub proof fn lemma_solve_partitions(cs: Seq<Constraint>, extent: int)
    requires
        0 <= extent <= 0xffff,
        base_total(cs, extent, cs.len() as int) == extent || (base_total(
            cs,
            extent,
            cs.len() as int,
        ) <= extent && weight_total(cs, cs.len() as int) > 0),
    ensures
        size_total(cs, extent, cs.len() as int) == extent,
{
    let n = cs.len() as int;
    let bt = base_total(cs, extent, n);
    let wt = weight_total(cs, n);
    lemma_weight_total_bounds(cs, n);
    if wt > 0 {
        lemma_size_total_decomp(cs, extent, n);
        lemma_last_fill_props(cs, n);
    } else {
        lemma_size_total_eq_base(cs, extent, n);
    }
}

fn want_exec(c: &Constraint, extent: u16) -> (w: u128)
    ensures
        w as int == c.spec_want(extent as int),
        w <= 0xffff_ffff,
{
    proof {
        c.lemma_want_bounds(extent as int);
    }
    match c {
        Constraint::Fixed(n) => *n as u128,
        Constraint::Percentage(p) => ((extent as u128) * (*p as u128) + 50) / 100,
        Constraint::Fill(_) => 0,
    }
}

/// The solved size of each constraint, as `spec_size_at` states it.
fn compute_sizes(constraints: &Vec<Constraint>, extent: u16) -> (sizes: Vec<u16>)
    ensures
        sizes@.len() == constraints@.len(),
        forall|i: int|
            0 <= i < constraints@.len() ==> sizes@[i] as int == spec_size_at(
                constraints@,
                extent as int,
                i,
            ),
        0 <= size_total(constraints@, extent as int, constraints@.len() as int) <= extent as int,
{
    let n = constraints.len();
    let ghost cs = constraints@;
    let ghost e = extent as int;
    proof {
        lemma_size_total_le_extent(cs, e);
    }
    // Requested sizes and their sum.
    let mut bt: u128 = 0;
    let mut i: usize = 0;
    while i < n
        invariant
            i <= n,
            n == cs.len(),
            cs == constraints@,
            e == extent as int,
            bt as int == base_total(cs, e, i as int),
            bt <= (i as u128) * 0x1_0000_0000,
        decreases n - i,
    {
        let w = want_exec(&constraints[i], extent);
        proof {
            assert((i + 1) as u128 as int * 0x1_0000_0000 == i as u128 as int * 0x1_0000_0000
                + 0x1_0000_0000) by (nonlinear_arith);
        }
        bt = bt + w;
        i = i + 1;
    }
    // Total fill weight.
    let mut wt: u128 = 0;
    i = 0;
    while i < n
        invariant
            i <= n,
            n == cs.len(),
            cs == constraints@,
            wt as int == weight_total(cs, i as int),
            wt <= (i as u128) * 0x1_0000,
        decreases n - i,
    {
        let w: u128 = match &constraints[i] {
            Constraint::Fill(f) => *f as u128,
            _ => 0,
        };
        proof {
            assert((i + 1) as u128 as int * 0x1_0000 == i as u128 as int * 0x1_0000 + 0x1_0000)
                by (nonlinear_arith);
        }
        wt = wt + w;
        i = i + 1;
    }
    let mut sizes: Vec<u16> = Vec::new();
    if bt > extent as u128 {
        // Overflow: scale every request down proportionally.
        i = 0;
        while i < n
            invariant
                i <= n,
                n == cs.len(),
                cs == constraints@,
                e == extent as int,
                bt as int == base_total(cs, e, n as int),
                bt > e,
                sizes@.len() == i,
                forall|j: int| 0 <= j < i ==> sizes@[j] as int == spec_size_at(cs, e, j),
            decreases n - i,
        {
            let w = want_exec(&constraints[i], extent);
            proof {
                lemma_base_total_bounds(cs, e, n as int);
                lemma_scale_le(w as int, e, bt as int);
                lemma_mul_upper_bound(w as int, 0xffff_ffff, e, 0xffff);
            }
            let s = ((w * (extent as u128)) / bt) as u16;
            sizes.push(s);
            i = i + 1;
        }
    } else if wt == 0 {
        // No fill weight: every constraint gets exactly its request.
        i = 0;
        while i < n
            invariant
                i <= n,
                n == cs.len(),
                cs == constraints@,
                e == extent as int,
                bt as int == base_total(cs, e, n as int),
                bt <= e,
                wt as int == weight_total(cs, n as int),
                wt == 0,
                sizes@.len() == i,
                forall|j: int| 0 <= j < i ==> sizes@[j] as int == spec_size_at(cs, e, j),
            decreases n - i,
        {
            let w = want_exec(&constraints[i], extent);
            proof {
                lemma_base_total_bounds(cs, e, n as int);
            }
            let s = w as u16;
            sizes.push(s);
            i = i + 1;
        }
    } else {
        // Distribute the leftover space among the fills by weight; the last
        // fill also receives the cells lost to rounding.
        let rem: u128 = (extent as u128) - bt;
        let mut lastf: usize = 0;
        let mut st: u128 = 0;
        i = 0;
        while i < n
            invariant
                i <= n,
                n == cs.len(),
                cs == constraints@,
                e == extent as int,
                bt as int == base_total(cs, e, n as int),
                bt <= e,
                wt as int == weight_total(cs, n as int),
                wt > 0,
                rem as int == e - bt as int,
                st as int == share_total(cs, rem as int, wt as int, i as int),
                st <= (i as u128) * 0x1_0000,
                last_fill(cs, i as int) >= 0 ==> lastf as int == last_fill(cs, i as int),
                last_fill(cs, i as int) < 0 ==> lastf == 0,
            decreases n - i,
        {
            let w: u128 = match &constraints[i] {
                Constraint::Fill(f) => {
                    lastf = i;
                    *f as u128
                },
                _ => 0,
            };
            let sh: u128 = if constraints[i].is_fill_exec() {
                proof {
                    lemma_weight_total_bounds(cs, n as int);
                    lemma_scale_le(w as int, rem as int, wt as int);
                    lemma_mul_is_commutative(w as int, rem as int);
                    lemma_mul_upper_bound(rem as int, 0xffff, w as int, 0xffff);
                }
                (rem * w) / wt
            } else {
                0
            };
            proof {
                assert((i + 1) as u128 as int * 0x1_0000 == i as u128 as int * 0x1_0000 + 0x1_0000)
                    by (nonlinear_arith);
            }
            st = st + sh;
            i = i + 1;
        }
        proof {
            lemma_last_fill_props(cs, n as int);
            lemma_share_total_le_rem(cs, rem as int, wt as int);
        }
        i = 0;
        while i < n
            invariant
                i <= n,
                n == cs.len(),
                cs == constraints@,
                e == extent as int,
                bt as int == base_total(cs, e, n as int),
                bt <= e,
                wt as int == weight_total(cs, n as int),
                wt > 0,
                rem as int == e - bt as int,
                st as int == share_total(cs, rem as int, wt as int, n as int),
                st as int <= rem as int,
                lastf as int == last_fill(cs, n as int),
                lastf < n,
                sizes@.len() == i,
                forall|j: int| 0 <= j < i ==> sizes@[j] as int == spec_size_at(cs, e, j),
            decreases n - i,
        {
            let s: u16 = match &constraints[i] {
                Constraint::Fill(f) => {
                    proof {
                        lemma_weight_total_bounds(cs, n as int);
                        lemma_scale_le(*f as int, rem as int, wt as int);
                        lemma_mul_is_commutative(*f as int, rem as int);
                        lemma_share_total_bounds(cs, rem as int, wt as int, n as int);
                        lemma_mul_upper_bound(rem as int, 0xffff, *f as int, 0xffff);
                    }
                    let sh: u128 = (rem * (*f as u128)) / wt;
                    if i == lastf {
                        (sh + (rem - st)) as u16
                    } else {
                        sh as u16
                    }
                },
                _ => {
                    proof {
                        lemma_base_total_bounds(cs, e, n as int);
                    }
                    want_exec(&constraints[i], extent) as u16
                },
            };
            sizes.push(s);
            i = i + 1;
        }
    }
    sizes
}

impl Constraint {
    fn is_fill_exec(&self) -> (r: bool)
        ensures
            r == self.is_fill(),
    {
        match self {
            Constraint::Fill(_) => true,
            _ => false,
        }
    }
}

/// Partitions `area` along `direction` into one rectangle per constraint:
/// the outputs sit side by side in constraint order, never overlap, never
/// leave `area`, and their sizes follow `spec_size_at`.
pub fn solve(direction: Direction, constraints: &Vec<Constraint>, area: Rect) -> (out: Vec<Rect>)
    requires
        area.wf(),
    ensures
        out@.len() == constraints@.len(),
        forall|i: int|
            0 <= i < out@.len() ==> out@[i] == spec_chunk(direction, constraints@, area, i),
        forall|i: int| 0 <= i < out@.len() ==> out@[i].wf(),
        forall|i: int|
            0 <= i < out@.len() ==> (match direction {
                Direction::Horizontal => out@[i].spec_right() <= area.spec_right()
                    && out@[i].y == area.y && out@[i].height == area.height,
                Direction::Vertical => out@[i].spec_bottom() <= area.spec_bottom()
                    && out@[i].x == area.x && out@[i].width == area.width,
            }),
        forall|i: int, cx: int, cy: int|
            0 <= i < out@.len() && out@[i].spec_contains(cx, cy) ==> area.spec_contains(cx, cy),
{
    let ghost cs = constraints@;
    let extent: u16 = match direction {
        Direction::Horizontal => area.width,
        Direction::Vertical => area.height,
    };
    let ghost e = extent as int;
    let sizes = compute_sizes(constraints, extent);
    let n = sizes.len();
    let origin: u16 = match direction {
        Direction::Horizontal => area.x,
        Direction::Vertical => area.y,
    };
    let mut out: Vec<Rect> = Vec::new();
    let mut pos: u16 = origin;
    let mut i: usize = 0;
    while i < n
        invariant
            i <= n,
            n == cs.len(),
            cs == constraints@,
            e == extent as int,
            area.wf(),
            (match direction {
                Direction::Horizontal => extent == area.width && origin == area.x,
                Direction::Vertical => extent == area.height && origin == area.y,
            }),
            sizes@.len() == n,
            forall|j: int| 0 <= j < n ==> sizes@[j] as int == spec_size_at(cs, e, j),
            0 <= size_total(cs, e, n as int) <= e,
            pos as int == origin as int + size_total(cs, e, i as int),
            origin as int <= pos as int <= origin as int + e,
            out@.len() == i,
            forall|j: int| 0 <= j < i ==> out@[j] == spec_chunk(direction, cs, area, j),
            forall|j: int| 0 <= j < i ==> out@[j].wf(),
            forall|j: int|
                0 <= j < i ==> (match direction {
                    Direction::Horizontal => out@[j].spec_right() <= area.spec_right()
                        && out@[j].y == area.y && out@[j].height == area.height,
                    Direction::Vertical => out@[j].spec_bottom() <= area.spec_bottom()
                        && out@[j].x == area.x && out@[j].width == area.width,
                }),
            forall|j: int, cx: int, cy: int|
                0 <= j < i && out@[j].spec_contains(cx, cy) ==> area.spec_contains(cx, cy),
        decreases n - i,
    {
        proof {
            lemma_size_at_bounds(cs, e, i as int);
            lemma_size_total_mono(cs, e, i as int + 1, n as int);
        }
        let s = sizes[i];
        let r = match direction {
            Direction::Horizontal => Rect { x: pos, y: area.y, width: s, height: area.height },
            Direction::Vertical => Rect { x: area.x, y: pos, width: area.width, height: s },
        };
        out.push(r);
        pos = pos + s;
        i = i + 1;
    }
    out
}

/// A split direction together with the constraints to solve, mirroring how
/// widgets describe their children.
pub struct Layout {
    pub direction: Direction,
    pub constraints: Vec<Constraint>,
}

impl Layout {
    pub fn vertical() -> (l: Layout)
        ensures
            l.direction == Direction::Vertical,
            l.constraints@.len() == 0,
    {
        Layout { direction: Direction::Vertical, constraints: Vec::new() }
    }

    pub fn horizontal() -> (l: Layout)
        ensures
            l.direction == Direction::Horizontal,
            l.constraints@.len() == 0,
    {
        Layout { direction: Direction::Horizontal, constraints: Vec::new() }
    }

    pub fn add_constraint(&mut self, c: Constraint)
        ensures
            final(self).direction == old(self).direction,
            final(self).constraints@ == old(self).constraints@.push(c),
    {
        self.constraints.push(c);
    }

    /// Solves this layout over `area`.
    pub fn split(&self, area: Rect) -> (out: Vec<Rect>)
        requires
            area.wf(),
        ensures
            out@.len() == self.constraints@.len(),
            forall|i: int|
                0 <= i < out@.len() ==> out@[i] == spec_chunk(
                    self.direction,
                    self.constraints@,
                    area,
                    i,
                ),
            forall|i: int| 0 <= i < out@.len() ==> out@[i].wf(),
            forall|i: int, cx: int, cy: int|
                0 <= i < out@.len() && out@[i].spec_contains(cx, cy) ==> area.spec_contains(
                    cx,
                    cy,
                ),
    {
        solve(self.direction, &self.constraints, area)
    }
}

} // verus!
