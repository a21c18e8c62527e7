//! Stamping fixed patterns — a glider and a pulsar — onto the grid.
//!
//! A pattern is a square block of cell states written around an anchor
//! coordinate. The anchor and the block coordinates wrap toroidally on both
//! axes, so anchors on or near an edge place the overhanging part of the
//! block on the opposite side of the grid.

use crate::grid::Cell;
use crate::grid::Universe;
use vstd::arithmetic::div_mod::lemma_fundamental_div_mod;
use vstd::pervasive::VecAdditionalExecFns;
use vstd::prelude::*;

verus! {

broadcast use vstd::arithmetic::div_mod::lemma_mod_bound;

/// An in-range coordinate displaced by delta d (with -dim <= d) and wrapped
/// toroidally into the dimension.
pub open spec fn wrap_delta(base: int, d: int, dim: int) -> int {
    (base + dim + d) % dim
}

/// Whether coordinate a lies within toroidal distance d of base.
pub open spec fn near(a: int, base: int, d: int, dim: int) -> bool {
    exists|k: int| -d <= k <= d && a == wrap_delta(base, k, dim)
}

/// The glider pattern, by offsets from its center: the top row holds one
/// live cell in the middle, the middle row one live cell at the right, and
/// the bottom row three live cells.
pub open spec fn glider_glyph(dr: int, dc: int) -> Cell {
    if (dr == -1 && dc == 0) || (dr == 0 && dc == 1) || dr == 1 {
        Cell::Alive
    } else {
        Cell::Dead
    }
}

/// The pulsar pattern, by offsets from its center: four horizontal and four
/// vertical bars of three live cells each, arranged symmetrically in a
/// 13-by-13 block.
pub open spec fn pulsar_glyph(dr: int, dc: int) -> Cell {
    let ar = if dr < 0 {
        -dr
    } else {
        dr
    };
    let ac = if dc < 0 {
        -dc
    } else {
        dc
    };
    if ((ar == 1 || ar == 6) && 2 <= ac && ac <= 4) || (2 <= ar && ar <= 4 && (ac == 1 || ac
        == 6)) {
        Cell::Alive
    } else {
        Cell::Dead
    }
}

/// Wrapped coordinates within less than a dimension of each other are equal
/// only when their deltas are equal.
proof fn lemma_wrap_delta_injective(base: int, k1: int, k2: int, dim: int)
    requires
        1 <= dim,
        -dim < k1 - k2 < dim,
        wrap_delta(base, k1, dim) == wrap_delta(base, k2, dim),
    ensures
        k1 == k2,
{
    let x1 = base + dim + k1;
    let x2 = base + dim + k2;
    lemma_fundamental_div_mod(x1, dim);
    lemma_fundamental_div_mod(x2, dim);
    let e = x1 / dim - x2 / dim;
    assert(k1 - k2 == dim * e) by (nonlinear_arith)
        requires
            x1 == dim * (x1 / dim) + x1 % dim,
            x2 == dim * (x2 / dim) + x2 % dim,
            x1 % dim == x2 % dim,
            e == x1 / dim - x2 / dim,
            x1 - x2 == k1 - k2,
    ;
    assert(e == 0) by (nonlinear_arith)
        requires
            1 <= dim,
            -dim < dim * e < dim,
    ;
}

/// The wrapped coordinate base + a - radius, for a block offset a between 0
/// and 2·radius.
fn wrap_offset(base: u32, a: u32, radius: u32, dim: u32) -> (r: u32)
    requires
        base < dim,
        a <= 2 * radius,
        radius < dim,
    ensures
        r < dim,
        r as int == wrap_delta(base as int, a as int - radius as int, dim as int),
{
    let s: u64 = base as u64 + dim as u64 + a as u64 - radius as u64;
    (s % (dim as u64)) as u32
}

impl Universe {
    /// Row-major index of the cell displaced by (dr, dc) from the wrapped
    /// anchor (row, col), both axes wrapping toroidally.
    pub open spec fn anchor_index_of(self, row: int, col: int, dr: int, dc: int) -> int {
        self.spec_index_of(
            wrap_delta(row % (self.height as int), dr, self.height as int),
            wrap_delta(col % (self.width as int), dc, self.width as int),
        )
    }

    /// Whether the in-range cell (rr, cc) lies outside the square block of
    /// half-side d around the wrapped anchor (row, col).
    pub open spec fn outside_block(self, row: int, col: int, d: int, rr: int, cc: int) -> bool {
        !(near(rr, row % (self.height as int), d, self.height as int) && near(
            cc,
            col % (self.width as int),
            d,
            self.width as int,
        ))
    }

    /// Write a square block of cells of side 2·radius + 1, row-major in
    /// pattern, centered at the wrapped anchor; both axes wrap toroidally.
    /// Every cell outside the block keeps its state.
    fn stamp(&mut self, row: u32, column: u32, radius: u32, pattern: &[Cell])
        requires
            old(self).wf(),
            1 <= radius,
            2 * radius < old(self).width,
            2 * radius < old(self).height,
            pattern@.len() == (2 * radius as int + 1) * (2 * radius as int + 1),
        ensures
            final(self).wf(),
            final(self).width == old(self).width,
            final(self).height == old(self).height,
            final(self).back_cells@ == old(self).back_cells@,
            final(self).cells@.len() == old(self).cells@.len(),
            forall|dr: int, dc: int|
                -(radius as int) <= dr <= radius as int && -(radius as int) <= dc <= radius as int
                    ==> final(self).cells@[#[trigger] old(self).anchor_index_of(
                    row as int,
                    column as int,
                    dr,
                    dc,
                )] == pattern@[(dr + radius) * (2 * radius as int + 1) + (dc + radius)],
            forall|rr: int, cc: int|
                0 <= rr < old(self).height as int && 0 <= cc < old(self).width as int && #[trigger] old(self).outside_block(row as int, column as int, radius as int, rr, cc) ==> final(self).cells@[old(self).spec_index_of(rr, cc)] == old(self).cells@[old(self).spec_index_of(rr, cc)],
    {
        let w = self.width;
        let h = self.height;
        let side = 2 * radius + 1;
        let r0 = row % h;
        let c0 = column % w;
        let ghost orig = *self;
        let ghost rowi = row as int;
        let ghost coli = column as int;
        let ghost rad = radius as int;
        let ghost si = side as int;
        let ghost wi = w as int;
        let ghost hi = h as int;
        let mut p: u32 = 0;
        while p < side
            invariant
                self.wf(),
                self.width == w,
                self.height == h,
                self.back_cells@ == orig.back_cells@,
                self.cells@.len() == orig.cells@.len(),
                orig.wf(),
                orig.width == w,
                orig.height == h,
                1 <= radius,
                side == 2 * radius + 1,
                2 * radius < w,
                2 * radius < h,
                rad == radius as int,
                si == side as int,
                wi == w as int,
                hi == h as int,
                rowi == row as int,
                coli == column as int,
                pattern@.len() == si * si,
                r0 < h,
                c0 < w,
                r0 as int == rowi % hi,
                c0 as int == coli % wi,
                p <= side,
                forall|dr: int, dc: int|
                    -rad <= dr <= rad && -rad <= dc <= rad && dr < p as int - rad
                        ==> self.cells@[#[trigger] orig.anchor_index_of(rowi, coli, dr, dc)]
                        == pattern@[(dr + rad) * si + (dc + rad)],
                forall|rr2: int, cc2: int|
                    0 <= rr2 < hi && 0 <= cc2 < wi && #[trigger] orig.outside_block(
                        rowi,
                        coli,
                        rad,
                        rr2,
                        cc2,
                    ) ==> self.cells@[orig.spec_index_of(rr2, cc2)] == orig.cells@[orig.spec_index_of(
                        rr2,
                        cc2,
                    )],
            decreases side - p,
        {
            let rr = wrap_offset(r0, p, radius, h);
            let mut q: u32 = 0;
            while q < side
                invariant
                    self.wf(),
                    self.width == w,
                    self.height == h,
                    self.back_cells@ == orig.back_cells@,
                    self.cells@.len() == orig.cells@.len(),
                    orig.wf(),
                    orig.width == w,
                    orig.height == h,
                    1 <= radius,
                    side == 2 * radius + 1,
                    2 * radius < w,
                    2 * radius < h,
                    rad == radius as int,
                    si == side as int,
                    wi == w as int,
                    hi == h as int,
                    rowi == row as int,
                    coli == column as int,
                    pattern@.len() == si * si,
                    r0 < h,
                    c0 < w,
                    r0 as int == rowi % hi,
                    c0 as int == coli % wi,
                    p < side,
                    q <= side,
                    rr < h,
                    rr as int == wrap_delta(r0 as int, p as int - rad, hi),
                    forall|dr: int, dc: int|
                        -rad <= dr <= rad && -rad <= dc <= rad && (dr < p as int - rad || (dr
                            == p as int - rad && dc < q as int - rad))
                            ==> self.cells@[#[trigger] orig.anchor_index_of(rowi, coli, dr, dc)]
                            == pattern@[(dr + rad) * si + (dc + rad)],
                    forall|rr2: int, cc2: int|
                        0 <= rr2 < hi && 0 <= cc2 < wi && #[trigger] orig.outside_block(
                            rowi,
                            coli,
                            rad,
                            rr2,
                            cc2,
                        ) ==> self.cells@[orig.spec_index_of(rr2, cc2)]
                            == orig.cells@[orig.spec_index_of(rr2, cc2)],
                decreases side - q,
            {
                let cc = wrap_offset(c0, q, radius, w);
                let idx = self.get_index(rr, cc);
                proof {
                    assert(((p as int) * si + q as int) < si * si) by (nonlinear_arith)
                        requires
                            0 <= p as int && (p as int) < si,
                            0 <= q as int && (q as int) < si,
                    ;
                    assert(si * si <= wi * hi) by (nonlinear_arith)
                        requires
                            0 <= si,
                            si <= wi,
                            si <= hi,
                    ;
                    assert(0 <= (p as int) * si) by (nonlinear_arith)
                        requires
                            0 <= p as int,
                            0 <= si,
                    ;
                }
                let pat_idx = (p * side + q) as usize;
                let v = pattern[pat_idx];
                self.cells.set(idx, v);
                proof {
                    // the written cell is the block cell at deltas
                    // (p - radius, q - radius) from the anchor
                    assert(idx as int == orig.anchor_index_of(
                        rowi,
                        coli,
                        p as int - rad,
                        q as int - rad,
                    ));
                    assert(pat_idx as int == ((p as int - rad) + rad) * si + ((q as int - rad)
                        + rad));
                    // distinct block deltas land on distinct cells
                    assert forall|dr: int, dc: int|
                        -rad <= dr <= rad && -rad <= dc <= rad && (dr < p as int - rad || (dr
                            == p as int - rad && dc < q as int - rad)) implies #[trigger] orig.anchor_index_of(
                        rowi,
                        coli,
                        dr,
                        dc,
                    ) != idx as int by {
                        let vr = wrap_delta(r0 as int, dr, hi);
                        let vc = wrap_delta(c0 as int, dc, wi);
                        if vr * wi + vc == idx as int {
                            assert(vr == rr as int && vc == cc as int) by (nonlinear_arith)
                                requires
                                    vr * wi + vc == (rr as int) * wi + cc as int,
                                    0 <= vr && vr < hi,
                                    0 <= vc && vc < wi,
                                    0 <= rr as int && (rr as int) < hi,
                                    0 <= cc as int && (cc as int) < wi,
                                    1 <= wi,
                            ;
                            lemma_wrap_delta_injective(r0 as int, dr, p as int - rad, hi);
                            lemma_wrap_delta_injective(c0 as int, dc, q as int - rad, wi);
                        }
                    }
                    // cells away from the block are not the written cell
                    assert forall|rr2: int, cc2: int|
                        0 <= rr2 < hi && 0 <= cc2 < wi && #[trigger] orig.outside_block(
                            rowi,
                            coli,
                            rad,
                            rr2,
                            cc2,
                        ) implies orig.spec_index_of(rr2, cc2) != idx as int by {
                        if rr2 * wi + cc2 == idx as int {
                            assert(rr2 == rr as int && cc2 == cc as int) by (nonlinear_arith)
                                requires
                                    rr2 * wi + cc2 == (rr as int) * wi + cc as int,
                                    0 <= rr2 && rr2 < hi,
                                    0 <= cc2 && cc2 < wi,
                                    0 <= rr as int && (rr as int) < hi,
                                    0 <= cc as int && (cc as int) < wi,
                                    1 <= wi,
                            ;
                            assert(near(rr as int, r0 as int, rad, hi)) by {
                                assert(rr as int == wrap_delta(r0 as int, p as int - rad, hi));
                                assert(-rad <= p as int - rad <= rad);
                            }
                            assert(near(cc as int, c0 as int, rad, wi)) by {
                                assert(cc as int == wrap_delta(c0 as int, q as int - rad, wi));
                                assert(-rad <= q as int - rad <= rad);
                            }
                        }
                    }
                    // the written invariant, one block cell further along
                    assert forall|dr: int, dc: int|
                        -rad <= dr <= rad && -rad <= dc <= rad && (dr < p as int - rad || (dr
                            == p as int - rad && dc < q as int + 1 - rad)) implies
                        self.cells@[#[trigger] orig.anchor_index_of(rowi, coli, dr, dc)]
                            == pattern@[(dr + rad) * si + (dc + rad)] by {
                        let vr = wrap_delta(r0 as int, dr, hi);
                        let vc = wrap_delta(c0 as int, dc, wi);
                        assert(0 <= vr * wi + vc && vr * wi + vc < wi * hi) by (nonlinear_arith)
                            requires
                                0 <= vr && vr < hi,
                                0 <= vc && vc < wi,
                                1 <= wi,
                        ;
                    }
                    // cells outside the block still hold their first state
                    assert forall|rr2: int, cc2: int|
                        0 <= rr2 < hi && 0 <= cc2 < wi && #[trigger] orig.outside_block(
                            rowi,
                            coli,
                            rad,
                            rr2,
                            cc2,
                        ) implies self.cells@[orig.spec_index_of(rr2, cc2)]
                        == orig.cells@[orig.spec_index_of(rr2, cc2)] by {
                        assert(0 <= rr2 * wi + cc2 && rr2 * wi + cc2 < wi * hi) by (nonlinear_arith)
                            requires
                                0 <= rr2 && rr2 < hi,
                                0 <= cc2 && cc2 < wi,
                                1 <= wi,
                        ;
                    }
                }
                q += 1;
            }
            p += 1;
        }
    }

    /// Stamp a glider whose 3-by-3 block is centered at the wrapped anchor
    /// coordinates; all cells outside the block keep their state.
    pub fn glider(&mut self, row: u32, column: u32)
        requires
            old(self).wf(),
            3 <= old(self).width,
            3 <= old(self).height,
        ensures
            final(self).wf(),
            final(self).width == old(self).width,
            final(self).height == old(self).height,
            final(self).back_cells@ == old(self).back_cells@,
            final(self).cells@.len() == old(self).cells@.len(),
            forall|dr: int, dc: int|
                -1 <= dr <= 1 && -1 <= dc <= 1 ==> final(self).cells@[#[trigger] old(self).anchor_index_of(row as int, column as int, dr, dc)] == glider_glyph(dr, dc),
            forall|rr: int, cc: int|
                0 <= rr < old(self).height as int && 0 <= cc < old(self).width as int && #[trigger] old(self).outside_block(row as int, column as int, 1, rr, cc) ==> final(self).cells@[old(self).spec_index_of(rr, cc)] == old(self).cells@[old(self).spec_index_of(rr, cc)],
    {
        let pattern = glider_pattern();
        self.stamp(row, column, 1, pattern.as_slice());
    }

    /// Stamp a pulsar whose 13-by-13 block is centered at the wrapped anchor
    /// coordinates; all cells outside the block keep their state.
    pub fn pulsar(&mut self, row: u32, column: u32)
        requires
            old(self).wf(),
            13 <= old(self).width,
            13 <= old(self).height,
        ensures
            final(self).wf(),
            final(self).width == old(self).width,
            final(self).height == old(self).height,
            final(self).back_cells@ == old(self).back_cells@,
            final(self).cells@.len() == old(self).cells@.len(),
            forall|dr: int, dc: int|
                -6 <= dr <= 6 && -6 <= dc <= 6 ==> final(self).cells@[#[trigger] old(self).anchor_index_of(row as int, column as int, dr, dc)] == pulsar_glyph(dr, dc),
            forall|rr: int, cc: int|
                0 <= rr < old(self).height as int && 0 <= cc < old(self).width as int && #[trigger] old(self).outside_block(row as int, column as int, 6, rr, cc) ==> final(self).cells@[old(self).spec_index_of(rr, cc)] == old(self).cells@[old(self).spec_index_of(rr, cc)],
    {
        let pattern = pulsar_pattern();
        self.stamp(row, column, 6, pattern.as_slice());
    }
}

/// The glider block, row-major: one live cell atop the center, one to the
/// right of the center, and a full bottom row.
fn glider_pattern() -> (v: Vec<Cell>)
    ensures
        v@.len() == 9,
        forall|dr: int, dc: int|
            -1 <= dr <= 1 && -1 <= dc <= 1 ==> v@[(dr + 1) * 3 + (dc + 1)] == #[trigger] glider_glyph(
                dr,
                dc,
            ),
{
    let mut v: Vec<Cell> = Vec::new();
    v.push(Cell::Dead);
    v.push(Cell::Alive);
    v.push(Cell::Dead);
    v.push(Cell::Dead);
    v.push(Cell::Dead);
    v.push(Cell::Alive);
    v.push(Cell::Alive);
    v.push(Cell::Alive);
    v.push(Cell::Alive);
    proof {
        assert forall|dr: int, dc: int| -1 <= dr <= 1 && -1 <= dc <= 1 implies v@[(dr + 1) * 3 + (
        dc + 1)] == #[trigger] glider_glyph(dr, dc) by {
            assert(0 <= (dr + 1) * 3 + (dc + 1) < 9) by (nonlinear_arith)
                requires
                    -1 <= dr && dr <= 1,
                    -1 <= dc && dc <= 1,
            ;
        }
    }
    v
}

/// One cell of the pulsar block, by row-major block offsets.
fn pulsar_cell(p: u32, q: u32) -> (c: Cell)
    requires
        p < 13,
        q < 13,
    ensures
        c == pulsar_glyph(p as int - 6, q as int - 6),
{
    let ar = if p >= 6 {
        p - 6
    } else {
        6 - p
    };
    let ac = if q >= 6 {
        q - 6
    } else {
        6 - q
    };
    if ((ar == 1 || ar == 6) && 2 <= ac && ac <= 4) || (2 <= ar && ar <= 4 && (ac == 1 || ac
        == 6)) {
        Cell::Alive
    } else {
        Cell::Dead
    }
}

/// The pulsar block, row-major.
fn pulsar_pattern() -> (v: Vec<Cell>)
    ensures
        v@.len() == 169,
        forall|dr: int, dc: int|
            -6 <= dr <= 6 && -6 <= dc <= 6 ==> v@[(dr + 6) * 13 + (dc + 6)]
                == #[trigger] pulsar_glyph(dr, dc),
{
    let mut v: Vec<Cell> = Vec::new();
    let mut p: u32 = 0;
    while p < 13
        invariant
            p <= 13,
            v@.len() == (p as int) * 13,
            forall|dr: int, dc: int|
                -6 <= dr <= 6 && -6 <= dc <= 6 && dr < p as int - 6 ==> v@[(dr + 6) * 13 + (dc
                    + 6)] == #[trigger] pulsar_glyph(dr, dc),
        decreases 13 - p,
    {
        let mut q: u32 = 0;
        while q < 13
            invariant
                p < 13,
                q <= 13,
                v@.len() == (p as int) * 13 + q as int,
                forall|dr: int, dc: int|
                    -6 <= dr <= 6 && -6 <= dc <= 6 && (dr < p as int - 6 || (dr == p as int - 6
                        && dc < q as int - 6)) ==> v@[(dr + 6) * 13 + (dc + 6)]
                        == #[trigger] pulsar_glyph(dr, dc),
            decreases 13 - q,
        {
            v.push(pulsar_cell(p, q));
            q += 1;
        }
        p += 1;
    }
    v
}

} // verus!
