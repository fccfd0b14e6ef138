//! The square of radar cells around the monitored point.
use vstd::prelude::*;

use vstd::arithmetic::power2::pow2;

use crate::float_bits::{
    bits_is_nan, bits_lt, float_lt, is_finite, is_nan, lemma_float_lt_infinities,
    lemma_float_lt_is_real_order, lemma_float_lt_transitive, lemma_float_not_lt_trans,
    lemma_nodata_is_minus_9000, scaled_value, NAN_BITS, NODATA_BITS,
};

verus! {

/// Number of cells on each side of a crop of `radius` cells around the center.
pub open spec fn side(radius: int) -> int {
    2 * radius + 1
}

/// What a cell holds for a raw sample: the sample itself when there is one
/// and it lies above the no-data level, a NaN otherwise.
pub open spec fn cell_value(sample: Option<u32>) -> u32 {
    match sample {
        Some(v) => if float_lt(NODATA_BITS, v) {
            v
        } else {
            NAN_BITS
        },
        None => NAN_BITS,
    }
}

/// The cell in row `r` and column `c` of a crop of `radius` cells lies within
/// the monitored radius: its squared distance from the center, in cells, is at
/// most `reach_sq`.
pub open spec fn within_reach(radius: int, reach_sq: int, r: int, c: int) -> bool {
    (c - radius) * (c - radius) + (radius - r) * (radius - r) <= reach_sq
}

/// The crop of `radius` cells: `samples` holds the raw samples row by row,
/// rows from north to south and columns from west to east. Cells beyond the
/// monitored radius hold NaN, so that they take no part in the area reading.
pub open spec fn cropped(radius: int, reach_sq: int, samples: Seq<Option<u32>>) -> Seq<Seq<u32>> {
    Seq::new(
        side(radius) as nat,
        |r: int|
            Seq::new(
                side(radius) as nat,
                |c: int|
                    if within_reach(radius, reach_sq, r, c) {
                        cell_value(samples[r * side(radius) + c])
                    } else {
                        NAN_BITS
                    },
            ),
    )
}

/// One step of the running maximum: NaN cells are skipped, and the first
/// number replaces the NaN that the maximum starts from.
pub open spec fn max_step(acc: u32, v: u32) -> u32 {
    if is_nan(v) {
        acc
    } else if is_nan(acc) || float_lt(acc, v) {
        v
    } else {
        acc
    }
}

/// Running maximum over one row, from `acc`.
pub open spec fn row_max(acc: u32, row: Seq<u32>) -> u32
    decreases row.len(),
{
    if row.len() == 0 {
        acc
    } else {
        max_step(row_max(acc, row.drop_last()), row.last())
    }
}

/// Running maximum over rows, from `acc`.
pub open spec fn rows_max(acc: u32, rows: Seq<Seq<u32>>) -> u32
    decreases rows.len(),
{
    if rows.len() == 0 {
        acc
    } else {
        row_max(rows_max(acc, rows.drop_last()), rows.last())
    }
}

/// The largest number among the cells, or NaN when every cell is NaN.
pub open spec fn grid_max(rows: Seq<Seq<u32>>) -> u32 {
    rows_max(NAN_BITS, rows)
}

/// The grid is square and not empty.
pub open spec fn is_square(rows: Seq<Seq<u32>>) -> bool {
    &&& rows.len() > 0
    &&& forall|i: int| 0 <= i < rows.len() ==> #[trigger] rows[i].len() == rows.len()
}

/// The cell in the middle of a square grid.
pub open spec fn middle(rows: Seq<Seq<u32>>) -> u32 {
    rows[(rows.len() / 2) as int][(rows.len() / 2) as int]
}

/// A square grid of radar cells, each an `f32` bit pattern, NaN where there
/// is no data.
pub struct DpcGrid {
    grid: Vec<Vec<u32>>,
}

impl View for DpcGrid {
    type V = Seq<Seq<u32>>;

    closed spec fn view(&self) -> Seq<Seq<u32>> {
        self.grid@.map_values(|row: Vec<u32>| row@)
    }
}


/// What a cell holds for a raw sample: the sample when it lies above the
/// no-data level, a NaN otherwise (no sample, a NaN sample, or no data).
pub fn sample_value(sample: Option<u32>) -> (r: u32)
    ensures
        r == cell_value(sample),
{
    match sample {
        Some(v) => if bits_lt(NODATA_BITS, v) {
            v
        } else {
            NAN_BITS
        },
        None => NAN_BITS,
    }
}

/// `offset` is `dx` cells east and `dy` cells north.
pub open spec fn offset_is(offset: (i64, i64), dx: int, dy: int) -> bool {
    offset.0 == dx && offset.1 == dy
}

/// Offsets, in cells, of the cells of a crop of `radius` cells, row by row:
/// the cell in row `r` and column `c` lies `c - radius` cells east and
/// `radius - r` cells north of the center.
pub fn cell_offsets(radius: usize) -> (offsets: Vec<(i64, i64)>)
    requires
        side(radius as int) * side(radius as int) <= usize::MAX,
    ensures
        offsets@.len() == side(radius as int) * side(radius as int),
        forall|r: int, c: int|
            0 <= r < side(radius as int) && 0 <= c < side(radius as int) ==> offset_is(
                #[trigger] offsets@[r * side(radius as int) + c],
                c - radius,
                radius - r,
            ),
{
    let ghost s = side(radius as int);
    assert(s <= s * s) by (nonlinear_arith)
        requires
            s >= 1,
    ;
    assert(s < 0x1_0000_0000) by (nonlinear_arith)
        requires
            s >= 1,
            s * s <= 0xffff_ffff_ffff_ffff,
    ;
    let n: usize = 2 * radius + 1;
    let mut offsets: Vec<(i64, i64)> = Vec::new();
    let mut r: usize = 0;
    while r < n
        invariant
            n == s,
            s == side(radius as int),
            s * s <= usize::MAX,
            n < 0x1_0000_0000,
            r <= n,
            offsets@.len() == r * s,
            forall|r2: int, c2: int|
                0 <= r2 < r && 0 <= c2 < s ==> offset_is(#[trigger] offsets@[r2 * s + c2], c2 - radius, radius - r2),
        decreases n - r,
    {
        let mut c: usize = 0;
        while c < n
            invariant
                n == s,
                s == side(radius as int),
                s * s <= usize::MAX,
                n < 0x1_0000_0000,
                r < n,
                c <= n,
                offsets@.len() == r * s + c,
                forall|r2: int, c2: int|
                    (0 <= r2 < r && 0 <= c2 < s) || (r2 == r && 0 <= c2 < c)
                        ==> offset_is(#[trigger] offsets@[r2 * s + c2], c2 - radius, radius - r2),
            decreases n - c,
        {
            assert(r * s + c < s * s) by (nonlinear_arith)
                requires
                    r < s,
                    c < s,
            ;
            let dx: i64 = c as i64 - radius as i64;
            let dy: i64 = radius as i64 - r as i64;
            let ghost before = offsets@;
            offsets.push((dx, dy));
            assert forall|r2: int, c2: int|
                (0 <= r2 < r && 0 <= c2 < s) || (r2 == r && 0 <= c2 < c + 1)
                    implies offset_is(#[trigger] offsets@[r2 * s + c2], c2 - radius, radius - r2) by {
                if r2 < r {
                    assert(r2 * s + c2 < r * s) by (nonlinear_arith)
                        requires
                            0 <= r2 < r,
                            0 <= c2 < s,
                    ;
                    assert(offsets@[r2 * s + c2] == before[r2 * s + c2]);
                } else if c2 < c {
                    assert(offsets@[r2 * s + c2] == before[r2 * s + c2]);
                }
            }
            c = c + 1;
        }
        assert((r + 1) * s == r * s + s) by (nonlinear_arith);
        r = r + 1;
    }
    offsets
}


/// Facts of the running maximum over one row, from a start that is either a
/// number or the canonical NaN.
proof fn lemma_row_max(acc: u32, row: Seq<u32>)
    requires
        !is_nan(acc) || acc == NAN_BITS,
    ensures
        is_nan(row_max(acc, row)) ==> row_max(acc, row) == acc && forall|j: int|
            0 <= j < row.len() ==> is_nan(#[trigger] row[j]),
        !is_nan(row_max(acc, row)) ==> row_max(acc, row) == acc || exists|j: int|
            0 <= j < row.len() && #[trigger] row[j] == row_max(acc, row),
        !is_nan(acc) ==> !float_lt(row_max(acc, row), acc),
        forall|j: int|
            0 <= j < row.len() && !is_nan(#[trigger] row[j]) ==> !float_lt(row_max(acc, row), row[j]),
    decreases row.len(),
{
    if row.len() > 0 {
        let init = row.drop_last();
        lemma_row_max(acc, init);
        let m = row_max(acc, init);
        let x = row.last();
        assert forall|j: int| 0 <= j < init.len() implies #[trigger] row[j] == init[j] by {}
        if !is_nan(x) && (is_nan(m) || float_lt(m, x)) {
            assert forall|j: int|
                0 <= j < row.len() && !is_nan(#[trigger] row[j]) implies !float_lt(x, row[j]) by {
                if j < init.len() {
                    assert(row[j] == init[j]);
                    if float_lt(x, row[j]) {
                        lemma_float_lt_transitive(m, x, row[j]);
                    }
                }
            }
            if !is_nan(acc) && float_lt(x, acc) {
                lemma_float_lt_transitive(m, x, acc);
            }
            assert(row[row.len() - 1] == x);
        } else {
            assert forall|j: int|
                0 <= j < row.len() && !is_nan(#[trigger] row[j]) implies !float_lt(m, row[j]) by {
                if j < init.len() {
                    assert(row[j] == init[j]);
                } else {
                    assert(row[j] == x);
                }
            }
            if !is_nan(m) && m != acc {
                let k = choose|k: int| 0 <= k < init.len() && #[trigger] init[k] == m;
                assert(row[k] == m);
            }
        }
    }
}

/// The maximum of a grid is NaN exactly when every cell is NaN, is then the
/// canonical NaN, and is otherwise one of the cells and below none of them.
pub proof fn lemma_grid_max(rows: Seq<Seq<u32>>)
    ensures
        is_nan(grid_max(rows)) <==> forall|i: int, j: int|
            0 <= i < rows.len() && 0 <= j < rows[i].len() ==> is_nan(#[trigger] rows[i][j]),
        is_nan(grid_max(rows)) ==> grid_max(rows) == NAN_BITS,
        !is_nan(grid_max(rows)) ==> exists|i: int, j: int|
            0 <= i < rows.len() && 0 <= j < rows[i].len() && #[trigger] rows[i][j] == grid_max(
                rows,
            ),
        forall|i: int, j: int|
            0 <= i < rows.len() && 0 <= j < rows[i].len() && !is_nan(#[trigger] rows[i][j])
                ==> !float_lt(grid_max(rows), rows[i][j]),
    decreases rows.len(),
{
    if rows.len() > 0 {
        let init = rows.drop_last();
        let last = rows.last();
        lemma_grid_max(init);
        let m = grid_max(init);
        assert(grid_max(rows) == row_max(m, last));
        lemma_row_max(m, last);
        let r = row_max(m, last);
        assert forall|i: int| 0 <= i < init.len() implies #[trigger] rows[i] == init[i] by {}
        assert(rows[rows.len() - 1] == last);
        assert forall|i: int, j: int|
            0 <= i < rows.len() && 0 <= j < rows[i].len() && !is_nan(
                #[trigger] rows[i][j],
            ) implies !float_lt(r, rows[i][j]) by {
            if i < init.len() {
                assert(rows[i] == init[i]);
                if float_lt(r, rows[i][j]) {
                    // r < x <= m would put r below m
                    lemma_float_not_lt_trans(m, rows[i][j], r);
                }
            } else {
                assert(rows[i] == last);
            }
        }
        if is_nan(r) {
            assert forall|i: int, j: int|
                0 <= i < rows.len() && 0 <= j < rows[i].len() implies is_nan(
                #[trigger] rows[i][j],
            ) by {
                if i < init.len() {
                    assert(rows[i] == init[i]);
                } else {
                    assert(rows[i] == last);
                }
            }
        } else {
            if r == m {
                let (i, j) = choose|i: int, j: int|
                    0 <= i < init.len() && 0 <= j < init[i].len() && #[trigger] init[i][j] == m;
                assert(rows[i] == init[i]);
                assert(rows[i][j] == r);
            } else {
                let j = choose|j: int| 0 <= j < last.len() && #[trigger] last[j] == r;
                assert(rows[rows.len() - 1][j] == r);
            }
            let (i, j) = choose|i: int, j: int|
                0 <= i < rows.len() && 0 <= j < rows[i].len() && #[trigger] rows[i][j] == r;
            assert(!is_nan(rows[i][j]));
        }
    }
}

/// The reading at the monitored point never exceeds the reading over the
/// area: when the middle cell holds a number, so does the maximum, and the
/// maximum is not below it.
pub proof fn lemma_center_within_max(rows: Seq<Seq<u32>>)
    requires
        is_square(rows),
        !is_nan(middle(rows)),
    ensures
        !is_nan(grid_max(rows)),
        !float_lt(grid_max(rows), middle(rows)),
{
    lemma_grid_max(rows);
    let mid = (rows.len() / 2) as int;
    assert(rows[mid].len() == rows.len());
    assert(!is_nan(rows[mid][mid]));
}

/// The middle cell of a crop is the cell at offset (0, 0), that is the sample
/// of the monitored point, kept when it carries data.
pub proof fn lemma_crop_center(radius: nat, reach_sq: nat, samples: Seq<Option<u32>>)
    ensures
        is_square(cropped(radius as int, reach_sq as int, samples)),
        middle(cropped(radius as int, reach_sq as int, samples)) == cell_value(
            samples[radius * side(radius as int) + radius],
        ),
{
    let g = cropped(radius as int, reach_sq as int, samples);
    assert(g.len() / 2 == radius);
    assert(within_reach(radius as int, reach_sq as int, radius as int, radius as int));
    assert forall|i: int| 0 <= i < g.len() implies #[trigger] g[i].len() == g.len() by {}
}

/// What a sample becomes in a cell: a missing or NaN sample and a number at
/// or below -9000 (the DPC's no-data level) become NaN; any other number,
/// however large, is kept as it is.
pub proof fn lemma_cell_value_keeps_data(v: u32)
    ensures
        cell_value(None) == NAN_BITS,
        is_nan(v) ==> cell_value(Some(v)) == NAN_BITS,
        is_finite(v) && scaled_value(v) > -9000 * pow2(149) ==> cell_value(Some(v)) == v,
        is_finite(v) && scaled_value(v) <= -9000 * pow2(149) ==> cell_value(Some(v)) == NAN_BITS,
        cell_value(Some(0x7f80_0000)) == 0x7f80_0000u32,
        cell_value(Some(0xff80_0000)) == NAN_BITS,
{
    lemma_nodata_is_minus_9000();
    if is_finite(v) {
        lemma_float_lt_is_real_order(NODATA_BITS, v);
    }
    lemma_float_lt_infinities(NODATA_BITS);
}

/// The cell in row `r` and column `c` of a crop of `radius` cells holds the
/// sample taken there exactly when its squared distance from the center, in
/// cells, is at most `reach_sq`, and NaN otherwise.
pub proof fn lemma_crop_keeps_disk(radius: nat, reach_sq: nat, samples: Seq<Option<u32>>)
    ensures
        forall|r: int, c: int|
            0 <= r < 2 * radius + 1 && 0 <= c < 2 * radius + 1 ==> {
                &&& (c - radius) * (c - radius) + (r - radius) * (r - radius) <= reach_sq ==> #[trigger] cropped(
                    radius as int,
                    reach_sq as int,
                    samples,
                )[r][c] == cell_value(samples[r * (2 * radius + 1) + c])
                &&& (c - radius) * (c - radius) + (r - radius) * (r - radius) > reach_sq ==> cropped(
                    radius as int,
                    reach_sq as int,
                    samples,
                )[r][c] == NAN_BITS
            },
{
    assert forall|r: int, c: int| 0 <= r < 2 * radius + 1 && 0 <= c < 2 * radius + 1 implies {
        &&& (c - radius) * (c - radius) + (r - radius) * (r - radius) <= reach_sq ==> #[trigger] cropped(
            radius as int,
            reach_sq as int,
            samples,
        )[r][c] == cell_value(samples[r * (2 * radius + 1) + c])
        &&& (c - radius) * (c - radius) + (r - radius) * (r - radius) > reach_sq ==> cropped(
            radius as int,
            reach_sq as int,
            samples,
        )[r][c] == NAN_BITS
    } by {
        assert((r - radius) * (r - radius) == (radius - r) * (radius - r)) by (nonlinear_arith);
    }
}

/// The area reading of a crop is the maximum over the cells within the
/// monitored radius (squared distance from the center, in cells, at most
/// `reach_sq`): it is NaN exactly when none of them carries data, is
/// otherwise the value of one of them, is below none of them, and, between
/// finite numbers, is at least each of them as a real number.
pub proof fn lemma_area_max_within_radius(radius: nat, reach_sq: nat, samples: Seq<Option<u32>>)
    ensures
        ({
            let s = 2 * radius + 1;
            let m = grid_max(cropped(radius as int, reach_sq as int, samples));
            &&& is_nan(m) <==> forall|r: int, c: int|
                0 <= r < s && 0 <= c < s && (c - radius) * (c - radius) + (r - radius) * (r
                    - radius) <= reach_sq ==> is_nan(#[trigger] cell_value(samples[r * s + c]))
            &&& !is_nan(m) ==> exists|r: int, c: int|
                0 <= r < s && 0 <= c < s && (c - radius) * (c - radius) + (r - radius) * (r
                    - radius) <= reach_sq && #[trigger] cell_value(samples[r * s + c]) == m
            &&& forall|r: int, c: int|
                0 <= r < s && 0 <= c < s && (c - radius) * (c - radius) + (r - radius) * (r
                    - radius) <= reach_sq && !is_nan(#[trigger] cell_value(samples[r * s + c]))
                    ==> !float_lt(m, cell_value(samples[r * s + c]))
            &&& forall|r: int, c: int|
                0 <= r < s && 0 <= c < s && (c - radius) * (c - radius) + (r - radius) * (r
                    - radius) <= reach_sq && is_finite(#[trigger] cell_value(samples[r * s + c]))
                    && is_finite(m) ==> scaled_value(cell_value(samples[r * s + c]))
                    <= scaled_value(m)
        }),
{
    let s = side(radius as int);
    let g = cropped(radius as int, reach_sq as int, samples);
    let m = grid_max(g);
    lemma_grid_max(g);
    lemma_crop_keeps_disk(radius, reach_sq, samples);
    assert forall|r: int, c: int|
        0 <= r < s && 0 <= c < s && (c - radius) * (c - radius) + (r - radius) * (r - radius)
            <= reach_sq implies #[trigger] cell_value(samples[r * s + c]) == g[r][c] by {}
    if !is_nan(m) {
        let (r, c) = choose|r: int, c: int|
            0 <= r < g.len() && 0 <= c < g[r].len() && #[trigger] g[r][c] == m;
        if (c - radius) * (c - radius) + (r - radius) * (r - radius) > reach_sq {
            assert(g[r][c] == NAN_BITS);
        }
        assert(cell_value(samples[r * s + c]) == m);
    } else {
        assert forall|r: int, c: int|
            0 <= r < s && 0 <= c < s && (c - radius) * (c - radius) + (r - radius) * (r - radius)
                <= reach_sq implies is_nan(#[trigger] cell_value(samples[r * s + c])) by {
            assert(g[r].len() == s);
            assert(is_nan(g[r][c]));
        }
    }
    assert forall|r: int, c: int|
        0 <= r < s && 0 <= c < s && (c - radius) * (c - radius) + (r - radius) * (r - radius)
            <= reach_sq && !is_nan(#[trigger] cell_value(samples[r * s + c])) implies !float_lt(
        m,
        cell_value(samples[r * s + c]),
    ) by {
        assert(g[r].len() == s);
        assert(!is_nan(g[r][c]));
    }
    assert forall|r: int, c: int|
        0 <= r < s && 0 <= c < s && (c - radius) * (c - radius) + (r - radius) * (r - radius)
            <= reach_sq && is_finite(#[trigger] cell_value(samples[r * s + c])) && is_finite(
            m,
        ) implies scaled_value(cell_value(samples[r * s + c])) <= scaled_value(m) by {
        let v = cell_value(samples[r * s + c]);
        assert(g[r].len() == s);
        assert(!is_nan(g[r][c]));
        lemma_float_lt_is_real_order(m, v);
    }
}

impl DpcGrid {
    /// The crop of `radius` cells around the center: `samples` holds the raw
    /// sample of each cell, in the order of `cell_offsets(radius)`; a cell
    /// keeps its sample only when its squared distance from the center, in
    /// cells, is at most `reach_sq`.
    pub fn crop(radius: usize, reach_sq: u64, samples: &Vec<Option<u32>>) -> (g: DpcGrid)
        requires
            side(radius as int) * side(radius as int) <= usize::MAX,
            samples@.len() == side(radius as int) * side(radius as int),
        ensures
            g@ == cropped(radius as int, reach_sq as int, samples@),
    {
        let ghost s = side(radius as int);
        assert(s <= s * s) by (nonlinear_arith)
            requires
                s >= 1,
        ;
        assert(s < 0x1_0000_0000) by (nonlinear_arith)
            requires
                s >= 1,
                s * s <= 0xffff_ffff_ffff_ffff,
        ;
        let ghost spec_grid = cropped(radius as int, reach_sq as int, samples@);
        let n: usize = 2 * radius + 1;
        let mut grid: Vec<Vec<u32>> = Vec::new();
        let mut r: usize = 0;
        while r < n
            invariant
                n == s,
                s == side(radius as int),
                s * s <= usize::MAX,
                n < 0x1_0000_0000,
                samples@.len() == s * s,
                spec_grid == cropped(radius as int, reach_sq as int, samples@),
                r <= n,
                grid@.len() == r,
                forall|r2: int| 0 <= r2 < r ==> (#[trigger] grid@[r2])@ == spec_grid[r2],
            decreases n - r,
        {
            let mut row: Vec<u32> = Vec::new();
            let mut c: usize = 0;
            let dy: u64 = if r >= radius {
                (r - radius) as u64
            } else {
                (radius - r) as u64
            };
            assert(dy * dy == (radius - r) * (radius - r)) by (nonlinear_arith)
                requires
                    dy == radius - r || dy == r - radius,
            ;
            while c < n
                invariant
                    n == s,
                    s == side(radius as int),
                    s * s <= usize::MAX,
                    n < 0x1_0000_0000,
                    samples@.len() == s * s,
                    spec_grid == cropped(radius as int, reach_sq as int, samples@),
                    r < n,
                    c <= n,
                    dy < 0x1_0000_0000,
                    dy * dy == (radius - r) * (radius - r),
                    row@.len() == c,
                    forall|c2: int| 0 <= c2 < c ==> #[trigger] row@[c2] == spec_grid[r as int][c2],
                decreases n - c,
            {
                assert(r * s + c < s * s) by (nonlinear_arith)
                    requires
                        r < s,
                        c < s,
                ;
                let dx: u64 = if c >= radius {
                    (c - radius) as u64
                } else {
                    (radius - c) as u64
                };
                assert(dx * dx == (c - radius) * (c - radius)) by (nonlinear_arith)
                    requires
                        dx == c - radius || dx == radius - c,
                ;
                assert(dx * dx < 0x1_0000_0000_0000_0000) by (nonlinear_arith)
                    requires
                        dx < 0x1_0000_0000,
                ;
                assert(dy * dy < 0x1_0000_0000_0000_0000) by (nonlinear_arith)
                    requires
                        dy < 0x1_0000_0000,
                ;
                let d2: u128 = dx as u128 * dx as u128 + dy as u128 * dy as u128;
                let v = if d2 <= reach_sq as u128 {
                    sample_value(samples[r * n + c])
                } else {
                    NAN_BITS
                };
                assert(v == spec_grid[r as int][c as int]);
                row.push(v);
                c = c + 1;
            }
            assert(row@ =~= spec_grid[r as int]);
            grid.push(row);
            r = r + 1;
        }
        let g = DpcGrid { grid };
        assert(g@ =~= spec_grid);
        g
    }

    #[verifier::type_invariant]
    spec fn wf(self) -> bool {
        is_square(self@)
    }

    /// The cell at the monitored point: the middle of the grid.
    pub fn center(&self) -> (r: u32)
        ensures
            is_square(self@),
            r == middle(self@),
    {
        proof {
            use_type_invariant(self);
        }
        let mid = self.grid.len() / 2;
        assert(self@[mid as int] == self.grid@[mid as int]@);
        self.grid[mid][mid]
    }

    /// The largest number in the grid, NaN when no cell holds one.
    pub fn max(&self) -> (r: u32)
        ensures
            is_square(self@),
            r == grid_max(self@),
    {
        proof {
            use_type_invariant(self);
        }
        let mut acc: u32 = NAN_BITS;
        let n = self.grid.len();
        let mut i: usize = 0;
        while i < n
            invariant
                n == self.grid@.len(),
                n == self@.len(),
                i <= n,
                acc == rows_max(NAN_BITS, self@.take(i as int)),
            decreases n - i,
        {
            let row = &self.grid[i];
            assert(self@[i as int] == row@);
            let ghost start = acc;
            let m = row.len();
            let mut j: usize = 0;
            while j < m
                invariant
                    m == row@.len(),
                    j <= m,
                    acc == row_max(start, row@.take(j as int)),
                decreases m - j,
            {
                let v = row[j];
                assert(row@.take(j + 1).drop_last() =~= row@.take(j as int));
                if !bits_is_nan(v) && (bits_is_nan(acc) || bits_lt(acc, v)) {
                    acc = v;
                }
                j = j + 1;
            }
            assert(row@.take(m as int) =~= row@);
            assert(self@.take(i + 1).drop_last() =~= self@.take(i as int));
            i = i + 1;
        }
        assert(self@.take(n as int) =~= self@);
        acc
    }
}

} // verus!
