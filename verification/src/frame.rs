//! What one frame is made of: the grid of cells that a frame is computed on,
//! the block of pixels that each cell is splatted to, the jitter of the
//! sample position, and the choices along a ray: which root is the hit on a
//! sphere, and which sphere is the nearest.
use crate::framebuffer::{fill_block_spec, Color, Renderer};
use vstd::prelude::*;

verus! {

/// A frame is computed on a grid of one cell for this many pixels in each direction.
pub const RENDER_DIVISOR: i32 = 10;

/// The grid is never narrower than this many cells.
pub const MIN_RENDER_WIDTH: i32 = 80;

/// The grid is never lower than this many cells.
pub const MIN_RENDER_HEIGHT: i32 = 45;

/// How many cells span `extent` pixels: one for every `RENDER_DIVISOR`
/// pixels, and not fewer than `least`.
pub open spec fn grid_cells(extent: int, least: int) -> int {
    if extent / (RENDER_DIVISOR as int) > least {
        extent / (RENDER_DIVISOR as int)
    } else {
        least
    }
}

/// How many pixels one of `cells` cells covers of `extent` pixels: an equal
/// share, rounded down, and not less than one.
pub open spec fn block_span(extent: int, cells: int) -> int {
    if extent / cells > 1 {
        extent / cells
    } else {
        1
    }
}

/// The resolution that frames are computed at, and the size of the block of
/// pixels that stands for one computed cell.
#[derive(Debug, Clone, Copy, PartialEq, Eq, Structural)]
pub struct RenderPlan {
    /// Cells in one row of the grid.
    pub render_w: i32,
    /// Rows of the grid.
    pub render_h: i32,
    /// Width of a cell's block in pixels.
    pub block_w: i32,
    /// Height of a cell's block in pixels.
    pub block_h: i32,
}

impl RenderPlan {
    /// A plan whose grid is not empty and whose blocks, laid side by side,
    /// have coordinates that fit the drawing calls.
    pub open spec fn wf(self) -> bool {
        &&& self.render_w >= 1
        &&& self.render_h >= 1
        &&& self.block_w >= 1
        &&& self.block_h >= 1
        &&& self.render_w * self.block_w <= i32::MAX
        &&& self.render_h * self.block_h <= i32::MAX
    }

    /// The plan for a screen of `width` by `height` pixels.
    pub open spec fn for_screen(width: int, height: int) -> RenderPlan {
        let render_w = grid_cells(width, MIN_RENDER_WIDTH as int);
        let render_h = grid_cells(height, MIN_RENDER_HEIGHT as int);
        RenderPlan {
            render_w: render_w as i32,
            render_h: render_h as i32,
            block_w: block_span(width, render_w) as i32,
            block_h: block_span(height, render_h) as i32,
        }
    }

    /// Whether `(px, py)` is a cell of the grid.
    pub open spec fn has_cell(self, px: int, py: int) -> bool {
        0 <= px < self.render_w && 0 <= py < self.render_h
    }

    /// Plans the frames for a screen of `width` by `height` pixels.
    pub fn new(width: i32, height: i32) -> (plan: RenderPlan)
        ensures
            plan == RenderPlan::for_screen(width as int, height as int),
            plan.wf(),
            plan.render_w >= MIN_RENDER_WIDTH,
            plan.render_h >= MIN_RENDER_HEIGHT,
    {
        let render_w = cells_for(width, MIN_RENDER_WIDTH);
        let render_h = cells_for(height, MIN_RENDER_HEIGHT);
        let block_w = span_for(width, render_w);
        let block_h = span_for(height, render_h);
        RenderPlan { render_w, render_h, block_w, block_h }
    }

    /// Returns the top left corner of the block of cell `(px, py)`.
    pub fn cell_origin(&self, px: i32, py: i32) -> (origin: (i32, i32))
        requires
            self.wf(),
            self.has_cell(px as int, py as int),
        ensures
            origin.0 == px * self.block_w,
            origin.1 == py * self.block_h,
    {
        proof {
            lemma_cell_fits(px as int, self.render_w as int, self.block_w as int);
            lemma_cell_fits(py as int, self.render_h as int, self.block_h as int);
        }
        (px * self.block_w, py * self.block_h)
    }

    /// Splats `color` to the block of cell `(px, py)`.
    pub fn paint_cell(&self, renderer: &mut Renderer, px: i32, py: i32, color: Color)
        requires
            self.wf(),
            self.has_cell(px as int, py as int),
        ensures
            final(renderer).info() == old(renderer).info(),
            final(renderer)@ == fill_block_spec(
                old(renderer)@,
                old(renderer).info(),
                px * self.block_w,
                py * self.block_h,
                self.block_w as int,
                self.block_h as int,
                color,
            ),
    {
        let (x0, y0) = self.cell_origin(px, py);
        renderer.fill_block(x0, y0, self.block_w, self.block_h, color);
    }
}

/// Computes how many cells span `extent` pixels.
fn cells_for(extent: i32, least: i32) -> (cells: i32)
    requires
        least >= 1,
    ensures
        cells == grid_cells(extent as int, least as int),
        cells >= least,
{
    if extent <= 0 {
        least
    } else {
        let share: i32 = extent / RENDER_DIVISOR;
        if share > least {
            share
        } else {
            least
        }
    }
}

/// Computes how many pixels one of `cells` cells covers of `extent` pixels.
fn span_for(extent: i32, cells: i32) -> (span: i32)
    requires
        cells >= 1,
    ensures
        span == block_span(extent as int, cells as int),
        span >= 1,
        cells * span <= i32::MAX,
{
    if extent <= 0 {
        assert(extent as int / (cells as int) <= 0) by (nonlinear_arith)
            requires
                extent <= 0,
                cells >= 1,
        ;
        1
    } else {
        let share: i32 = extent / cells;
        if share > 1 {
            assert(cells * share <= extent) by (nonlinear_arith)
                requires
                    share == extent as int / cells as int,
                    cells >= 1,
                    extent > 0,
            ;
            share
        } else {
            1
        }
    }
}

/// The block of a cell of the grid, and the block after it, begin at
/// coordinates that the blocks of the whole grid bound.
proof fn lemma_cell_fits(cell: int, cells: int, span: int)
    requires
        0 <= cell < cells,
        span >= 1,
    ensures
        0 <= cell * span,
        cell * span + span <= cells * span,
{
    assert(0 <= cell * span && cell * span + span <= cells * span) by (nonlinear_arith)
        requires
            0 <= cell < cells,
            span >= 1,
    ;
}

/// The offset of the sample position within its cell, in quarters of a
/// cell: forward on even ticks, backward on odd ones.
pub open spec fn jitter_of(tick: u64) -> int {
    if tick % 2 == 0 {
        1
    } else {
        -1
    }
}

/// Returns the offset of the sample position for the frame of `tick`, in
/// quarters of a cell.
pub fn jitter_quarters(tick: u64) -> (quarters: i8)
    ensures
        quarters == jitter_of(tick),
{
    if tick % 2 == 0 {
        1
    } else {
        -1
    }
}

/// One of the two places at which the line of a ray meets a sphere.
#[derive(Debug, Clone, Copy, PartialEq, Eq, Structural)]
pub enum Root {
    /// The place that comes first along the ray.
    Near,
    /// The place that comes last along the ray.
    Far,
}

/// The root at which a ray hits a sphere: none where the discriminant of
/// their quadratic is negative; else the near root where it lies ahead of
/// the origin; else the far root where that lies ahead, as it does for an
/// origin inside the sphere; and none where both lie behind.
pub open spec fn root_seen(discriminant_negative: bool, near_ahead: bool, far_ahead: bool) -> Option<
    Root,
> {
    if discriminant_negative {
        None
    } else if near_ahead {
        Some(Root::Near)
    } else if far_ahead {
        Some(Root::Far)
    } else {
        None
    }
}

/// Chooses the root at which a ray hits a sphere, from the signs that the
/// quadratic of the two has yielded.
pub fn visible_root(discriminant_negative: bool, near_ahead: bool, far_ahead: bool) -> (root: Option<
    Root,
>)
    ensures
        root == root_seen(discriminant_negative, near_ahead, far_ahead),
{
    if discriminant_negative {
        None
    } else if near_ahead {
        Some(Root::Near)
    } else if far_ahead {
        Some(Root::Far)
    } else {
        None
    }
}

/// The key of a distance without bound. Distances are compared by their
/// keys: unsigned integers in the order of the distances they stand for.
pub const UNBOUNDED: u32 = 0x7F80_0000;

/// Whether `hit` is an intersection at a bounded distance.
pub open spec fn counts(hit: Option<u32>) -> bool {
    hit matches Some(key) && key < UNBOUNDED
}

/// Whether none of `hits` counts.
pub open spec fn all_miss(hits: Seq<Option<u32>>) -> bool {
    forall|i: int| 0 <= i < hits.len() ==> !counts(#[trigger] hits[i])
}

/// Whether surface `id` is the nearest of `hits`, at distance `key`: no hit
/// is nearer, and none before it is as near.
pub open spec fn is_nearest(hits: Seq<Option<u32>>, key: u32, id: int) -> bool {
    &&& 0 <= id < hits.len()
    &&& hits[id] == Some(key)
    &&& key < UNBOUNDED
    &&& forall|i: int| 0 <= i < hits.len() && (#[trigger] hits[i]).is_some() ==> key <= hits[i].unwrap()
    &&& forall|i: int| 0 <= i < id && (#[trigger] hits[i]).is_some() ==> key < hits[i].unwrap()
}

/// Of the intersections of one ray with the surfaces of a scene, finds the
/// nearest: its distance and the index of its surface. `hits[i]` is the
/// distance at which the ray meets surface `i`, if it does.
pub fn nearest_hit(hits: &[Option<u32>]) -> (nearest: Option<(u32, usize)>)
    ensures
        match nearest {
            Some((key, id)) => is_nearest(hits@, key, id as int),
            None => all_miss(hits@),
        },
{
    let mut best_key: u32 = UNBOUNDED;
    let mut best_id: usize = 0;
    let mut hit: bool = false;
    let mut i: usize = 0;
    while i < hits.len()
        invariant
            i <= hits@.len(),
            best_key <= UNBOUNDED,
            hit ==> is_nearest(hits@.take(i as int), best_key, best_id as int),
            !hit ==> best_key == UNBOUNDED && all_miss(hits@.take(i as int)),
        decreases hits@.len() - i,
    {
        match hits[i] {
            Some(key) => {
                if key < best_key {
                    best_key = key;
                    best_id = i;
                    hit = true;
                }
            },
            None => {},
        }
        i = i + 1;
    }
    assert(hits@.take(i as int) =~= hits@);
    if hit {
        Some((best_key, best_id))
    } else {
        None
    }
}

/// The nearest surface does not depend on the order of the surfaces in the
/// scene. When two surfaces change places, the distance of the nearest hit
/// stays; and where only one surface lies at that distance, the nearest
/// surface is the same one, found at its new place.
pub proof fn lemma_nearest_ignores_order(
    hits: Seq<Option<u32>>,
    a: int,
    b: int,
    key: u32,
    id: int,
    swapped_key: u32,
    swapped_id: int,
)
    requires
        0 <= a < hits.len(),
        0 <= b < hits.len(),
        is_nearest(hits, key, id),
        is_nearest(hits.update(a, hits[b]).update(b, hits[a]), swapped_key, swapped_id),
    ensures
        swapped_key == key,
        (forall|i: int| 0 <= i < hits.len() && i != id ==> hits[i] != Some(key)) ==> swapped_id == (if id
            == a {
            b
        } else if id == b {
            a
        } else {
            id
        }),
{
    let swapped = hits.update(a, hits[b]).update(b, hits[a]);
    let moved = |i: int|
        if i == a {
            b
        } else if i == b {
            a
        } else {
            i
        };
    assert(swapped[moved(id)].is_some());
}

/// Whether any surface is hit does not depend on the order of the surfaces.
pub proof fn lemma_miss_ignores_order(hits: Seq<Option<u32>>, a: int, b: int)
    requires
        0 <= a < hits.len(),
        0 <= b < hits.len(),
        all_miss(hits),
    ensures
        all_miss(hits.update(a, hits[b]).update(b, hits[a])),
{
}

} // verus!
