//! Turtle graphics over a voxel canvas.
//!
//! The turtle keeps an integer position on the `z = 0` plane of an
//! [`ArrayVoxelBuffer`] canvas. Each move or draw takes an integer
//! displacement `(dx, dy)`; the caller that drives the turtle keeps the
//! continuous heading and maps a step distance along it to the
//! displacement. A draw rasterizes the straight line from the old position
//! to the new one, endpoints included, writing one color per lattice point.

use vstd::prelude::*;
use vstd::math::{abs, max, min};
use crate::buffer::spec_id;
use crate::raster::{line_points, bresenham_points, RASTER_COORD_LIMIT};
use crate::voxel_buffer::{ArrayVoxelBuffer, Rgba, Voxel, VoxelBuffer};

verus! {

/// The drawing turtle: its integer position on the canvas plane. The
/// continuous heading lives with the caller that drives the turtle.
#[derive(Copy, Clone, Debug, PartialEq, Eq, Structural)]
pub struct Turtle {
    /// The turtle's position along the canvas' first axis.
    pub x: i32,
    /// The turtle's position along the canvas' second axis.
    pub y: i32,
}

/// The canvas after writing `colors[k]` into the cell at `points[k]` (on the
/// `z = 0` plane), for every `k` in emission order: a later write to the
/// same cell wins.
pub open spec fn paint(
    vox: Seq<Rgba>,
    w: nat,
    d: nat,
    points: Seq<(i32, i32)>,
    colors: Seq<Rgba>,
) -> Seq<Rgba>
    decreases points.len(),
{
    if points.len() == 0 {
        vox
    } else {
        let p = points.last();
        paint(vox, w, d, points.drop_last(), colors).update(
            spec_id(w, d, p.0 as nat, p.1 as nat, 0) as int,
            colors[points.len() - 1],
        )
    }
}

/// The same color at every point.
pub open spec fn const_colors(n: nat, c: Rgba) -> Seq<Rgba> {
    Seq::new(n, |i: int| c)
}

/// The colors of a gradient, one voxel record per entry.
pub open spec fn gradient_colors(g: Seq<[u8; 4]>) -> Seq<Rgba> {
    Seq::new(g.len(), |i: int| Rgba(g[i]))
}

/// Painting reads only one color per point: color sequences that agree on
/// those entries paint the same canvas.
proof fn lemma_paint_colors_agree(
    vox: Seq<Rgba>,
    w: nat,
    d: nat,
    points: Seq<(i32, i32)>,
    c1: Seq<Rgba>,
    c2: Seq<Rgba>,
)
    requires
        forall|k: int| 0 <= k < points.len() ==> c1[k] == c2[k],
    ensures
        paint(vox, w, d, points, c1) == paint(vox, w, d, points, c2),
    decreases points.len(),
{
    if points.len() > 0 {
        lemma_paint_colors_agree(vox, w, d, points.drop_last(), c1, c2);
    }
}

/// Draw on an [`ArrayVoxelBuffer`] canvas with turtle-style commands:
/// relative moves, and draws that rasterize the moved-over line segment.
pub struct TurtleGraphics {
    buf: ArrayVoxelBuffer<Rgba>,
    state: Turtle,
}

impl TurtleGraphics {
    /// The turtle's current state.
    pub closed spec fn turtle(&self) -> Turtle {
        self.state
    }

    /// The canvas being drawn on.
    pub closed spec fn canvas(&self) -> ArrayVoxelBuffer<Rgba> {
        self.buf
    }

    /// The engine is well formed when its canvas is.
    pub open spec fn wf(&self) -> bool {
        self.canvas().wf()
    }

    /// The position `(px, py)` lies on the canvas' drawing plane.
    pub open spec fn on_canvas(&self, px: int, py: int) -> bool {
        &&& 0 <= px < self.canvas().dims().0
        &&& 0 <= py < self.canvas().dims().1
    }

    /// A position the rasterizer accepts: on the canvas and within its
    /// coordinate limit.
    pub open spec fn drawable(&self, px: int, py: int) -> bool {
        &&& self.on_canvas(px, py)
        &&& px <= RASTER_COORD_LIMIT
        &&& py <= RASTER_COORD_LIMIT
    }

    /// Create a new `TurtleGraphics` engine of the given canvas dimensions.
    ///
    /// The canvas is initially empty and the turtle is at position `(0, 0)`.
    /// The caller keeps the heading; its zero (facing east, along the first
    /// axis) pairs with this start.
    pub fn new(size_x: u32, size_y: u32, size_z: u32) -> (r: TurtleGraphics)
        requires
            4 * (size_x as nat) <= usize::MAX,
            4 * (size_x as nat) * (size_y as nat) <= usize::MAX,
            4 * (size_x as nat) * (size_y as nat) * (size_z as nat) <= usize::MAX,
        ensures
            r.wf(),
            r.canvas().dims() == (size_x, size_y, size_z),
            r.turtle() == (Turtle { x: 0, y: 0 }),
            r.canvas().voxels() == Seq::new(
                r.canvas().total(),
                |i: int| Rgba([0u8, 0u8, 0u8, 0u8]),
            ),
    {
        let buf = ArrayVoxelBuffer::<Rgba>::new(size_x, size_y, size_z);
        let r = TurtleGraphics { buf, state: Turtle { x: 0, y: 0 } };
        proof {
            assert(r.canvas().voxels() =~= Seq::new(
                r.canvas().total(),
                |i: int| Rgba([0u8, 0u8, 0u8, 0u8]),
            )) by {
                assert forall|i: int| 0 <= i < r.canvas().total() implies r.canvas().voxels()[i]
                    == Rgba([0u8, 0u8, 0u8, 0u8]) by {
                    let zeros = Seq::new(4nat, |j: int| 0u8);
                    assert(Rgba([0u8, 0u8, 0u8, 0u8]).0@ =~= zeros);
                    assert(r.canvas().voxels()[i] == Rgba::of_byte_seq(zeros));
                    assert(Rgba([0u8, 0u8, 0u8, 0u8]).0 =~= Rgba::of_byte_seq(zeros).0);
                }
            }
        }
        r
    }

    /// Move the turtle by `(dx, dy)` without drawing.
    pub fn step(&mut self, dx: i32, dy: i32)
        requires
            i32::MIN <= old(self).turtle().x + dx <= i32::MAX,
            i32::MIN <= old(self).turtle().y + dy <= i32::MAX,
        ensures
            final(self).turtle().x == old(self).turtle().x + dx,
            final(self).turtle().y == old(self).turtle().y + dy,
            final(self).canvas() == old(self).canvas(),
    {
        self.state.x = self.state.x + dx;
        self.state.y = self.state.y + dy;
    }

    /// Move the turtle to `(x1, y1)` and write `colors[k]` into the cell at
    /// the `k`-th rasterized point of the moved-over segment.
    fn rasterize(&mut self, x1: i32, y1: i32, colors: &Vec<Rgba>)
        requires
            old(self).wf(),
            old(self).canvas().dims().2 >= 1,
            old(self).drawable(old(self).turtle().x as int, old(self).turtle().y as int),
            old(self).drawable(x1 as int, y1 as int),
            colors@.len() == 1 + max(
                abs(x1 - old(self).turtle().x) as int,
                abs(y1 - old(self).turtle().y) as int,
            ),
        ensures
            final(self).wf(),
            final(self).canvas().dims() == old(self).canvas().dims(),
            final(self).turtle() == (Turtle { x: x1, y: y1 }),
            line_points(old(self).turtle().x, old(self).turtle().y, x1, y1).len()
                == colors@.len(),
            final(self).canvas().voxels() == paint(
                old(self).canvas().voxels(),
                old(self).canvas().dims().0 as nat,
                old(self).canvas().dims().1 as nat,
                line_points(old(self).turtle().x, old(self).turtle().y, x1, y1),
                colors@,
            ),
    {
        let x0 = self.state.x;
        let y0 = self.state.y;
        let ghost orig = self.buf.voxels();
        let ghost dims0 = self.buf.dims();
        let ghost w = self.buf.dims().0 as nat;
        let ghost d = self.buf.dims().1 as nat;
        let points = bresenham_points(x0, y0, x1, y1);
        let mut k: usize = 0;
        while k < points.len()
            invariant
                k <= points@.len(),
                colors@.len() == points@.len(),
                points@ == line_points(x0, y0, x1, y1),
                self.buf.wf(),
                self.buf.dims() == dims0,
                self.buf.dims().0 as nat == w,
                self.buf.dims().1 as nat == d,
                self.buf.dims().2 >= 1,
                0 <= min(x0 as int, x1 as int),
                max(x0 as int, x1 as int) < w,
                0 <= min(y0 as int, y1 as int),
                max(y0 as int, y1 as int) < d,
                forall|j: int|
                    0 <= j < points@.len() ==> {
                        &&& min(x0 as int, x1 as int) <= (#[trigger] points@[j]).0 <= max(
                            x0 as int,
                            x1 as int,
                        )
                        &&& min(y0 as int, y1 as int) <= points@[j].1 <= max(y0 as int, y1 as int)
                    },
                self.buf.voxels() == paint(orig, w, d, points@.take(k as int), colors@),
                self.state == (Turtle { x: x0, y: y0 }),
            decreases points@.len() - k,
        {
            let p = points[k];
            let c = colors[k];
            let cell = self.buf.voxel_mut(p.0 as u32, p.1 as u32, 0);
            *cell = c;
            proof {
                assert(points@.take(k + 1).drop_last() =~= points@.take(k as int));
                assert(points@.take(k + 1).last() == points@[k as int]);
            }
            k += 1;
        }
        proof {
            assert(points@.take(points@.len() as int) =~= points@);
        }
        self.state.x = x1;
        self.state.y = y1;
    }

    /// Move the turtle by `(dx, dy)` and draw a line along its path in the
    /// default draw color (opaque black).
    ///
    /// Every lattice point of the rasterized segment from the old position
    /// to the new one, both included, is written; the whole segment must lie
    /// on the canvas.
    pub fn draw(&mut self, dx: i32, dy: i32)
        requires
            old(self).wf(),
            old(self).canvas().dims().2 >= 1,
            old(self).drawable(old(self).turtle().x as int, old(self).turtle().y as int),
            old(self).drawable(old(self).turtle().x + dx, old(self).turtle().y + dy),
        ensures
            final(self).wf(),
            final(self).canvas().dims() == old(self).canvas().dims(),
            final(self).turtle().x == old(self).turtle().x + dx,
            final(self).turtle().y == old(self).turtle().y + dy,
            final(self).canvas().voxels() == paint(
                old(self).canvas().voxels(),
                old(self).canvas().dims().0 as nat,
                old(self).canvas().dims().1 as nat,
                line_points(
                    old(self).turtle().x,
                    old(self).turtle().y,
                    (old(self).turtle().x + dx) as i32,
                    (old(self).turtle().y + dy) as i32,
                ),
                const_colors(
                    (1 + max(abs(dx as int) as int, abs(dy as int) as int)) as nat,
                    Rgba([0u8, 0u8, 0u8, 255u8]),
                ),
            ),
    {
        self.draw_color(dx, dy, &Rgba([0, 0, 0, 255]));
    }

    /// Move the turtle by `(dx, dy)` and draw a line along its path in the
    /// given color.
    pub fn draw_color(&mut self, dx: i32, dy: i32, color: &Rgba)
        requires
            old(self).wf(),
            old(self).canvas().dims().2 >= 1,
            old(self).drawable(old(self).turtle().x as int, old(self).turtle().y as int),
            old(self).drawable(old(self).turtle().x + dx, old(self).turtle().y + dy),
        ensures
            final(self).wf(),
            final(self).canvas().dims() == old(self).canvas().dims(),
            final(self).turtle().x == old(self).turtle().x + dx,
            final(self).turtle().y == old(self).turtle().y + dy,
            final(self).canvas().voxels() == paint(
                old(self).canvas().voxels(),
                old(self).canvas().dims().0 as nat,
                old(self).canvas().dims().1 as nat,
                line_points(
                    old(self).turtle().x,
                    old(self).turtle().y,
                    (old(self).turtle().x + dx) as i32,
                    (old(self).turtle().y + dy) as i32,
                ),
                const_colors((1 + max(abs(dx as int) as int, abs(dy as int) as int)) as nat, *color),
            ),
    {
        let x1 = self.state.x + dx;
        let y1 = self.state.y + dy;
        let count = line_point_count(self.state.x, self.state.y, x1, y1);
        let mut colors: Vec<Rgba> = Vec::new();
        let mut k: usize = 0;
        while k < count
            invariant
                k <= count,
                colors@ =~= const_colors(k as nat, *color),
            decreases count - k,
        {
            colors.push(*color);
            k += 1;
        }
        proof {
            assert(colors@ =~= const_colors(count as nat, *color));
        }
        self.rasterize(x1, y1, &colors);
    }

    /// Move the turtle by `(dx, dy)` and draw a line along its path with a
    /// gradient: the `k`-th rasterized point takes the `k`-th gradient
    /// color.
    ///
    /// The segment has `1 + max(|dx|, |dy|)` points; the gradient must
    /// supply at least that many colors, and exactly one is consumed per
    /// point in emission order.
    pub fn draw_gradient(&mut self, dx: i32, dy: i32, gradient: &[[u8; 4]])
        requires
            old(self).wf(),
            old(self).canvas().dims().2 >= 1,
            old(self).drawable(old(self).turtle().x as int, old(self).turtle().y as int),
            old(self).drawable(old(self).turtle().x + dx, old(self).turtle().y + dy),
            gradient@.len() >= 1 + max(abs(dx as int) as int, abs(dy as int) as int),
        ensures
            final(self).wf(),
            final(self).canvas().dims() == old(self).canvas().dims(),
            final(self).turtle().x == old(self).turtle().x + dx,
            final(self).turtle().y == old(self).turtle().y + dy,
            final(self).canvas().voxels() == paint(
                old(self).canvas().voxels(),
                old(self).canvas().dims().0 as nat,
                old(self).canvas().dims().1 as nat,
                line_points(
                    old(self).turtle().x,
                    old(self).turtle().y,
                    (old(self).turtle().x + dx) as i32,
                    (old(self).turtle().y + dy) as i32,
                ),
                gradient_colors(gradient@),
            ),
    {
        let x1 = self.state.x + dx;
        let y1 = self.state.y + dy;
        let count = line_point_count(self.state.x, self.state.y, x1, y1);
        let mut colors: Vec<Rgba> = Vec::new();
        let mut k: usize = 0;
        while k < count
            invariant
                k <= count,
                count <= gradient@.len(),
                colors@ =~= gradient_colors(gradient@).take(k as int),
            decreases count - k,
        {
            colors.push(Rgba(gradient[k]));
            proof {
                assert(colors@ =~= gradient_colors(gradient@).take(k + 1));
            }
            k += 1;
        }
        self.rasterize(x1, y1, &colors);
        proof {
            lemma_paint_colors_agree(
                old(self).canvas().voxels(),
                old(self).canvas().dims().0 as nat,
                old(self).canvas().dims().1 as nat,
                line_points(old(self).turtle().x, old(self).turtle().y, x1, y1),
                colors@,
                gradient_colors(gradient@),
            );
        }
    }

    /// Get the current state of the turtle.
    pub fn state(&self) -> (r: Turtle)
        ensures
            r == self.turtle(),
    {
        self.state
    }

    /// Get the canvas the turtle has drawn on.
    pub fn buf(&self) -> (r: &ArrayVoxelBuffer<Rgba>)
        ensures
            *r == self.canvas(),
    {
        &self.buf
    }
}

/// The number of lattice points of a rasterized segment:
/// `1 + max(|dx|, |dy|)`.
fn line_point_count(x0: i32, y0: i32, x1: i32, y1: i32) -> (r: usize)
    requires
        -RASTER_COORD_LIMIT <= x0 <= RASTER_COORD_LIMIT,
        -RASTER_COORD_LIMIT <= y0 <= RASTER_COORD_LIMIT,
        -RASTER_COORD_LIMIT <= x1 <= RASTER_COORD_LIMIT,
        -RASTER_COORD_LIMIT <= y1 <= RASTER_COORD_LIMIT,
    ensures
        r == 1 + max(abs(x1 - x0) as int, abs(y1 - y0) as int),
{
    let ax: i32 = if x1 >= x0 {
        x1 - x0
    } else {
        x0 - x1
    };
    let ay: i32 = if y1 >= y0 {
        y1 - y0
    } else {
        y0 - y1
    };
    let m: i32 = if ax >= ay {
        ax
    } else {
        ay
    };
    (m as usize) + 1
}

} // verus!
