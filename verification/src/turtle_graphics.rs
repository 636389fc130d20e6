//! Turtle graphics with a stored draw color.
//!
//! A variant of the engine in [`crate::turtle`]: the turtle carries its
//! current draw color as part of its state, set once with
//! [`TurtleGraphics::color`] and used by every following draw.

use vstd::prelude::*;
use vstd::math::{abs, max};
use crate::raster::{line_points, RASTER_COORD_LIMIT};
use crate::turtle::{paint, const_colors};
use crate::voxel_buffer::{ArrayVoxelBuffer, Rgba, Voxel, VoxelBuffer};

verus! {

/// The drawing turtle: its integer position on the canvas plane and its
/// current draw color. The continuous heading lives with the caller that
/// drives the turtle.
#[derive(Copy, Clone, Debug, PartialEq, Eq)]
pub struct Turtle {
    /// The turtle's position along the canvas' first axis.
    pub x: i32,
    /// The turtle's position along the canvas' second axis.
    pub y: i32,
    /// The color the next draw writes.
    pub color: Rgba,
}

/// Draw on an [`ArrayVoxelBuffer`] canvas with turtle-style commands,
/// carrying the draw color in the turtle's state.
pub struct TurtleGraphics {
    buf: ArrayVoxelBuffer<Rgba>,
    state: Turtle,
}

impl TurtleGraphics {
    /// The turtle's current state.
    pub closed spec fn turtle(&self) -> Turtle {
        self.state
    }

    /// The canvas being drawn on.
    pub closed spec fn canvas(&self) -> ArrayVoxelBuffer<Rgba> {
        self.buf
    }

    /// The engine is well formed when its canvas is.
    pub open spec fn wf(&self) -> bool {
        self.canvas().wf()
    }

    /// The position `(px, py)` lies on the canvas' drawing plane.
    pub open spec fn on_canvas(&self, px: int, py: int) -> bool {
        &&& 0 <= px < self.canvas().dims().0
        &&& 0 <= py < self.canvas().dims().1
    }

    /// A position the rasterizer accepts: on the canvas and within its
    /// coordinate limit.
    pub open spec fn drawable(&self, px: int, py: int) -> bool {
        &&& self.on_canvas(px, py)
        &&& px <= RASTER_COORD_LIMIT
        &&& py <= RASTER_COORD_LIMIT
    }

    /// Create a new `TurtleGraphics` engine of the given canvas dimensions.
    ///
    /// The canvas is initially empty. The turtle starts at position
    /// `(0, 0)` with the draw color opaque black; the caller keeps the
    /// heading, whose zero (facing east) pairs with this start.
    pub fn new(size_x: u32, size_y: u32, size_z: u32) -> (r: TurtleGraphics)
        requires
            4 * (size_x as nat) <= usize::MAX,
            4 * (size_x as nat) * (size_y as nat) <= usize::MAX,
            4 * (size_x as nat) * (size_y as nat) * (size_z as nat) <= usize::MAX,
        ensures
            r.wf(),
            r.canvas().dims() == (size_x, size_y, size_z),
            r.turtle() == (Turtle { x: 0, y: 0, color: Rgba([0u8, 0u8, 0u8, 255u8]) }),
            r.canvas().voxels() == Seq::new(
                r.canvas().total(),
                |i: int| Rgba([0u8, 0u8, 0u8, 0u8]),
            ),
    {
        let buf = ArrayVoxelBuffer::<Rgba>::new(size_x, size_y, size_z);
        let r = TurtleGraphics {
            buf,
            state: Turtle { x: 0, y: 0, color: Rgba([0, 0, 0, 255]) },
        };
        proof {
            assert(r.canvas().voxels() =~= Seq::new(
                r.canvas().total(),
                |i: int| Rgba([0u8, 0u8, 0u8, 0u8]),
            )) by {
                assert forall|i: int| 0 <= i < r.canvas().total() implies r.canvas().voxels()[i]
                    == Rgba([0u8, 0u8, 0u8, 0u8]) by {
                    let zeros = Seq::new(4nat, |j: int| 0u8);
                    assert(Rgba([0u8, 0u8, 0u8, 0u8]).0@ =~= zeros);
                    assert(r.canvas().voxels()[i] == Rgba::of_byte_seq(zeros));
                    assert(Rgba([0u8, 0u8, 0u8, 0u8]).0 =~= Rgba::of_byte_seq(zeros).0);
                }
            }
        }
        r
    }

    /// Move the turtle by `(dx, dy)` without drawing.
    pub fn step(&mut self, dx: i32, dy: i32)
        requires
            i32::MIN <= old(self).turtle().x + dx <= i32::MAX,
            i32::MIN <= old(self).turtle().y + dy <= i32::MAX,
        ensures
            final(self).turtle().x == old(self).turtle().x + dx,
            final(self).turtle().y == old(self).turtle().y + dy,
            final(self).turtle().color == old(self).turtle().color,
            final(self).canvas() == old(self).canvas(),
    {
        self.state.x = self.state.x + dx;
        self.state.y = self.state.y + dy;
    }

    /// Set the turtle's draw color.
    pub fn color(&mut self, color: Rgba)
        ensures
            final(self).turtle().x == old(self).turtle().x,
            final(self).turtle().y == old(self).turtle().y,
            final(self).turtle().color == color,
            final(self).canvas() == old(self).canvas(),
    {
        self.state.color = color;
    }

    /// Move the turtle by `(dx, dy)` and draw a line along its path in the
    /// turtle's current draw color.
    ///
    /// Every lattice point of the rasterized segment from the old position
    /// to the new one, both included, is written; the whole segment must lie
    /// on the canvas.
    pub fn draw(&mut self, dx: i32, dy: i32)
        requires
            old(self).wf(),
            old(self).canvas().dims().2 >= 1,
            old(self).drawable(old(self).turtle().x as int, old(self).turtle().y as int),
            old(self).drawable(old(self).turtle().x + dx, old(self).turtle().y + dy),
        ensures
            final(self).wf(),
            final(self).canvas().dims() == old(self).canvas().dims(),
            final(self).turtle().x == old(self).turtle().x + dx,
            final(self).turtle().y == old(self).turtle().y + dy,
            final(self).turtle().color == old(self).turtle().color,
            final(self).canvas().voxels() == paint(
                old(self).canvas().voxels(),
                old(self).canvas().dims().0 as nat,
                old(self).canvas().dims().1 as nat,
                line_points(
                    old(self).turtle().x,
                    old(self).turtle().y,
                    (old(self).turtle().x + dx) as i32,
                    (old(self).turtle().y + dy) as i32,
                ),
                const_colors(
                    (1 + max(abs(dx as int) as int, abs(dy as int) as int)) as nat,
                    old(self).turtle().color,
                ),
            ),
    {
        let x1 = self.state.x + dx;
        let y1 = self.state.y + dy;
        let color = self.state.color;
        let count = line_point_count(self.state.x, self.state.y, x1, y1);
        let mut colors: Vec<Rgba> = Vec::new();
        let mut k: usize = 0;
        while k < count
            invariant
                k <= count,
                colors@ =~= const_colors(k as nat, color),
            decreases count - k,
        {
            colors.push(color);
            k += 1;
        }
        proof {
            assert(colors@ =~= const_colors(count as nat, color));
        }
        self.rasterize(x1, y1, &colors);
    }

    /// Move the turtle to `(x1, y1)` and write `colors[k]` into the cell at
    /// the `k`-th rasterized point of the moved-over segment.
    fn rasterize(&mut self, x1: i32, y1: i32, colors: &Vec<Rgba>)
        requires
            old(self).wf(),
            old(self).canvas().dims().2 >= 1,
            old(self).drawable(old(self).turtle().x as int, old(self).turtle().y as int),
            old(self).drawable(x1 as int, y1 as int),
            colors@.len() == 1 + max(
                abs(x1 - old(self).turtle().x) as int,
                abs(y1 - old(self).turtle().y) as int,
            ),
        ensures
            final(self).wf(),
            final(self).canvas().dims() == old(self).canvas().dims(),
            final(self).turtle() == (Turtle {
                x: x1,
                y: y1,
                color: old(self).turtle().color,
            }),
            line_points(old(self).turtle().x, old(self).turtle().y, x1, y1).len()
                == colors@.len(),
            final(self).canvas().voxels() == paint(
                old(self).canvas().voxels(),
                old(self).canvas().dims().0 as nat,
                old(self).canvas().dims().1 as nat,
                line_points(old(self).turtle().x, old(self).turtle().y, x1, y1),
                colors@,
            ),
    {
        let x0 = self.state.x;
        let y0 = self.state.y;
        let ghost orig = self.buf.voxels();
        let ghost dims0 = self.buf.dims();
        let ghost w = self.buf.dims().0 as nat;
        let ghost d = self.buf.dims().1 as nat;
        let points = crate::raster::bresenham_points(x0, y0, x1, y1);
        let mut k: usize = 0;
        while k < points.len()
            invariant
                k <= points@.len(),
                colors@.len() == points@.len(),
                points@ == line_points(x0, y0, x1, y1),
                self.buf.wf(),
                self.buf.dims() == dims0,
                self.buf.dims().0 as nat == w,
                self.buf.dims().1 as nat == d,
                self.buf.dims().2 >= 1,
                0 <= vstd::math::min(x0 as int, x1 as int),
                max(x0 as int, x1 as int) < w,
                0 <= vstd::math::min(y0 as int, y1 as int),
                max(y0 as int, y1 as int) < d,
                forall|j: int|
                    0 <= j < points@.len() ==> {
                        &&& vstd::math::min(x0 as int, x1 as int) <= (#[trigger] points@[j]).0
                            <= max(x0 as int, x1 as int)
                        &&& vstd::math::min(y0 as int, y1 as int) <= points@[j].1 <= max(
                            y0 as int,
                            y1 as int,
                        )
                    },
                self.buf.voxels() == paint(orig, w, d, points@.take(k as int), colors@),
                self.state == (Turtle { x: x0, y: y0, color: old(self).turtle().color }),
            decreases points@.len() - k,
        {
            let p = points[k];
            let c = colors[k];
            let cell = self.buf.voxel_mut(p.0 as u32, p.1 as u32, 0);
            *cell = c;
            proof {
                assert(points@.take(k + 1).drop_last() =~= points@.take(k as int));
                assert(points@.take(k + 1).last() == points@[k as int]);
            }
            k += 1;
        }
        proof {
            assert(points@.take(points@.len() as int) =~= points@);
        }
        self.state.x = x1;
        self.state.y = y1;
    }

    /// Get the current state of the turtle.
    pub fn state(&self) -> (r: Turtle)
        ensures
            r == self.turtle(),
    {
        self.state
    }

    /// Get the canvas the turtle has drawn on.
    pub fn buf(&self) -> (r: &ArrayVoxelBuffer<Rgba>)
        ensures
            *r == self.canvas(),
    {
        &self.buf
    }
}

/// The number of lattice points of a rasterized segment:
/// `1 + max(|dx|, |dy|)`.
fn line_point_count(x0: i32, y0: i32, x1: i32, y1: i32) -> (r: usize)
    requires
        -RASTER_COORD_LIMIT <= x0 <= RASTER_COORD_LIMIT,
        -RASTER_COORD_LIMIT <= y0 <= RASTER_COORD_LIMIT,
        -RASTER_COORD_LIMIT <= x1 <= RASTER_COORD_LIMIT,
        -RASTER_COORD_LIMIT <= y1 <= RASTER_COORD_LIMIT,
    ensures
        r == 1 + max(abs(x1 - x0) as int, abs(y1 - y0) as int),
{
    let ax: i32 = if x1 >= x0 {
        x1 - x0
    } else {
        x0 - x1
    };
    let ay: i32 = if y1 >= y0 {
        y1 - y0
    } else {
        y0 - y1
    };
    let m: i32 = if ax >= ay {
        ax
    } else {
        ay
    };
    (m as usize) + 1
}

} // verus!
