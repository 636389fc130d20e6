use voxgen::turtle::TurtleGraphics;
use voxgen::turtle_graphics::TurtleGraphics as ColorTurtle;
use voxgen::voxel_buffer::{Rgba, VoxelBuffer};

/// The coordinates of every non-empty voxel, in ascending index order.
fn marked(t: &TurtleGraphics) -> Vec<(u32, u32, u32)> {
    let buf = t.buf();
    let (sx, sy, sz) = buf.dimensions();
    let mut out = Vec::new();
    for z in 0..sz {
        for y in 0..sy {
            for x in 0..sx {
                if buf.voxel(x, y, z).0[3] > 0 {
                    out.push((x, y, z));
                }
            }
        }
    }
    out
}

#[test]
fn step_moves_without_drawing() {
    let mut t = TurtleGraphics::new(3, 3, 3);
    t.step(1, 0);
    assert_eq!((t.state().x, t.state().y), (1, 0));
    assert_eq!(marked(&t), Vec::new());
}

#[test]
fn step_then_draw_marks_the_drawn_segment_only() {
    // One step east, a quarter turn left (handled by the caller's heading),
    // then a draw of two: the three cells of the vertical segment are
    // marked in the default color; the start cell of the walk stays unset.
    let mut t = TurtleGraphics::new(3, 3, 3);
    t.step(1, 0);
    t.draw(0, 2);
    assert_eq!((t.state().x, t.state().y), (1, 2));
    assert_eq!(marked(&t), vec![(1, 0, 0), (1, 1, 0), (1, 2, 0)]);
    for &(x, y, z) in &[(1u32, 0u32, 0u32), (1, 1, 0), (1, 2, 0)] {
        assert_eq!(*t.buf().voxel(x, y, z), Rgba([0, 0, 0, 255]));
    }
    assert_eq!(*t.buf().voxel(0, 0, 0), Rgba([0, 0, 0, 0]));
}

#[test]
fn draw_includes_both_endpoints() {
    let mut t = TurtleGraphics::new(4, 4, 1);
    t.draw(3, 0);
    assert_eq!(marked(&t), vec![(0, 0, 0), (1, 0, 0), (2, 0, 0), (3, 0, 0)]);
}

#[test]
fn draw_rasterizes_a_diagonal() {
    let mut t = TurtleGraphics::new(3, 3, 1);
    t.draw(2, 2);
    assert_eq!(marked(&t), vec![(0, 0, 0), (1, 1, 0), (2, 2, 0)]);
}

#[test]
fn draw_color_writes_the_given_color() {
    let mut t = TurtleGraphics::new(3, 1, 1);
    t.draw_color(2, 0, &Rgba([200, 100, 50, 255]));
    for x in 0..3 {
        assert_eq!(*t.buf().voxel(x, 0, 0), Rgba([200, 100, 50, 255]));
    }
}

#[test]
fn draw_gradient_consumes_one_color_per_point() {
    let mut t = TurtleGraphics::new(1, 3, 1);
    let gradient = [
        [255, 0, 0, 255],
        [0, 255, 0, 255],
        [0, 0, 255, 255],
        [9, 9, 9, 255],
    ];
    t.draw_gradient(0, 2, &gradient);
    assert_eq!(*t.buf().voxel(0, 0, 0), Rgba([255, 0, 0, 255]));
    assert_eq!(*t.buf().voxel(0, 1, 0), Rgba([0, 255, 0, 255]));
    assert_eq!(*t.buf().voxel(0, 2, 0), Rgba([0, 0, 255, 255]));
}

#[test]
fn draws_only_touch_the_bottom_plane() {
    let mut t = TurtleGraphics::new(3, 3, 3);
    t.draw(2, 0);
    for (_x, _y, z) in marked(&t) {
        assert_eq!(z, 0);
    }
}

#[test]
fn color_state_turtle_draws_in_its_color() {
    let mut t = ColorTurtle::new(3, 1, 1);
    assert_eq!(t.state().color, Rgba([0, 0, 0, 255]));
    t.color(Rgba([12, 34, 56, 255]));
    t.draw(2, 0);
    assert_eq!(t.state().color, Rgba([12, 34, 56, 255]));
    assert_eq!((t.state().x, t.state().y), (2, 0));
    for x in 0..3 {
        assert_eq!(*t.buf().voxel(x, 0, 0), Rgba([12, 34, 56, 255]));
    }
}

#[test]
fn new_engine_has_empty_canvas_and_origin_turtle() {
    let t = TurtleGraphics::new(8, 8, 2);
    assert_eq!((t.state().x, t.state().y), (0, 0));
    assert_eq!(t.buf().dimensions(), (8, 8, 2));
    assert_eq!(marked(&t), Vec::new());
}
