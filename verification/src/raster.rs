//! Drawing into the frame: single pixels and straight lines.
//!
//! The frame is 640 by 480 pixels of 32 bits, row by row. Whatever falls
//! outside it is left out without complaint.

use vstd::prelude::*;
use vstd::arithmetic::div_mod::lemma_fundamental_div_mod_converse;
use crate::frame::{HEIGHT, WIDTH};

verus! {

/// Number of pixels of the frame.
pub const PIXELS: usize = 307200;

/// The colour that the frame is cleared to: black.
pub const CLEAR_COLOR: u32 = 0xFF00_0000;

/// The colour of the wireframe: white.
pub const LINE_COLOR: u32 = 0xFFFF_FFFF;

/// Whether the point lies in the frame, and its pixel in a buffer of `len`
/// pixels.
pub open spec fn visible(len: nat, x: int, y: int) -> bool {
    0 <= x < WIDTH && 0 <= y < HEIGHT && y * WIDTH + x < len
}

/// The place of a point's pixel in the buffer.
pub open spec fn pixel_index(x: int, y: int) -> int {
    y * WIDTH + x
}

/// The distance between two coordinates.
pub open spec fn span(a: int, b: int) -> int {
    if a < b {
        b - a
    } else {
        a - b
    }
}

/// The coordinate `n` steps from `from` in the direction of `to`.
pub open spec fn toward(from: int, to: int, n: int) -> int {
    if from < to {
        from + n
    } else {
        from - n
    }
}

/// How far a line has moved along its shorter side when it has moved `k`
/// steps along its longer side: `k * minor / major`, rounded to the nearest
/// whole number, and up from a half.
pub open spec fn minor_steps(k: int, major: int, minor: int) -> int {
    if major > 0 {
        (2 * k * minor + major) / (2 * major)
    } else {
        0
    }
}

/// A line between two points of the integer grid.
pub struct Line {
    pub x0: int,
    pub y0: int,
    pub x1: int,
    pub y1: int,
}

impl Line {
    /// The line's extent along x.
    pub open spec fn dx(self) -> int {
        span(self.x0, self.x1)
    }

    /// The line's extent along y.
    pub open spec fn dy(self) -> int {
        span(self.y0, self.y1)
    }

    /// Number of steps from the first point to the last: the longer extent.
    pub open spec fn steps(self) -> int {
        if self.dx() >= self.dy() {
            self.dx()
        } else {
            self.dy()
        }
    }

    /// Point `k` of the line, from zero at the start to `steps()` at the end.
    /// Each point is one step further along the longer side, and as near to
    /// the true line along the shorter side as the grid allows.
    pub open spec fn point(self, k: int) -> (int, int) {
        if self.dx() >= self.dy() {
            (
                toward(self.x0, self.x1, k),
                toward(self.y0, self.y1, minor_steps(k, self.dx(), self.dy())),
            )
        } else {
            (
                toward(self.x0, self.x1, minor_steps(k, self.dy(), self.dx())),
                toward(self.y0, self.y1, k),
            )
        }
    }

    /// Whether one of the first `upto` points of the line is the visible
    /// pixel `i` of a buffer of `len` pixels.
    pub open spec fn covers(self, len: nat, upto: int, i: int) -> bool {
        exists|k: int|
            0 <= k < upto && visible(len, (#[trigger] self.point(k)).0, self.point(k).1)
                && pixel_index(self.point(k).0, self.point(k).1) == i
    }
}

/// The buffer after the first `upto` points of a line were drawn in `color`.
pub open spec fn plotted(fb: Seq<u32>, line: Line, upto: int, color: u32) -> Seq<u32> {
    Seq::new(
        fb.len(),
        |i: int|
            if line.covers(fb.len(), upto, i) {
                color
            } else {
                fb[i]
            },
    )
}

/// The buffer after one point was drawn in `color`.
pub open spec fn with_pixel(fb: Seq<u32>, x: int, y: int, color: u32) -> Seq<u32> {
    if visible(fb.len(), x, y) {
        fb.update(pixel_index(x, y), color)
    } else {
        fb
    }
}

fn plot(fb: &mut Vec<u32>, x: i64, y: i64, color: u32)
    ensures
        final(fb)@ == with_pixel(old(fb)@, x as int, y as int, color),
{
    if x < 0 || y < 0 || x >= WIDTH as i64 || y >= HEIGHT as i64 {
        return ;
    }
    let offset: usize = y as usize * WIDTH + x as usize;
    if offset < fb.len() {
        fb[offset] = color;
    }
}

/// Sets the pixel at `(x, y)` to `color`, if the point lies in the frame.
pub fn put_pixel(fb: &mut Vec<u32>, x: i32, y: i32, color: u32)
    ensures
        final(fb)@ == with_pixel(old(fb)@, x as int, y as int, color),
{
    plot(fb, x as i64, y as i64, color);
}

/// A whole number that lies within half a step of `k * minor / major`, with
/// the half counted upward, is the rounded quotient.
proof fn lemma_minor_steps(k: int, major: int, minor: int, m: int)
    requires
        major > 0,
        2 * (m * major) <= 2 * (k * minor) + major < 2 * (m * major) + 2 * major,
    ensures
        minor_steps(k, major, minor) == m,
{
    let n = 2 * k * minor + major;
    let d = 2 * major;
    assert(2 * k * minor == 2 * (k * minor)) by (nonlinear_arith);
    assert(m * d == 2 * (m * major)) by (nonlinear_arith)
        requires
            d == 2 * major,
    ;
    lemma_fundamental_div_mod_converse(n, d, m, n - m * d);
}

/// At the end of its longer side a line has reached the end of its shorter
/// side too.
proof fn lemma_minor_end(major: int, minor: int, m: int)
    requires
        major > 0,
        0 <= minor <= major,
        2 * (m * major) <= 2 * (major * minor) + major < 2 * (m * major) + 2 * major,
    ensures
        m == minor,
{
    assert(m <= minor) by (nonlinear_arith)
        requires
            major > 0,
            2 * (m * major) <= 2 * (major * minor) + major,
    {
        if m >= minor + 1 {
            assert(m * major >= (minor + 1) * major);
            assert((minor + 1) * major == major * minor + major);
        }
    }
    assert(m >= minor) by (nonlinear_arith)
        requires
            major > 0,
            2 * (major * minor) + major < 2 * (m * major) + 2 * major,
    {
        if m <= minor - 1 {
            assert(m * major <= (minor - 1) * major);
            assert((minor - 1) * major == major * minor - major);
        }
    }
}

/// A step along the shorter side never leads beyond its end.
proof fn lemma_minor_bound(k: int, major: int, minor: int, m: int)
    requires
        major > 0,
        0 <= minor <= major,
        0 <= k <= major,
        2 * (m * major) <= 2 * (k * minor) + major,
    ensures
        m <= minor,
{
    assert(m <= minor) by (nonlinear_arith)
        requires
            major > 0,
            0 <= minor,
            0 <= k <= major,
            2 * (m * major) <= 2 * (k * minor) + major,
    {
        assert(k * minor <= major * minor);
        if m >= minor + 1 {
            assert(m * major >= (minor + 1) * major);
            assert((minor + 1) * major == major * minor + major);
        }
    }
}

/// Drawing point `k` after the first `k` points gives the first `k + 1`.
proof fn lemma_plot_next(fb: Seq<u32>, line: Line, k: int, color: u32)
    requires
        0 <= k,
    ensures
        with_pixel(plotted(fb, line, k, color), line.point(k).0, line.point(k).1, color)
            == plotted(fb, line, k + 1, color),
{
    let before = plotted(fb, line, k, color);
    let p = line.point(k);
    let after = with_pixel(before, p.0, p.1, color);
    let goal = plotted(fb, line, k + 1, color);
    assert forall|i: int| 0 <= i < fb.len() implies after[i] == goal[i] by {
        let here = visible(fb.len(), p.0, p.1) && pixel_index(p.0, p.1) == i;
        if line.covers(fb.len(), k, i) {
            let j = choose|j: int|
                0 <= j < k && visible(fb.len(), (#[trigger] line.point(j)).0, line.point(j).1)
                    && pixel_index(line.point(j).0, line.point(j).1) == i;
            assert(0 <= j < k + 1 && visible(fb.len(), line.point(j).0, line.point(j).1));
            assert(line.covers(fb.len(), k + 1, i));
        } else if here {
            assert(visible(fb.len(), line.point(k).0, line.point(k).1));
            assert(line.covers(fb.len(), k + 1, i));
        } else {
            if line.covers(fb.len(), k + 1, i) {
                let j = choose|j: int|
                    0 <= j < k + 1 && visible(
                        fb.len(),
                        (#[trigger] line.point(j)).0,
                        line.point(j).1,
                    ) && pixel_index(line.point(j).0, line.point(j).1) == i;
                if j < k {
                    assert(line.covers(fb.len(), k, i));
                }
            }
        }
    }
    assert(after =~= goal);
}

/// Draws the straight line from `(x0, y0)` to `(x1, y1)` in `color`, both
/// ends included; points outside the frame are left out. The points are
/// those of [`Line::point`]: one for each step along the longer side, each
/// as near to the true line as the grid allows.
pub fn draw_line(fb: &mut Vec<u32>, x0: i32, y0: i32, x1: i32, y1: i32, color: u32)
    ensures
        ({
            let line = Line { x0: x0 as int, y0: y0 as int, x1: x1 as int, y1: y1 as int };
            final(fb)@ == plotted(old(fb)@, line, line.steps() + 1, color)
        }),
{
    let ghost line = Line { x0: x0 as int, y0: y0 as int, x1: x1 as int, y1: y1 as int };
    let tx: i64 = x1 as i64;
    let ty: i64 = y1 as i64;
    let mut x: i64 = x0 as i64;
    let mut y: i64 = y0 as i64;
    let dx: i64 = if x < tx {
        tx - x
    } else {
        x - tx
    };
    let sx: i64 = if x < tx {
        1
    } else {
        -1
    };
    let dy: i64 = if y < ty {
        y - ty
    } else {
        ty - y
    };
    let sy: i64 = if y < ty {
        1
    } else {
        -1
    };
    let mut err: i64 = dx + dy;
    let ghost ady: int = -dy;
    let ghost mut a: int = 0;
    let ghost mut b: int = 0;
    let ghost mut pa: int = 0;
    let ghost mut pb: int = 0;
    proof {
        assert(plotted(fb@, line, 0, color) =~= fb@);
        assert(0 * ady == 0 && 0 * dx == 0);
    }
    loop
        invariant_except_break
            fb@ == plotted(
                old(fb)@,
                line,
                if dx >= ady {
                    a
                } else {
                    b
                },
                color,
            ),
        invariant
            line == (Line { x0: x0 as int, y0: y0 as int, x1: x1 as int, y1: y1 as int }),
            tx == x1,
            ty == y1,
            dx == line.dx(),
            ady == line.dy(),
            dy == -ady,
            sx == if x0 < x1 { 1i64 } else { -1i64 },
            sy == if y0 < y1 { 1i64 } else { -1i64 },
            0 <= a <= dx,
            0 <= b <= ady,
            x == toward(x0 as int, x1 as int, a),
            y == toward(y0 as int, y1 as int, b),
            pa == a * ady,
            pb == b * dx,
            err == pb + dx - pa - ady,
            dx >= ady && dx > 0 ==> 2 * pb <= 2 * pa + dx < 2 * pb + 2 * dx,
            dx < ady ==> 2 * pa <= 2 * pb + ady < 2 * pa + 2 * ady,
        ensures
            fb@ == plotted(old(fb)@, line, line.steps() + 1, color),
        decreases
            line.steps() - (if dx >= ady {
                a
            } else {
                b
            }),
    {
        let ghost k = if dx >= ady {
            a
        } else {
            b
        };
        proof {
            if dx >= ady {
                if dx > 0 {
                    lemma_minor_steps(a, dx as int, ady, b);
                }
            } else {
                lemma_minor_steps(b, ady, dx as int, a);
            }
            assert(line.point(k) == (x as int, y as int));
            lemma_plot_next(old(fb)@, line, k, color);
        }
        plot(fb, x, y, color);
        if x == tx && y == ty {
            break ;
        }
        proof {
            if dx >= ady {
                if a == dx {
                    if dx > 0 {
                        assert(a * ady == dx * ady);
                        lemma_minor_end(dx as int, ady, b);
                    }
                }
                assert(a < dx);
            } else {
                if b == ady {
                    assert(b * dx == ady * dx);
                    lemma_minor_end(ady, dx as int, a);
                }
                assert(b < ady);
            }
        }
        let e2: i64 = 2 * err;
        let ghost step_x = e2 >= dy;
        let ghost step_y = e2 <= dx;
        if e2 >= dy {
            err = err + dy;
            x = x + sx;
        }
        if e2 <= dx {
            err = err + dx;
            y = y + sy;
        }
        proof {
            let a0 = a;
            let b0 = b;
            if step_x {
                a = a + 1;
                pa = pa + ady;
                assert((a0 + 1) * ady == a0 * ady + ady) by (nonlinear_arith);
            }
            if step_y {
                b = b + 1;
                pb = pb + dx;
                assert((b0 + 1) * dx == b0 * dx + dx) by (nonlinear_arith);
            }
            if dx >= ady {
                assert(step_x);
                if step_y {
                    lemma_minor_bound(a, dx as int, ady, b);
                }
            } else {
                assert(step_y);
                if step_x {
                    lemma_minor_bound(b, ady, dx as int, a);
                }
            }
        }
    }
}

/// A line starts at its first end and stops at its second.
pub proof fn lemma_line_ends(line: Line)
    ensures
        line.point(0) == (line.x0, line.y0),
        line.point(line.steps()) == (line.x1, line.y1),
{
    let major = line.steps();
    let minor = if line.dx() >= line.dy() {
        line.dy()
    } else {
        line.dx()
    };
    if major > 0 {
        assert(0 * minor == 0);
        assert(0 * major == 0);
        lemma_minor_steps(0, major, minor, 0);
        assert(minor * major == major * minor) by (nonlinear_arith);
        lemma_minor_steps(major, major, minor, minor);
    }
}

/// From one point of a line to the next, the longer side moves by one step
/// and the shorter side by one step or none; and no point lies beyond the
/// line's ends.
pub proof fn lemma_line_is_connected(line: Line, k: int)
    requires
        0 <= k < line.steps(),
    ensures
        ({
            let here = line.point(k);
            let there = line.point(k + 1);
            &&& span(here.0, there.0) <= 1
            &&& span(here.1, there.1) <= 1
            &&& span(here.0, there.0) == 1 || span(here.1, there.1) == 1
            &&& span(line.x0, there.0) <= line.dx()
            &&& span(line.y0, there.1) <= line.dy()
        }),
{
    let major = line.steps();
    let minor = if line.dx() >= line.dy() {
        line.dy()
    } else {
        line.dx()
    };
    let m = minor_steps(k, major, minor);
    let n = minor_steps(k + 1, major, minor);
    lemma_minor_steps_grow(k, major, minor);
    lemma_minor_steps_grow(k + 1, major, minor);
    assert((k + 1) * minor <= major * minor) by (nonlinear_arith)
        requires
            0 <= k + 1 <= major,
            0 <= minor,
    ;
    lemma_minor_bound(k + 1, major, minor, n);
}

/// The rounded quotient lies within half a step of the true one, is never
/// negative, and grows by one step or none when `k` grows by one.
proof fn lemma_minor_steps_grow(k: int, major: int, minor: int)
    requires
        major > 0,
        0 <= minor <= major,
        0 <= k,
    ensures
        ({
            let m = minor_steps(k, major, minor);
            let n = minor_steps(k + 1, major, minor);
            &&& 2 * (m * major) <= 2 * (k * minor) + major < 2 * (m * major) + 2 * major
            &&& 0 <= m
            &&& m <= n <= m + 1
        }),
{
    lemma_minor_steps_within(k, major, minor);
    lemma_minor_steps_within(k + 1, major, minor);
    let m = minor_steps(k, major, minor);
    let n = minor_steps(k + 1, major, minor);
    assert((k + 1) * minor == k * minor + minor) by (nonlinear_arith);
    assert(0 <= k * minor) by (nonlinear_arith)
        requires
            0 <= k,
            0 <= minor,
    ;
    assert(0 <= m) by (nonlinear_arith)
        requires
            major > 0,
            0 <= 2 * (k * minor) + major < 2 * (m * major) + 2 * major,
    {
        if m <= -1 {
            assert(m * major <= -major);
        }
    }
    assert(m <= n) by (nonlinear_arith)
        requires
            major > 0,
            0 <= minor,
            2 * (m * major) <= 2 * (k * minor) + major,
            2 * (k * minor) + 2 * minor + major < 2 * (n * major) + 2 * major,
    {
        if n <= m - 1 {
            assert(n * major <= (m - 1) * major);
            assert((m - 1) * major == m * major - major);
        }
    }
    assert(n <= m + 1) by (nonlinear_arith)
        requires
            major > 0,
            minor <= major,
            2 * (n * major) <= 2 * (k * minor) + 2 * minor + major,
            2 * (k * minor) + major < 2 * (m * major) + 2 * major,
    {
        if n >= m + 2 {
            assert(n * major >= (m + 2) * major);
            assert((m + 2) * major == m * major + 2 * major);
        }
    }
}

/// The rounded quotient lies within half a step of the true one.
proof fn lemma_minor_steps_within(k: int, major: int, minor: int)
    requires
        major > 0,
    ensures
        ({
            let m = minor_steps(k, major, minor);
            2 * (m * major) <= 2 * (k * minor) + major < 2 * (m * major) + 2 * major
        }),
{
    let n = 2 * k * minor + major;
    let d = 2 * major;
    let m = n / d;
    vstd::arithmetic::div_mod::lemma_fundamental_div_mod(n, d);
    vstd::arithmetic::div_mod::lemma_mod_bound(n, d);
    assert(2 * k * minor == 2 * (k * minor)) by (nonlinear_arith);
    assert(d * m == 2 * (m * major)) by (nonlinear_arith)
        requires
            d == 2 * major,
    ;
}

/// The twelve edges of a cube, each a pair of corners; corner `i` is
/// `proj[i]`.
pub open spec fn cube_edges() -> Seq<(int, int)> {
    seq![
        (0int, 1int),
        (1int, 2int),
        (2int, 3int),
        (3int, 0int),
        (4int, 5int),
        (5int, 6int),
        (6int, 7int),
        (7int, 4int),
        (0int, 4int),
        (1int, 5int),
        (2int, 6int),
        (3int, 7int),
    ]
}

/// The buffer with every pixel of the frame black.
pub open spec fn cleared(fb: Seq<u32>) -> Seq<u32> {
    Seq::new(
        fb.len(),
        |i: int|
            if i < PIXELS {
                CLEAR_COLOR
            } else {
                fb[i]
            },
    )
}

/// The line along an edge between two projected corners.
pub open spec fn edge_line(proj: Seq<(i32, i32)>, edge: (int, int)) -> Line {
    Line {
        x0: proj[edge.0].0 as int,
        y0: proj[edge.0].1 as int,
        x1: proj[edge.1].0 as int,
        y1: proj[edge.1].1 as int,
    }
}

/// The buffer after the first `n` edges of the cube were drawn in white.
pub open spec fn wireframe(fb: Seq<u32>, proj: Seq<(i32, i32)>, n: nat) -> Seq<u32>
    decreases n,
{
    if n == 0 {
        fb
    } else {
        let line = edge_line(proj, cube_edges()[n - 1]);
        plotted(wireframe(fb, proj, (n - 1) as nat), line, line.steps() + 1, LINE_COLOR)
    }
}

/// Edge `i` of the cube; `None` from the twelfth on.
pub fn cube_edge(i: usize) -> (r: Option<(usize, usize)>)
    ensures
        match r {
            Some(edge) => {
                &&& i < 12
                &&& (edge.0 as int, edge.1 as int) == cube_edges()[i as int]
                &&& edge.0 < 8
                &&& edge.1 < 8
            },
            None => i >= 12,
        },
{
    match i {
        0 => Some((0, 1)),
        1 => Some((1, 2)),
        2 => Some((2, 3)),
        3 => Some((3, 0)),
        4 => Some((4, 5)),
        5 => Some((5, 6)),
        6 => Some((6, 7)),
        7 => Some((7, 4)),
        8 => Some((0, 4)),
        9 => Some((1, 5)),
        10 => Some((2, 6)),
        11 => Some((3, 7)),
        _ => None,
    }
}

/// Draws one picture of the cube: clears the frame to black, then draws the
/// twelve edges between the projected corners in white.
pub fn render(fb: &mut Vec<u32>, proj: &[(i32, i32); 8])
    ensures
        final(fb)@ == wireframe(cleared(old(fb)@), proj@, 12),
{
    let mut i: usize = 0;
    while i < fb.len() && i < PIXELS
        invariant
            fb@.len() == old(fb)@.len(),
            i <= fb@.len(),
            i <= PIXELS,
            forall|k: int| 0 <= k < i ==> fb@[k] == CLEAR_COLOR,
            forall|k: int| i <= k < fb@.len() ==> fb@[k] == old(fb)@[k],
        decreases fb@.len() - i,
    {
        fb[i] = CLEAR_COLOR;
        i = i + 1;
    }
    assert(fb@ =~= cleared(old(fb)@));
    let mut e: usize = 0;
    while e < 12
        invariant
            e <= 12,
            fb@ == wireframe(cleared(old(fb)@), proj@, e as nat),
        decreases 12 - e,
    {
        if let Some((from, to)) = cube_edge(e) {
            let (x0, y0) = proj[from];
            let (x1, y1) = proj[to];
            draw_line(fb, x0, y0, x1, y1, LINE_COLOR);
        }
        e = e + 1;
    }
}

} // verus!
