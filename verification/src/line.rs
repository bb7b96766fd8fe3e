//! Bresenham line drawing with a square pen, as used for the line graphs.
use vstd::prelude::*;
use crate::frame::{Frame, fill_rect};

verus! {

pub open spec fn abs_i(v: int) -> int {
    if v >= 0 {
        v
    } else {
        -v
    }
}

pub open spec fn dir(from: int, to: int) -> int {
    if from < to {
        1
    } else {
        -1
    }
}

/// The points visited from `(x, y)` with error term `err` towards `(x2, y2)`,
/// taking at most `fuel` points. `dx >= 0` and `dy <= 0` are the distances
/// along each axis (the latter negated), `sx` and `sy` the step directions.
pub open spec fn walk(
    x: int,
    y: int,
    err: int,
    x2: int,
    y2: int,
    dx: int,
    dy: int,
    sx: int,
    sy: int,
    fuel: nat,
) -> Seq<(int, int)>
    decreases fuel,
{
    if fuel == 0 {
        seq![]
    } else if x == x2 && y == y2 {
        seq![(x, y)]
    } else {
        let e2 = 2 * err;
        let err1 = if e2 >= dy { err + dy } else { err };
        let nx = if e2 >= dy { x + sx } else { x };
        let err2 = if e2 <= dx { err1 + dx } else { err1 };
        let ny = if e2 <= dx { y + sy } else { y };
        seq![(x, y)] + walk(nx, ny, err2, x2, y2, dx, dy, sx, sy, (fuel - 1) as nat)
    }
}

proof fn lemma_walk_nonempty(
    x: int,
    y: int,
    err: int,
    x2: int,
    y2: int,
    dx: int,
    dy: int,
    sx: int,
    sy: int,
    fuel: nat,
)
    requires
        fuel > 0,
    ensures
        walk(x, y, err, x2, y2, dx, dy, sx, sy, fuel).len() > 0,
        walk(x, y, err, x2, y2, dx, dy, sx, sy, fuel)[0] == (x, y),
{
}

/// The points of the line from `(x1, y1)` to `(x2, y2)`.
pub open spec fn line_points(x1: int, y1: int, x2: int, y2: int) -> Seq<(int, int)> {
    let dx = abs_i(x2 - x1);
    let dy = -abs_i(y2 - y1);
    walk(x1, y1, dx + dy, x2, y2, dx, dy, dir(x1, x2), dir(y1, y2), (dx - dy + 1) as nat)
}

/// A state the walk from `(x1, y1)` can be in after `a` steps along x and `b` along y.
pub open spec fn reachable(
    x1: int,
    y1: int,
    x2: int,
    y2: int,
    x: int,
    y: int,
    err: int,
    a: int,
    b: int,
) -> bool {
    let dx = abs_i(x2 - x1);
    let d = abs_i(y2 - y1);
    &&& 0 <= a <= dx
    &&& 0 <= b <= d
    &&& x == x1 + dir(x1, x2) * a
    &&& y == y1 + dir(y1, y2) * b
    &&& err == dx * (b + 1) - d * (a + 1)
    &&& -2 * d <= err <= 2 * dx
}

/// One step of the walk keeps it reachable, moves it along at least one axis
/// towards the end point, and never past it.
proof fn lemma_step(x1: int, y1: int, x2: int, y2: int, x: int, y: int, err: int, a: int, b: int)
    requires
        reachable(x1, y1, x2, y2, x, y, err, a, b),
        !(x == x2 && y == y2),
    ensures
        ({
            let dx = abs_i(x2 - x1);
            let dy = -abs_i(y2 - y1);
            let e2 = 2 * err;
            let xs = e2 >= dy;
            let ys = e2 <= dx;
            &&& xs || ys
            &&& reachable(
                x1,
                y1,
                x2,
                y2,
                if xs { x + dir(x1, x2) } else { x },
                if ys { y + dir(y1, y2) } else { y },
                err + (if xs { dy } else { 0 }) + (if ys { dx } else { 0 }),
                if xs { a + 1 } else { a },
                if ys { b + 1 } else { b },
            )
        }),
{
    let dx = abs_i(x2 - x1);
    let d = abs_i(y2 - y1);
    let sx = dir(x1, x2);
    let sy = dir(y1, y2);
    assert(x2 == x1 + sx * dx);
    assert(y2 == y1 + sy * d);
    if a == dx {
        // x is done, so y is not
        assert(x == x2);
        assert(b < d) by {
            if b == d {
                assert(y == y2);
            }
        }
        assert(!(2 * err >= -d)) by (nonlinear_arith)
            requires
                err == dx * (b + 1) - d * (a + 1),
                a == dx,
                0 <= b < d,
                dx >= 0;
    }
    if b == d {
        assert(y == y2);
        assert(a < dx) by {
            if a == dx {
                assert(x == x2);
            }
        }
        assert(!(2 * err <= dx)) by (nonlinear_arith)
            requires
                err == dx * (b + 1) - d * (a + 1),
                b == d,
                0 <= a < dx,
                d >= 0;
    }
    assert(sx * (a + 1) == sx * a + sx) by (nonlinear_arith);
    assert(sy * (b + 1) == sy * b + sy) by (nonlinear_arith);
    assert(dx * (b + 2) == dx * (b + 1) + dx) by (nonlinear_arith);
    assert(d * (a + 2) == d * (a + 1) + d) by (nonlinear_arith);
}

/// Every pair of consecutive points are neighbours (at most one step apart on each axis).
pub open spec fn connected(ps: Seq<(int, int)>) -> bool {
    forall|k: int|
        0 < k < ps.len() ==> abs_i(#[trigger] ps[k].0 - ps[k - 1].0) <= 1 && abs_i(ps[k].1 - ps[k - 1].1)
            <= 1
}

proof fn lemma_walk_reaches(
    x1: int,
    y1: int,
    x2: int,
    y2: int,
    x: int,
    y: int,
    err: int,
    a: int,
    b: int,
    fuel: nat,
)
    requires
        reachable(x1, y1, x2, y2, x, y, err, a, b),
        fuel >= abs_i(x2 - x1) - a + abs_i(y2 - y1) - b + 1,
    ensures
        ({
            let ps = walk(x, y, err, x2, y2, abs_i(x2 - x1), -abs_i(y2 - y1), dir(x1, x2), dir(y1, y2), fuel);
            &&& ps.len() > 0
            &&& ps[0] == (x, y)
            &&& ps.last() == (x2, y2)
            &&& connected(ps)
        }),
    decreases fuel,
{
    let dx = abs_i(x2 - x1);
    let dy = -abs_i(y2 - y1);
    let sx = dir(x1, x2);
    let sy = dir(y1, y2);
    let ps = walk(x, y, err, x2, y2, dx, dy, sx, sy, fuel);
    if !(x == x2 && y == y2) {
        lemma_step(x1, y1, x2, y2, x, y, err, a, b);
        let e2 = 2 * err;
        let xs = e2 >= dy;
        let ys = e2 <= dx;
        let nx = if xs { x + sx } else { x };
        let ny = if ys { y + sy } else { y };
        let nerr = err + (if xs { dy } else { 0 }) + (if ys { dx } else { 0 });
        let na = if xs { a + 1 } else { a };
        let nb = if ys { b + 1 } else { b };
        lemma_walk_reaches(x1, y1, x2, y2, nx, ny, nerr, na, nb, (fuel - 1) as nat);
        let rest = walk(nx, ny, nerr, x2, y2, dx, dy, sx, sy, (fuel - 1) as nat);
        assert(ps == seq![(x, y)] + rest);
        assert forall|k: int| 0 < k < ps.len() implies abs_i(#[trigger] ps[k].0 - ps[k - 1].0) <= 1
            && abs_i(ps[k].1 - ps[k - 1].1) <= 1 by {
            if k == 1 {
                assert(ps[1] == rest[0]);
            } else {
                assert(ps[k] == rest[k - 1]);
                assert(ps[k - 1] == rest[k - 2]);
            }
        }
    }
}

/// The line starts at its first end point, finishes at its second, and has no
/// gaps: consecutive points touch.
pub proof fn line_connects(x1: int, y1: int, x2: int, y2: int)
    ensures
        line_points(x1, y1, x2, y2).len() > 0,
        line_points(x1, y1, x2, y2)[0] == (x1, y1),
        line_points(x1, y1, x2, y2).last() == (x2, y2),
        connected(line_points(x1, y1, x2, y2)),
{
    let dx = abs_i(x2 - x1);
    let d = abs_i(y2 - y1);
    assert(dx * 1 - d * 1 == dx + -d);
    assert(dir(x1, x2) * 0 == 0 && dir(y1, y2) * 0 == 0);
    lemma_walk_reaches(x1, y1, x2, y2, x1, y1, dx - d, 0, 0, (dx + d + 1) as nat);
}

/// The square pen of side `width` centred (as integer division puts it) on `p` covers `q`.
pub open spec fn pen_covers(p: (int, int), q: (int, int), width: int) -> bool {
    p.0 - width / 2 <= q.0 < p.0 - width / 2 + width && p.1 - width / 2 <= q.1 < p.1 - width / 2 + width
}

pub open spec fn covered(ps: Seq<(int, int)>, q: (int, int), width: int) -> bool {
    exists|k: int| 0 <= k < ps.len() && pen_covers(#[trigger] ps[k], q, width)
}

/// Draws the line from `(x1, y1)` to `(x2, y2)` with a square pen of side
/// `width`, clipped to the raster.
pub fn draw_line(img: &mut Frame, x1: i32, y1: i32, x2: i32, y2: i32, color: [u8; 3], width: u32)
    requires
        old(img).wf(),
        width <= i32::MAX,
    ensures
        final(img).wf(),
        final(img).w() == old(img).w(),
        final(img).h() == old(img).h(),
        forall|px: int, py: int|
            #![trigger final(img).pixel(px, py)]
            old(img).in_bounds(px, py) ==> final(img).pixel(px, py) == if covered(
                line_points(x1 as int, y1 as int, x2 as int, y2 as int),
                (px, py),
                width as int,
            ) {
                color
            } else {
                old(img).pixel(px, py)
            },
{
    let ghost before = *img;
    let ghost ps = line_points(x1 as int, y1 as int, x2 as int, y2 as int);
    let x1w = x1 as i64;
    let y1w = y1 as i64;
    let x2w = x2 as i64;
    let y2w = y2 as i64;
    let dx: i64 = if x2w >= x1w { x2w - x1w } else { x1w - x2w };
    let dy: i64 = if y2w >= y1w { -(y2w - y1w) } else { -(y1w - y2w) };
    let sx: i64 = if x1w < x2w { 1 } else { -1 };
    let sy: i64 = if y1w < y2w { 1 } else { -1 };
    let mut err: i64 = dx + dy;
    let mut x = x1w;
    let mut y = y1w;
    let half = (width as i32 / 2) as i64;
    let ghost mut a: int = 0;
    let ghost mut b: int = 0;
    let ghost mut k: int = 0;
    let ghost total = (dx - dy + 1) as nat;
    proof {
        line_connects(x1 as int, y1 as int, x2 as int, y2 as int);
        assert(dx * 1 - (-dy) * 1 == dx + dy);
        assert(dir(x1 as int, x2 as int) * 0 == 0 && dir(y1 as int, y2 as int) * 0 == 0);
        assert(ps.skip(0) =~= ps);
    }
    loop
        invariant_except_break
            forall|px: int, py: int|
                #![trigger img.pixel(px, py)]
                before.in_bounds(px, py) ==> img.pixel(px, py) == if covered(ps.take(k), (px, py), width as int) {
                    color
                } else {
                    before.pixel(px, py)
                },
        invariant
            before.wf(),
            img.wf(),
            img.w() == before.w(),
            img.h() == before.h(),
            width <= i32::MAX,
            half == (width as int) / 2,
            x2w == x2,
            y2w == y2,
            dx == abs_i(x2 - x1),
            dy == -abs_i(y2 - y1),
            sx == dir(x1 as int, x2 as int),
            sy == dir(y1 as int, y2 as int),
            ps == line_points(x1 as int, y1 as int, x2 as int, y2 as int),
            total == (dx - dy + 1) as nat,
            reachable(x1 as int, y1 as int, x2 as int, y2 as int, x as int, y as int, err as int, a, b),
            0 <= k <= a + b,
            k < ps.len(),
            walk(x as int, y as int, err as int, x2 as int, y2 as int, dx as int, dy as int, sx as int, sy as int,
                (total - k) as nat) == ps.skip(k),
        ensures
            img.wf(),
            img.w() == before.w(),
            img.h() == before.h(),
            forall|px: int, py: int|
                #![trigger img.pixel(px, py)]
                before.in_bounds(px, py) ==> img.pixel(px, py) == if covered(ps, (px, py), width as int) {
                    color
                } else {
                    before.pixel(px, py)
                },
        decreases abs_i(x2 - x1) - a + abs_i(y2 - y1) - b,
    {
        let ghost prev = *img;
        proof {
            assert(ps.skip(k)[0] == (x as int, y as int));
            assert(ps[k] == (x as int, y as int));
        }
        fill_rect(img, x - half, y - half, width as i64, width as i64, color);
        proof {
            assert(ps.take(k + 1) =~= ps.take(k).push(ps[k]));
            assert forall|px: int, py: int| #![trigger img.pixel(px, py)] before.in_bounds(px, py) implies img.pixel(px, py)
                == if covered(ps.take(k + 1), (px, py), width as int) { color } else { before.pixel(px, py) } by {
                let q = (px, py);
                if pen_covers(ps[k], q, width as int) {
                    assert(ps.take(k + 1)[k] == ps[k]);
                } else if covered(ps.take(k), q, width as int) {
                    let j = choose|j: int| 0 <= j < ps.take(k).len() && pen_covers(#[trigger] ps.take(k)[j], q, width as int);
                    assert(ps.take(k + 1)[j] == ps.take(k)[j]);
                } else {
                    assert forall|j: int| 0 <= j < ps.take(k + 1).len() implies !pen_covers(#[trigger] ps.take(k + 1)[j], q, width as int) by {
                        if j < k {
                            assert(ps.take(k + 1)[j] == ps.take(k)[j]);
                        }
                    }
                }
            }
        }
        if x == x2w && y == y2w {
            proof {
                assert((total - k) as nat > 0);
                assert(ps.skip(k) == seq![(x as int, y as int)]);
                assert(ps.len() == k + 1);
                assert(ps.take(k + 1) =~= ps);
            }
            break;
        }
        proof {
            lemma_step(x1 as int, y1 as int, x2 as int, y2 as int, x as int, y as int, err as int, a, b);
        }
        let e2 = 2 * err;
        let xs = e2 >= dy;
        let ys = e2 <= dx;
        if xs {
            err = err + dy;
            x = x + sx;
            proof {
                a = a + 1;
            }
        }
        if ys {
            err = err + dx;
            y = y + sy;
            proof {
                b = b + 1;
            }
        }
        proof {
            assert(ps.skip(k).drop_first() =~= ps.skip(k + 1));
            k = k + 1;
            assert((total - k) as nat > 0);
            lemma_walk_nonempty(x as int, y as int, err as int, x2 as int, y2 as int, dx as int, dy as int,
                sx as int, sy as int, (total - k) as nat);
        }
    }
}

} // verus!
