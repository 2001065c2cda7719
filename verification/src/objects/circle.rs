use vstd::prelude::*;

use crate::buffer::{lemma_cell_in_range, Buffer};

verus! {

/// Whether the grid point `(x, y)` is where a circle of radius `r` around
/// the origin passes column `x`, rounded to the grid: the circle crosses the
/// column above the point half a cell below `(x, y)` and not above the point
/// half a cell over it.
pub open spec fn rounds_circle(r: int, x: int, y: int) -> bool {
    y * y - y < r * r - x * x <= y * y + y
}

/// The same for a point one column beyond the diagonal, where the walk ends:
/// there the circle may pass exactly half a cell below the point.
pub open spec fn closes_octant(r: int, x: int, y: int) -> bool {
    x == y + 1 && y * y - y == r * r - x * x
}

/// From one column to the next the walk keeps its height or goes down by one.
pub open spec fn step_down(from: int, to: int) -> bool {
    from - 1 <= to <= from
}

/// Whether `pts` is the walk of the midpoint circle algorithm for radius `r`:
/// from the top of the circle, column by column to the right, down to the
/// diagonal.
pub open spec fn is_octant_walk(r: int, pts: Seq<(i32, i32)>) -> bool {
    &&& r <= 0 ==> pts.len() == 0
    &&& forall|k: int|
        0 <= k < pts.len() ==> {
            let p = #[trigger] pts[k];
            &&& p.0 == k + 1
            &&& 0 <= p.1 <= r
            &&& rounds_circle(r, p.0 as int, p.1 as int) || (k == pts.len() - 1 && closes_octant(
                r,
                p.0 as int,
                p.1 as int,
            ))
            &&& k < pts.len() - 1 ==> p.0 < p.1
            &&& k == pts.len() - 1 ==> p.0 >= p.1
            &&& step_down(if k == 0 {
                r
            } else {
                pts[k - 1].1 as int
            }, p.1 as int)
        }
    &&& r > 0 ==> pts.len() > 0
}

/// The offsets that the midpoint circle algorithm visits in one octant of a
/// circle of the given radius, in order: `(1, y1)`, `(2, y2)` and so on until
/// the column reaches the row. The seven mirror images of each make the
/// circle. A radius of zero or less has no offsets.
pub fn mid_point_offsets(radius: i32) -> (pts: Vec<(i32, i32)>)
    ensures
        is_octant_walk(radius as int, pts@),
{
    let mut pts: Vec<(i32, i32)> = Vec::new();
    if radius <= 0 {
        return pts;
    }
    let r: i64 = radius as i64;
    let mut f: i64 = 1 - r;
    let mut x: i64 = 0;
    let mut y: i64 = r;
    let mut ddf_x: i64 = 1;
    let mut ddf_y: i64 = -2 * r;
    let ghost rr: int = r * r;
    proof {
        assert(0 < rr <= 0x4000_0000_0000_0000) by (nonlinear_arith)
            requires
                0 < r <= 0x8000_0000,
                rr == r * r,
        ;
    }

    while x < y
        invariant
            r == radius,
            r >= 1,
            rr == r * r,
            rr <= 0x4000_0000_0000_0000,
            pts@.len() == x,
            0 <= x <= y + 1,
            0 <= y <= r,
            x == 0 ==> y == r,
            ddf_x == 2 * x + 1,
            ddf_y == -2 * y,
            f == x * x + 2 * x + 1 + y * y - y - rr,
            x * x + y * y + y - rr >= 0,
            x <= y ==> x * x + y * y - y - rr < 0,
            x == y + 1 ==> x * x + y * y - y - rr <= 0,
            forall|k: int|
                0 <= k < pts@.len() ==> {
                    let p = #[trigger] pts@[k];
                    &&& p.0 == k + 1
                    &&& 0 <= p.1 <= r
                    &&& rounds_circle(r as int, p.0 as int, p.1 as int) || (k == pts@.len() - 1
                        && closes_octant(r as int, p.0 as int, p.1 as int))
                    &&& k < pts@.len() - 1 ==> p.0 < p.1
                    &&& step_down(if k == 0 {
                        r as int
                    } else {
                        pts@[k - 1].1 as int
                    }, p.1 as int)
                },
            pts@.len() > 0 ==> pts@[pts@.len() - 1] == (x as i32, y as i32),
        decreases y + 1 - x,
    {
        let ghost x0 = x as int;
        let ghost y0 = y as int;
        let ghost old_pts = pts@;
        proof {
            assert(0 <= x0 * x0 && x0 * x0 + 2 * x0 + 1 <= y0 * y0 && y0 * y0 <= rr) by (nonlinear_arith)
                requires
                    0 <= x0 < y0 <= r,
                    rr == r * r,
            ;
        }
        if f >= 0 {
            y -= 1;
            ddf_y += 2;
            f += ddf_y;
        }
        x += 1;
        ddf_x += 2;
        f += ddf_x;
        proof {
            let x1 = x as int;
            let y1 = y as int;
            assert(x1 * x1 == x0 * x0 + 2 * x0 + 1) by (nonlinear_arith)
                requires
                    x1 == x0 + 1,
            ;
            if y1 == y0 - 1 {
                assert(y1 * y1 == y0 * y0 - 2 * y0 + 1) by (nonlinear_arith)
                    requires
                        y1 == y0 - 1,
                ;
            }
        }
        pts.push((x as i32, y as i32));
        proof {
            assert forall|k: int| 0 <= k < pts@.len() implies {
                let p = #[trigger] pts@[k];
                &&& p.0 == k + 1
                &&& 0 <= p.1 <= r
                &&& rounds_circle(r as int, p.0 as int, p.1 as int) || (k == pts@.len() - 1
                    && closes_octant(r as int, p.0 as int, p.1 as int))
                &&& k < pts@.len() - 1 ==> p.0 < p.1
                &&& step_down(if k == 0 {
                    r as int
                } else {
                    pts@[k - 1].1 as int
                }, p.1 as int)
            } by {
                if k < old_pts.len() {
                    assert(pts@[k] == old_pts[k]);
                    if k > 0 {
                        assert(pts@[k - 1] == old_pts[k - 1]);
                    }
                    if k == old_pts.len() - 1 {
                        assert(old_pts[k] == (x0 as i32, y0 as i32));
                    }
                } else if k > 0 {
                    assert(pts@[k - 1] == old_pts[k - 1]);
                    assert(old_pts[k - 1] == (x0 as i32, y0 as i32));
                }
            }
        }
    }
    pts
}

/// Whether the offset `(dx, dy)` lies in the disc of radius `r` around the
/// origin, rim included. A negative radius has no disc.
pub open spec fn in_disc(r: int, dx: int, dy: int) -> bool {
    r >= 0 && dx * dx + dy * dy <= r * r
}

/// An offset in the disc of radius `r` is at most `r` away along either axis.
pub proof fn lemma_disc_bounds(r: int, dx: int, dy: int)
    requires
        in_disc(r, dx, dy),
    ensures
        -r <= dx <= r,
        -r <= dy <= r,
{
    assert(-r <= dx <= r && -r <= dy <= r) by (nonlinear_arith)
        requires
            r >= 0,
            dx * dx + dy * dy <= r * r,
    {
        assert(dx * dx >= 0 && dy * dy >= 0);
        if dx > r {
            assert(dx * dx > r * r);
        }
        if dx < -r {
            assert(dx * dx > r * r);
        }
        if dy > r {
            assert(dy * dy > r * r);
        }
        if dy < -r {
            assert(dy * dy > r * r);
        }
    }
}

/// Paints the disc of the given radius around `(cx, cy)` into the buffer,
/// rim included, as far as the buffer reaches. The colour is converted once.
pub fn fill_circle_brute_force<C: Into<crate::colors::color::Color> + Copy>(
    buffer: &mut Buffer<u32>,
    cx: i32,
    cy: i32,
    radius: i32,
    color: C,
)
    ensures
        final(buffer).cols() == old(buffer).cols(),
        final(buffer).rows() == old(buffer).rows(),
        final(buffer)@.len() == old(buffer)@.len(),
        exists|c: crate::colors::color::Color|
            call_ensures(C::into, (color,), c) && painted_disc(
                *old(buffer),
                *final(buffer),
                cx as int,
                cy as int,
                radius as int,
                #[trigger] c.argb_word(),
            ),
{
    let c: crate::colors::color::Color = color.into();
    let clr: u32 = c.to_argb();
    let r: i64 = radius as i64;
    proof {
        use_type_invariant(&*buffer);
        buffer.lemma_len();
    }
    if r < 0 {
        assert(painted_disc(*old(buffer), *buffer, cx as int, cy as int, radius as int, c.argb_word()));
        return ;
    }
    proof {
        assert(r * r <= 0x3FFF_FFFF_0000_0001) by (nonlinear_arith)
            requires
                0 <= r <= 0x7FFF_FFFF,
        ;
        assert forall|dx: int, dy: int| #[trigger] in_disc(r as int, dx, dy) implies !comes_before(
            dx,
            dy,
            -r,
            -r,
        ) by {
            lemma_disc_bounds(r as int, dx, dy);
        }
    }
    let mut y: i64 = -r;
    while y <= r
        invariant
            r == radius,
            0 <= r,
            r * r <= 0x3FFF_FFFF_0000_0001,
            -r <= y <= r + 1,
            old(buffer).wf(),
            buffer.cols() == old(buffer).cols(),
            buffer.rows() == old(buffer).rows(),
            buffer@.len() == old(buffer)@.len(),
            old(buffer).cols() <= 0 ==> buffer@ == old(buffer)@,
            painted_so_far(*old(buffer), *buffer, cx as int, cy as int, r as int, clr, y as int, -r as int),
        decreases r + 1 - y,
    {
        let mut x: i64 = -r;
        while x <= r
            invariant
                r == radius,
                0 <= r,
                r * r <= 0x3FFF_FFFF_0000_0001,
                -r <= y <= r,
                -r <= x <= r + 1,
                old(buffer).wf(),
                buffer.cols() == old(buffer).cols(),
                buffer.rows() == old(buffer).rows(),
                buffer@.len() == old(buffer)@.len(),
                old(buffer).cols() <= 0 ==> buffer@ == old(buffer)@,
                painted_so_far(*old(buffer), *buffer, cx as int, cy as int, r as int, clr, y as int, x as int),
            decreases r + 1 - x,
        {
            proof {
                assert(0 <= x * x <= r * r && 0 <= y * y <= r * r) by (nonlinear_arith)
                    requires
                        -r <= x <= r,
                        -r <= y <= r,
                ;
            }
            let ghost before = buffer@;
            let ghost hit = in_disc(r as int, x as int, y as int) && old(buffer).holds(cx + x, cy + y);
            proof {
                old(buffer).lemma_len();
                if old(buffer).holds(cx + x, cy + y) {
                    lemma_cell_in_range(cx + x, cy + y, old(buffer).cols(), old(buffer).rows());
                }
            }
            if x * x + y * y <= r * r {
                let px: i64 = cx as i64 + x;
                let py: i64 = cy as i64 + y;
                if -0x8000_0000 <= px && px <= 0x7FFF_FFFF && -0x8000_0000 <= py && py <= 0x7FFF_FFFF {
                    buffer.set_xy(px as i32, py as i32, clr);
                }
            }
            proof {
                assert(hit ==> buffer@ == before.update(old(buffer).at(cx + x, cy + y), clr));
                assert(!hit ==> buffer@ == before);
                assert forall|qx: int, qy: int| old(buffer).holds(qx, qy) implies #[trigger] buffer@[old(
                    buffer,
                ).at(qx, qy)] == if in_disc(r as int, qx - cx, qy - cy) && comes_before(
                    qx - cx,
                    qy - cy,
                    x + 1,
                    y as int,
                ) {
                    clr
                } else {
                    old(buffer)@[old(buffer).at(qx, qy)]
                } by {
                    lemma_cell_in_range(qx, qy, old(buffer).cols(), old(buffer).rows());
                    if qx - cx == x && qy - cy == y {
                    } else if hit {
                        lemma_cell_in_range(cx + x, cy + y, old(buffer).cols(), old(buffer).rows());
                        if old(buffer).at(qx, qy) == old(buffer).at(cx + x, cy + y) {
                            crate::buffer::lemma_cells_apart(qx, qy, cx + x, cy + y, old(buffer).cols());
                        }
                    }
                }
            }
            x += 1;
        }
        proof {
            assert forall|dx: int, dy: int| #[trigger] in_disc(r as int, dx, dy) implies comes_before(
                dx,
                dy,
                r + 1,
                y as int,
            ) == comes_before(dx, dy, -r, y + 1) by {
                lemma_disc_bounds(r as int, dx, dy);
            }
        }
        y += 1;
    }
    proof {
        assert forall|dx: int, dy: int| #[trigger] in_disc(r as int, dx, dy) implies comes_before(
            dx,
            dy,
            -r,
            r + 1,
        ) by {
            lemma_disc_bounds(r as int, dx, dy);
        }
        assert(painted_disc(*old(buffer), *buffer, cx as int, cy as int, radius as int, c.argb_word()));
    }
}

/// Whether the offset `(dx, dy)` comes before `(x, y)` where offsets are
/// taken row by row, each row from left to right.
pub open spec fn comes_before(dx: int, dy: int, x: int, y: int) -> bool {
    dy < y || (dy == y && dx < x)
}

/// Whether `after` is `before` with the part of the disc painted whose
/// offsets come before `(x, y)`.
pub open spec fn painted_so_far(
    before: Buffer<u32>,
    after: Buffer<u32>,
    cx: int,
    cy: int,
    r: int,
    clr: u32,
    y: int,
    x: int,
) -> bool {
    forall|qx: int, qy: int|
        before.holds(qx, qy) ==> #[trigger] after@[before.at(qx, qy)] == if in_disc(
            r,
            qx - cx,
            qy - cy,
        ) && comes_before(qx - cx, qy - cy, x, y) {
            clr
        } else {
            before@[before.at(qx, qy)]
        }
}

/// Whether `after` is `before` with the disc of radius `r` around `(cx, cy)`
/// painted in `clr`: the cells in the disc hold `clr`, the others what they
/// held. A buffer without cells to address is left as it was.
pub open spec fn painted_disc(
    before: Buffer<u32>,
    after: Buffer<u32>,
    cx: int,
    cy: int,
    r: int,
    clr: u32,
) -> bool {
    &&& forall|qx: int, qy: int|
        before.holds(qx, qy) ==> #[trigger] after@[before.at(qx, qy)] == if in_disc(
            r,
            qx - cx,
            qy - cy,
        ) {
            clr
        } else {
            before@[before.at(qx, qy)]
        }
    &&& after@.len() == before@.len()
    &&& before.cols() <= 0 ==> after@ == before@
}

} // verus!
