use vstd::prelude::*;

use crate::buffer::Buffer;
use crate::colors::modify::{alpha_blend, blended, set_alpha, with_alpha};

verus! {

/// The position at which row `y` of a glyph starts in a frame `cols` wide,
/// where the glyph's left edge is column `start_x`.
pub open spec fn row_start(cols: int, start_x: int, y: int) -> int {
    y * cols + start_x
}

/// Whether row `y` of a glyph is drawn at all: it is where its start lies
/// among the `len` cells of the frame or just behind the last one.
pub open spec fn row_taken(len: int, cols: int, start_x: int, y: int) -> bool {
    0 <= row_start(cols, start_x, y) <= len
}

/// How many of the rows from `y` up to, not including, `bottom_y` are drawn.
pub open spec fn rows_taken(len: int, cols: int, start_x: int, y: int, bottom_y: int) -> nat
    decreases bottom_y - y,
{
    if y >= bottom_y {
        0
    } else if row_taken(len, cols, start_x, y) {
        1 + rows_taken(len, cols, start_x, y + 1, bottom_y)
    } else {
        rows_taken(len, cols, start_x, y + 1, bottom_y)
    }
}

/// The cells after a run of `n` of them, from position `start` on, has taken
/// the colour by the coverage values from `cov[k]` on. A run that leaves the
/// frame ends there.
pub open spec fn run_blended(cells: Seq<u32>, start: int, n: int, cov: Seq<u8>, k: int, color: u32) -> Seq<
    u32,
> {
    Seq::new(
        cells.len(),
        |p: int|
            if start <= p < start + n {
                blended(with_alpha(color, cov[k + p - start]), cells[p])
            } else {
                cells[p]
            },
    )
}

/// The cells after the rows of a glyph from `y` up to, not including,
/// `bottom_y` have been drawn, each `width` cells long, the first of them
/// with the coverage values from `cov[k]` on. A row that is not drawn uses up
/// no coverage.
pub open spec fn glyph_blended(
    cells: Seq<u32>,
    cols: int,
    start_x: int,
    y: int,
    bottom_y: int,
    width: int,
    cov: Seq<u8>,
    k: int,
    color: u32,
) -> Seq<u32>
    decreases bottom_y - y,
{
    if y >= bottom_y {
        cells
    } else if row_taken(cells.len() as int, cols, start_x, y) {
        glyph_blended(
            run_blended(cells, row_start(cols, start_x, y), width, cov, k, color),
            cols,
            start_x,
            y + 1,
            bottom_y,
            width,
            cov,
            k + width,
            color,
        )
    } else {
        glyph_blended(cells, cols, start_x, y + 1, bottom_y, width, cov, k, color)
    }
}

/// Whether row `y` of a glyph is drawn into the frame, and where it starts.
fn locate_row(frame: &Buffer<u32>, start_x: i32, y: i32) -> (start: Option<usize>)
    ensures
        start is Some <==> row_taken(frame@.len() as int, frame.cols(), start_x as int, y as int),
        start matches Some(s) ==> s == row_start(frame.cols(), start_x as int, y as int),
{
    let cols: i64 = frame.width() as i64;
    let len: i64 = frame.len() as i64;
    assert(-0x8000_0000 * 0x8000_0000 <= y * cols <= 0x8000_0000 * 0x8000_0000) by (nonlinear_arith)
        requires
            -0x8000_0000 <= y < 0x8000_0000,
            -0x8000_0000 <= cols < 0x8000_0000,
    ;
    let at: i64 = y as i64 * cols + start_x as i64;
    if 0 <= at && at <= len {
        Some(at as usize)
    } else {
        None
    }
}

/// How many of the rows from `hi_y` up to, not including, `bottom_y` of a
/// glyph whose left edge is column `start_x` are drawn into the frame.
pub fn glyph_rows(frame: &Buffer<u32>, start_x: i32, hi_y: i32, bottom_y: i32) -> (n: usize)
    ensures
        n == rows_taken(
            frame@.len() as int,
            frame.cols(),
            start_x as int,
            hi_y as int,
            bottom_y as int,
        ),
{
    let mut n: usize = 0;
    let mut y: i32 = hi_y;
    while y < bottom_y
        invariant
            hi_y <= y || hi_y >= bottom_y,
            n <= y - hi_y || hi_y >= bottom_y,
            n + rows_taken(
                frame@.len() as int,
                frame.cols(),
                start_x as int,
                y as int,
                bottom_y as int,
            ) == rows_taken(
                frame@.len() as int,
                frame.cols(),
                start_x as int,
                hi_y as int,
                bottom_y as int,
            ),
        decreases bottom_y - y,
    {
        if locate_row(frame, start_x, y).is_some() {
            n += 1;
        }
        y += 1;
    }
    n
}

/// Draws a rasterized glyph into the frame: row by row from `hi_y` down to
/// the row above `bottom_y`, each row `width` cells from column `start_x`
/// on, every cell blended with `color` by the glyph's coverage there. The
/// coverage holds the glyph's rows one after the other.
pub fn blit_glyph(
    frame: &mut Buffer<u32>,
    coverage: &Vec<u8>,
    width: usize,
    start_x: i32,
    hi_y: i32,
    bottom_y: i32,
    color: u32,
)
    requires
        rows_taken(
            old(frame)@.len() as int,
            old(frame).cols(),
            start_x as int,
            hi_y as int,
            bottom_y as int,
        ) * width <= coverage@.len(),
    ensures
        final(frame).cols() == old(frame).cols(),
        final(frame).rows() == old(frame).rows(),
        final(frame)@ == glyph_blended(
            old(frame)@,
            old(frame).cols(),
            start_x as int,
            hi_y as int,
            bottom_y as int,
            width as int,
            coverage@,
            0,
            color,
        ),
{
    let mut k: usize = 0;
    let mut y: i32 = hi_y;
    let cov_len: usize = coverage.len();
    let n: usize = frame.len() as usize;
    let ghost cols = frame.cols();
    let ghost len = frame@.len() as int;
    while y < bottom_y
        invariant
            frame.cols() == cols,
            frame.rows() == old(frame).rows(),
            frame@.len() == len,
            cols == old(frame).cols(),
            len == old(frame)@.len(),
            n == len,
            len <= i32::MAX,
            cov_len == coverage@.len(),
            k + rows_taken(len, cols, start_x as int, y as int, bottom_y as int) * width
                <= coverage@.len(),
            glyph_blended(
                frame@,
                cols,
                start_x as int,
                y as int,
                bottom_y as int,
                width as int,
                coverage@,
                k as int,
                color,
            ) == glyph_blended(
                old(frame)@,
                cols,
                start_x as int,
                hi_y as int,
                bottom_y as int,
                width as int,
                coverage@,
                0,
                color,
            ),
        decreases bottom_y - y,
    {
        let ghost rest = rows_taken(len, cols, start_x as int, y + 1, bottom_y as int);
        match locate_row(frame, start_x, y) {
            Some(start) => {
                proof {
                    assert((1 + rest) * width == width + rest * width) by (nonlinear_arith);
                    assert(0 <= rest * width) by (nonlinear_arith)
                        requires
                            0 <= rest,
                            0 <= width,
                    ;
                }
                let ghost row_cells = frame@;
                let mut x: usize = 0;
                while x < width
                    invariant
                        x <= width,
                        frame.cols() == cols,
                        frame.rows() == old(frame).rows(),
                        frame@.len() == len,
                        row_cells.len() == len,
                        0 <= start <= len,
                        n == len,
                        len <= i32::MAX,
                        cov_len == coverage@.len(),
                        k + width <= coverage@.len(),
                        frame@ == run_blended(row_cells, start as int, x as int, coverage@, k as int, color),
                    decreases width - x,
                {
                    // The run may leave the frame; what lies beyond stays untouched.
                    if x < n - start {
                        let p: usize = start + x;
                        let pix: u32 = frame.read(p);
                        let value: u32 = alpha_blend(set_alpha(color, coverage[k + x]), pix);
                        frame.set(p as i32, value);
                    }
                    proof {
                        assert(frame@ =~= run_blended(
                            row_cells,
                            start as int,
                            x + 1,
                            coverage@,
                            k as int,
                            color,
                        ));
                    }
                    x += 1;
                }
                k += width;
            },
            None => {},
        }
        y += 1;
    }
}

} // verus!
