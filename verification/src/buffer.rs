use vstd::prelude::*;

verus! {

/// A rectangle of cells, stored row by row.
pub struct Buffer<T: Copy + Default> {
    data: Vec<T>,
    width: i32,
    height: i32,
    cap: usize,
}

impl<T: Copy + Default> View for Buffer<T> {
    type V = Seq<T>;

    /// The cells, row after row.
    closed spec fn view(&self) -> Seq<T> {
        self.data@
    }
}

impl<T: Copy + Default + Sized> Buffer<T> {
    /// The number of cells in a row.
    pub closed spec fn cols(self) -> int {
        self.width as int
    }

    /// The number of rows.
    pub closed spec fn rows(self) -> int {
        self.height as int
    }

    /// What holds of every buffer: it has at least one cell, as many as its
    /// sides multiply to, and their number fits an `i32`.
    pub closed spec fn wf(self) -> bool {
        &&& 0 < self.width * self.height <= i32::MAX
        &&& self.data@.len() == self.width * self.height
        &&& self.cap == self.data@.len()
    }

    #[verifier::type_invariant]
    pub open spec fn inv(self) -> bool {
        self.wf()
    }

    /// A buffer has as many cells as its sides multiply to.
    pub proof fn lemma_len(self)
        requires
            self.wf(),
        ensures
            self@.len() == self.cols() * self.rows(),
            0 < self@.len() <= i32::MAX,
            i32::MIN <= self.cols() <= i32::MAX,
            i32::MIN <= self.rows() <= i32::MAX,
    {
    }

    /// The position of cell `(x, y)` among the cells.
    pub open spec fn at(self, x: int, y: int) -> int {
        y * self.cols() + x
    }

    /// Whether `(x, y)` names a cell.
    pub open spec fn holds(self, x: int, y: int) -> bool {
        0 <= x < self.cols() && 0 <= y < self.rows()
    }

    /// A buffer of `w * h` cells, each a default value of `T`.
    pub fn init(w: i32, h: i32) -> (b: Self)
        requires
            vstd::layout::size_of::<T>() != 0,
            0 < w * h <= i32::MAX,
        ensures
            b.wf(),
            b.cols() == w,
            b.rows() == h,
            b@.len() == w * h,
            forall|i: int| 0 <= i < b@.len() ==> call_ensures(T::default, (), #[trigger] b@[i]),
    {
        let cap: usize = (w * h) as usize;
        let mut data: Vec<T> = Vec::with_capacity(cap);
        let mut i: usize = 0;
        while i < cap
            invariant
                i <= cap,
                data@.len() == i,
                forall|k: int| 0 <= k < i ==> call_ensures(T::default, (), #[trigger] data@[k]),
            decreases cap - i,
        {
            data.push(T::default());
            i += 1;
        }
        Self { data, width: w, height: h, cap }
    }

    /// A buffer of `w * h` cells, each holding `v`.
    pub fn init_with_value(w: i32, h: i32, v: T) -> (b: Self)
        requires
            vstd::layout::size_of::<T>() != 0,
            0 < w * h <= i32::MAX,
        ensures
            b.wf(),
            b.cols() == w,
            b.rows() == h,
            b@ == Seq::new((w * h) as nat, |i: int| v),
    {
        let cap: usize = (w * h) as usize;
        let mut data: Vec<T> = Vec::with_capacity(cap);
        let mut i: usize = 0;
        while i < cap
            invariant
                i <= cap,
                data@ == Seq::new(i as nat, |k: int| v),
            decreases cap - i,
        {
            data.push(v);
            i += 1;
            assert(data@ =~= Seq::new(i as nat, |k: int| v));
        }
        Self { data, width: w, height: h, cap }
    }

    /// Sets every cell to `v`.
    pub fn fill(&mut self, v: T)
        ensures
            final(self).cols() == old(self).cols(),
            final(self).rows() == old(self).rows(),
            final(self)@ == Seq::new(old(self)@.len(), |i: int| v),
    {
        proof {
            use_type_invariant(&*self);
        }
        let n: i32 = self.width * self.height;
        let mut i: i32 = 0;
        while i < n
            invariant
                0 <= i <= n,
                n == self@.len(),
                self.cols() == old(self).cols(),
                self.rows() == old(self).rows(),
                self@.len() == old(self)@.len(),
                forall|k: int| 0 <= k < i ==> self@[k] == v,
            decreases n - i,
        {
            self.set(i, v);
            i += 1;
        }
        assert(self@ =~= Seq::new(old(self)@.len(), |i: int| v));
    }

    /// The cells, row after row.
    pub fn as_slice<'b>(&'b self) -> (s: &'b [T])
        ensures
            s@ == self@,
    {
        self.data.as_slice()
    }

    /// The number of cells.
    pub fn len(&self) -> (n: i32)
        ensures
            n == self@.len(),
            n == self.cols() * self.rows(),
            n > 0,
    {
        proof {
            use_type_invariant(self);
        }
        self.width * self.height
    }

    /// Writes `value` to the cell at position `index`; any other `index` is ignored.
    pub fn set(&mut self, index: i32, value: T)
        ensures
            final(self).cols() == old(self).cols(),
            final(self).rows() == old(self).rows(),
            final(self)@.len() == old(self)@.len(),
            0 <= index < old(self)@.len() ==> final(self)@ == old(self)@.update(index as int, value),
            !(0 <= index < old(self)@.len()) ==> final(self)@ == old(self)@,
    {
        proof {
            use_type_invariant(&*self);
        }
        if index >= self.len() || index < 0 {
            return ;
        }
        self.data[index as usize] = value;
    }

    /// Writes `value` to cell `(x, y)`; coordinates outside the buffer are ignored.
    pub fn set_xy(&mut self, x: i32, y: i32, value: T)
        ensures
            final(self).cols() == old(self).cols(),
            final(self).rows() == old(self).rows(),
            final(self)@.len() == old(self)@.len(),
            old(self).holds(x as int, y as int) ==> final(self)@ == old(self)@.update(
                old(self).at(x as int, y as int),
                value,
            ),
            !old(self).holds(x as int, y as int) ==> final(self)@ == old(self)@,
    {
        proof {
            use_type_invariant(&*self);
        }
        if x >= self.width || x < 0 || y < 0 || y >= self.height {
            return ;
        }
        proof {
            lemma_cell_in_range(x as int, y as int, self.width as int, self.height as int);
        }
        let index: i32 = y * self.width + x;
        self.set(index, value);
    }

    /// What the cell at position `pos` holds.
    pub fn read(&self, pos: usize) -> (value: T)
        requires
            pos < self@.len(),
        ensures
            value == self@[pos as int],
    {
        self.data[pos]
    }

    /// The position `index`, if it lies among the cells or just behind the last one.
    pub fn get(&self, index: i32) -> (pos: Option<usize>)
        ensures
            pos == if 0 <= index <= self@.len() {
                Some(index as usize)
            } else {
                None
            },
    {
        if index > self.len() || index < 0 {
            return None;
        }
        Some(index as usize)
    }

    /// The position of cell `(x, y)`, if the buffer holds it.
    pub fn get_xy(&self, x: i32, y: i32) -> (pos: Option<usize>)
        ensures
            pos == if self.holds(x as int, y as int) {
                Some(self.at(x as int, y as int) as usize)
            } else {
                None
            },
            pos matches Some(p) ==> p < self@.len(),
    {
        proof {
            use_type_invariant(self);
        }
        if x >= self.width || x < 0 || y < 0 || y >= self.height {
            return None;
        }
        proof {
            lemma_cell_in_range(x as int, y as int, self.width as int, self.height as int);
        }
        let index: i32 = y * self.width + x;
        self.get(index)
    }

    /// The position `index`, which must lie among the cells or just behind the last one.
    pub fn offset(&self, index: i32) -> (pos: usize)
        requires
            0 <= index <= self@.len(),
        ensures
            pos == index,
    {
        index as usize
    }

    /// The position that `(x, y)` stands for, `y * cols + x`, which must lie
    /// among the cells or just behind the last one.
    pub fn offset_xy(&self, x: i32, y: i32) -> (pos: usize)
        requires
            i32::MIN <= y * self.cols() <= i32::MAX,
            0 <= self.at(x as int, y as int) <= self@.len(),
        ensures
            pos == self.at(x as int, y as int),
    {
        proof {
            use_type_invariant(self);
        }
        let index: i32 = y * self.width + x;
        self.offset(index)
    }

    /// Whether `scanline` with these arguments writes the cell at position `p`:
    /// the line may be any row or the one below the last, and the run of
    /// columns stops at `x_end` or behind column `cols`, whichever comes first.
    pub open spec fn scanline_hits(self, line: int, x_start: int, x_end: int, p: int) -> bool {
        let i = p - line * self.cols();
        0 <= line <= self.rows() && 0 <= x_start <= i < x_end && i <= self.cols()
    }

    /// Writes `value` along row `line` from column `x_start` up to, not
    /// including, `x_end`. Nothing is written where `x_start` is negative or
    /// `line` is no row; a run that leaves the row on the right goes on for one
    /// cell, the first of the next row.
    pub fn scanline(&mut self, line: i32, x_start: i32, x_end: i32, value: T)
        ensures
            final(self).cols() == old(self).cols(),
            final(self).rows() == old(self).rows(),
            final(self)@.len() == old(self)@.len(),
            forall|p: int|
                0 <= p < old(self)@.len() ==> #[trigger] final(self)@[p] == if old(
                    self,
                ).scanline_hits(line as int, x_start as int, x_end as int, p) {
                    value
                } else {
                    old(self)@[p]
                },
    {
        proof {
            use_type_invariant(&*self);
        }
        if line < 0 || line > self.height {
            return ;
        }
        let mut i: i32 = x_start;
        while i < x_end
            invariant
                self.wf(),
                0 <= line <= self.height,
                self.cols() == old(self).cols(),
                self.rows() == old(self).rows(),
                self@.len() == old(self)@.len(),
                x_start <= i,
                x_start < i ==> 0 <= x_start && i <= x_end,
                forall|p: int|
                    0 <= p < old(self)@.len() ==> #[trigger] self@[p] == if old(
                        self,
                    ).scanline_hits(line as int, x_start as int, i as int, p) {
                        value
                    } else {
                        old(self)@[p]
                    },
            decreases x_end - i,
        {
            if i > self.width || i < 0 {
                assert forall|q: int| 0 <= q < old(self)@.len() implies old(self).scanline_hits(
                    line as int,
                    x_start as int,
                    x_end as int,
                    q,
                ) == old(self).scanline_hits(line as int, x_start as int, i as int, q) by {}
                return ;
            }
            proof {
                lemma_row_start_in_range(line as int, self.width as int, self.height as int);
            }
            let p: i64 = line as i64 * self.width as i64 + i as i64;
            let ghost before = self@;
            if p < self.data.len() as i64 {
                self.data[p as usize] = value;
            }
            assert forall|q: int| 0 <= q < old(self)@.len() implies #[trigger] self@[q] == if old(
                self,
            ).scanline_hits(line as int, x_start as int, i + 1, q) {
                value
            } else {
                old(self)@[q]
            } by {
                assert(q - line * old(self).cols() == i <==> q == p);
                assert(before[q] == if old(self).scanline_hits(
                    line as int,
                    x_start as int,
                    i as int,
                    q,
                ) {
                    value
                } else {
                    old(self)@[q]
                });
            }
            i += 1;
        }
    }

    /// Whether `scanline_cols` with these arguments writes the cell at position `p`.
    pub open spec fn span_hits(self, row: int, x0: int, x1: int, p: int) -> bool {
        let i = p - row * self.cols();
        0 <= row < self.rows() && 0 <= x0 <= i < x1 && i <= self.cols()
    }

    /// Writes `value` along row `row` from column `x0` up to, not including,
    /// `x1`. Nothing is written where `row` is no row; a run that leaves the
    /// row on the right goes on for one cell, the first of the next row.
    pub fn scanline_cols(&mut self, row: usize, x0: usize, x1: usize, value: T)
        ensures
            final(self).cols() == old(self).cols(),
            final(self).rows() == old(self).rows(),
            final(self)@.len() == old(self)@.len(),
            forall|p: int|
                0 <= p < old(self)@.len() ==> #[trigger] final(self)@[p] == if old(self).span_hits(
                    row as int,
                    x0 as int,
                    x1 as int,
                    p,
                ) {
                    value
                } else {
                    old(self)@[p]
                },
    {
        proof {
            use_type_invariant(&*self);
        }
        if self.height < 0 || row >= self.height as usize {
            return ;
        }
        let mut i: usize = x0;
        while i < x1
            invariant
                self.wf(),
                0 <= row < self.height,
                self.cols() == old(self).cols(),
                self.rows() == old(self).rows(),
                self@.len() == old(self)@.len(),
                x0 <= i,
                x0 < i ==> i <= x1,
                forall|p: int|
                    0 <= p < old(self)@.len() ==> #[trigger] self@[p] == if old(self).span_hits(
                        row as int,
                        x0 as int,
                        i as int,
                        p,
                    ) {
                        value
                    } else {
                        old(self)@[p]
                    },
            decreases x1 - i,
        {
            proof {
                lemma_row_start_in_range(row as int, self.width as int, self.height as int);
            }
            if i > self.width as usize {
                assert forall|q: int| 0 <= q < old(self)@.len() implies old(self).span_hits(
                    row as int,
                    x0 as int,
                    x1 as int,
                    q,
                ) == old(self).span_hits(row as int, x0 as int, i as int, q) by {}
                return ;
            }
            let p: usize = row * (self.width as usize) + i;
            let ghost before = self@;
            if p < self.data.len() {
                self.data[p] = value;
            }
            assert forall|q: int| 0 <= q < old(self)@.len() implies #[trigger] self@[q] == if old(
                self,
            ).span_hits(row as int, x0 as int, i + 1, q) {
                value
            } else {
                old(self)@[q]
            } by {
                assert(q - row * old(self).cols() == i <==> q == p);
                assert(before[q] == if old(self).span_hits(row as int, x0 as int, i as int, q) {
                    value
                } else {
                    old(self)@[q]
                });
            }
            i += 1;
        }
    }

    /// Lays rows of `from` into this buffer: its cells from the first on, in
    /// runs of `width`, one run for each row from `start_y` up to, not
    /// including, `end_y`, each run from column `start_x` on. Every one of
    /// these rows must hold column `start_x`, and `from` must have a cell for
    /// each cell of each run. A run that leaves its row goes on into the
    /// next, and ends where the buffer ends.
    pub fn copy_rows(&mut self, from: &Buffer<T>, start_x: i32, start_y: i32, end_y: i32, width: usize)
        requires
            forall|y: int| start_y <= y < end_y ==> old(self).holds(start_x as int, y),
            start_y < end_y ==> (end_y - start_y) * width <= from@.len(),
        ensures
            final(self).cols() == old(self).cols(),
            final(self).rows() == old(self).rows(),
            final(self)@ == rows_copied(
                old(self)@,
                old(self).cols(),
                from@,
                start_x as int,
                start_y as int,
                end_y as int,
                width as int,
                0,
            ),
    {
        proof {
            use_type_invariant(&*self);
            use_type_invariant(from);
        }
        let mut y: i32 = start_y;
        let mut k: usize = 0;
        let n: usize = self.data.len();
        while y < end_y
            invariant
                self.wf(),
                from.wf(),
                start_y <= y,
                self.cols() == old(self).cols(),
                self.rows() == old(self).rows(),
                self@.len() == old(self)@.len(),
                n == self@.len(),
                forall|r: int| start_y <= r < end_y ==> old(self).holds(start_x as int, r),
                start_y < end_y ==> (end_y - start_y) * width <= from@.len(),
                y < end_y ==> k == (y - start_y) * width,
                rows_copied(
                    self@,
                    self.cols(),
                    from@,
                    start_x as int,
                    y as int,
                    end_y as int,
                    width as int,
                    k as int,
                ) == rows_copied(
                    old(self)@,
                    old(self).cols(),
                    from@,
                    start_x as int,
                    start_y as int,
                    end_y as int,
                    width as int,
                    0,
                ),
            decreases end_y - y,
        {
            assert(old(self).holds(start_x as int, y as int));
            proof {
                lemma_cell_in_range(start_x as int, y as int, self.width as int, self.height as int);
                assert((y - start_y) * width + width == (y + 1 - start_y) * width) by (nonlinear_arith);
                assert((y + 1 - start_y) * width <= (end_y - start_y) * width) by (nonlinear_arith)
                    requires
                        y + 1 <= end_y,
                        0 <= width,
                ;
            }
            let start: usize = (y * self.width + start_x) as usize;
            let ghost row_cells = self@;
            let mut x: usize = 0;
            while x < width
                invariant
                    self.wf(),
                    from.wf(),
                    x <= width,
                    self.cols() == old(self).cols(),
                    self.rows() == old(self).rows(),
                    self@.len() == old(self)@.len(),
                    n == self@.len(),
                    row_cells.len() == n,
                    start < n,
                    k + width <= from@.len(),
                    self@ == run_copied(row_cells, start as int, x as int, from@, k as int),
                decreases width - x,
            {
                if x < n - start {
                    self.data[start + x] = from.data[k + x];
                }
                assert(self@ =~= run_copied(row_cells, start as int, x + 1, from@, k as int));
                x += 1;
            }
            k += width;
            y += 1;
        }
    }

    /// The number of cells in a row.
    pub fn width(&self) -> (w: i32)
        ensures
            w == self.cols(),
    {
        self.width
    }

    /// The number of rows.
    pub fn height(&self) -> (h: i32)
        ensures
            h == self.rows(),
    {
        self.height
    }
}

/// The cells after a run of `n` of them, from position `start` on, has taken
/// the values of `from` from `from[k]` on. A run that leaves the cells ends
/// there.
pub open spec fn run_copied<T>(cells: Seq<T>, start: int, n: int, from: Seq<T>, k: int) -> Seq<T> {
    Seq::new(
        cells.len(),
        |p: int|
            if start <= p < start + n {
                from[k + p - start]
            } else {
                cells[p]
            },
    )
}

/// The cells after one run for each row from `y` up to, not including,
/// `end_y` has been copied, each `width` cells long from column `start_x` of
/// its row on, the first of them from `from[k]` on.
pub open spec fn rows_copied<T>(
    cells: Seq<T>,
    cols: int,
    from: Seq<T>,
    start_x: int,
    y: int,
    end_y: int,
    width: int,
    k: int,
) -> Seq<T>
    decreases end_y - y,
{
    if y >= end_y {
        cells
    } else {
        rows_copied(
            run_copied(cells, y * cols + start_x, width, from, k),
            cols,
            from,
            start_x,
            y + 1,
            end_y,
            width,
            k + width,
        )
    }
}

/// Two cells of a rectangle `w` wide that share a position are one cell.
pub proof fn lemma_cells_apart(x1: int, y1: int, x2: int, y2: int, w: int)
    requires
        0 <= x1 < w,
        0 <= x2 < w,
        y1 * w + x1 == y2 * w + x2,
    ensures
        x1 == x2,
        y1 == y2,
{
    assert((y1 - y2) * w == y1 * w - y2 * w) by (nonlinear_arith);
    assert(y1 == y2) by (nonlinear_arith)
        requires
            0 <= x1 < w,
            0 <= x2 < w,
            (y1 - y2) * w == x2 - x1,
    {
        if y1 > y2 {
            assert((y1 - y2) * w >= w);
        } else if y1 < y2 {
            assert((y1 - y2) * w <= -w);
        }
    }
}

/// A cell inside a `w` by `h` rectangle has a position below `w * h`.
pub proof fn lemma_cell_in_range(x: int, y: int, w: int, h: int)
    requires
        0 <= x < w,
        0 <= y < h,
    ensures
        0 <= y * w <= y * w + x < w * h,
{
    assert(y * w + w <= h * w) by (nonlinear_arith)
        requires
            y + 1 <= h,
            0 < w,
    ;
    assert(0 <= y * w) by (nonlinear_arith)
        requires
            0 <= y,
            0 < w,
    ;
    assert(h * w == w * h) by (nonlinear_arith);
}

/// In a rectangle with a positive number of cells, the start of any row up to
/// row `h` lies between zero and the number of cells.
proof fn lemma_row_start_in_range(line: int, w: int, h: int)
    requires
        0 <= line <= h,
        0 < w * h,
    ensures
        w > 0 ==> 0 <= line * w <= w * h,
        w < 0 ==> h < 0,
        w != 0,
{
    assert(w != 0 && (w < 0 ==> h < 0)) by (nonlinear_arith)
        requires
            0 < w * h,
    ;
    if w > 0 {
        assert(0 <= line * w <= w * h) by (nonlinear_arith)
            requires
                0 <= line <= h,
                w > 0,
        ;
    }
}

impl<T: Copy + Default> Clone for Buffer<T> {
    /// A buffer of its own with the same sides and the same cells.
    fn clone(&self) -> (b: Self)
        ensures
            b.wf(),
            b.cols() == self.cols(),
            b.rows() == self.rows(),
            b@ == self@,
    {
        proof {
            use_type_invariant(self);
        }
        let mut data: Vec<T> = Vec::with_capacity(self.cap);
        let mut i: usize = 0;
        while i < self.data.len()
            invariant
                i <= self.data@.len(),
                data@ == self.data@.take(i as int),
            decreases self.data@.len() - i,
        {
            data.push(self.data[i]);
            i += 1;
        }
        assert(data@ == self.data@);
        Self { data, width: self.width, height: self.height, cap: self.cap }
    }
}

} // verus!
