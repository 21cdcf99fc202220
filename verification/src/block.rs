//! Board and piece geometry: grid cells, the tetromino catalog, the falling
//! piece, and the stacked-block grid with its collision and line-clearing
//! operations.

use vstd::prelude::*;

verus! {

/// Number of cells in one tetromino.
pub const POINT_OF_BLOCK_COUNT: usize = 4;

/// Number of rotation states of one tetromino.
pub const ORIENTATION_COUNT: usize = 4;

/// Number of shapes in the catalog.
pub const BLOCK_COUNT: usize = 7;

/// Upper bound on board columns and rows; keeps all screen arithmetic
/// comfortably inside `u16` and `isize`.
pub const MAX_DIM: usize = 1024;

/// Bound on a falling piece's translation offset; keeps point arithmetic
/// inside `isize` on every platform.
pub const OFFSET_LIMIT: isize = 1048576;

/// One cell's content: empty, or occupied with an RGB color.
#[derive(Clone, Copy, PartialEq, Eq, Structural, Debug)]
pub enum CellColor {
    Empty,
    Rgb(u8, u8, u8),
}

/// An integer (x, y) offset; board-relative when unshifted, absolute once
/// a piece's translation has been applied.
#[derive(Clone, Copy, PartialEq, Eq, Structural, Debug)]
pub struct Point {
    pub x: isize,
    pub y: isize,
}

impl Point {
    pub fn new(x: isize, y: isize) -> (p: Point)
        ensures
            p.x == x,
            p.y == y,
    {
        Point { x, y }
    }
}

/// True when some point of `ps` lies at `(x, y)`.
pub open spec fn contains_pt(ps: Seq<Point>, x: int, y: int) -> bool {
    exists|k: int| 0 <= k < ps.len() && (#[trigger] ps[k]).x == x && ps[k].y == y
}

/// True when some element of `s` equals `y`.
pub open spec fn contains_idx(s: Seq<usize>, y: int) -> bool {
    exists|k: int| 0 <= k < s.len() && (#[trigger] s[k]) as int == y
}

/// The stacked part of the board: a grid of cells, row 0 at the bottom.
pub struct StackedBlock {
    pub colors: Vec<Vec<CellColor>>,
}

impl StackedBlock {
    /// Number of rows.
    pub open spec fn spec_row(self) -> int {
        self.colors@.len() as int
    }

    /// Number of columns.
    pub open spec fn spec_col(self) -> int {
        self.colors@[0]@.len() as int
    }

    /// The grid as a sequence of rows of cells.
    pub open spec fn grid(self) -> Seq<Seq<CellColor>> {
        Seq::new(self.colors@.len(), |y: int| self.colors@[y]@)
    }

    /// Well-formed: non-empty, bounded, rectangular.
    pub open spec fn wf(self) -> bool {
        &&& 0 < self.spec_row() <= MAX_DIM
        &&& 0 < self.spec_col() <= MAX_DIM
        &&& forall|y: int|
            0 <= y < self.spec_row() ==> (#[trigger] self.colors@[y]@).len() == self.spec_col()
    }

    /// The cell at column `x`, row `y`.
    pub open spec fn cell(self, x: int, y: int) -> CellColor {
        self.colors@[y]@[x]
    }

    /// Whether `p` addresses a cell of the grid.
    pub open spec fn in_bounds(self, p: Point) -> bool {
        0 <= p.x < self.spec_col() && 0 <= p.y < self.spec_row()
    }

    /// Whether every cell of row `y` is occupied.
    pub open spec fn row_full(self, y: int) -> bool {
        forall|x: int| 0 <= x < self.spec_col() ==> #[trigger] self.cell(x, y) != CellColor::Empty
    }

    /// What `cover` does: every in-bounds point of `ps` now holds `color`,
    /// every cell not named by `ps` is unchanged, and the dimensions are kept.
    pub open spec fn cover_rel(pre: StackedBlock, post: StackedBlock, color: CellColor, ps: Seq<Point>) -> bool {
        &&& post.wf()
        &&& post.spec_row() == pre.spec_row()
        &&& post.spec_col() == pre.spec_col()
        &&& forall|k: int|
            0 <= k < ps.len() && pre.in_bounds(#[trigger] ps[k]) ==> post.cell(
                ps[k].x as int,
                ps[k].y as int,
            ) == color
        &&& forall|x: int, y: int|
            0 <= x < pre.spec_col() && 0 <= y < pre.spec_row() && !contains_pt(ps, x, y)
                ==> post.cell(x, y) == pre.cell(x, y)
    }

    /// A fresh all-empty grid.
    pub fn new(column: usize, row: usize) -> (b: StackedBlock)
        requires
            0 < column <= MAX_DIM,
            0 < row <= MAX_DIM,
        ensures
            b.wf(),
            b.spec_col() == column,
            b.spec_row() == row,
            forall|x: int, y: int|
                0 <= x < column && 0 <= y < row ==> #[trigger] b.cell(x, y) == CellColor::Empty,
    {
        let mut colors: Vec<Vec<CellColor>> = Vec::new();
        let mut y: usize = 0;
        while y < row
            invariant
                y <= row,
                colors@.len() == y,
                forall|j: int| 0 <= j < y ==> (#[trigger] colors@[j]@).len() == column,
                forall|j: int, x: int|
                    0 <= j < y && 0 <= x < column ==> #[trigger] colors@[j]@[x] == CellColor::Empty,
            decreases row - y,
        {
            colors.push(Self::empty_line(column));
            y = y + 1;
        }
        StackedBlock { colors }
    }

    /// One all-empty row of `column` cells.
    fn empty_line(column: usize) -> (line: Vec<CellColor>)
        ensures
            line@.len() == column,
            forall|x: int| 0 <= x < column ==> #[trigger] line@[x] == CellColor::Empty,
    {
        let mut line: Vec<CellColor> = Vec::new();
        let mut x: usize = 0;
        while x < column
            invariant
                x <= column,
                line@.len() == x,
                forall|i: int| 0 <= i < x ==> #[trigger] line@[i] == CellColor::Empty,
            decreases column - x,
        {
            line.push(CellColor::Empty);
            x = x + 1;
        }
        line
    }

    pub fn get_row(&self) -> (r: usize)
        ensures
            r == self.spec_row(),
    {
        self.colors.len()
    }

    pub fn get_column(&self) -> (r: usize)
        requires
            self.wf(),
        ensures
            r == self.spec_col(),
    {
        self.colors[0].len()
    }

    /// Whether `point` addresses a cell of the grid.
    pub fn is_valid_index(&self, point: &Point) -> (r: bool)
        requires
            self.wf(),
        ensures
            r == self.in_bounds(*point),
    {
        let row = self.get_row();
        let col = self.get_column();
        0 <= point.x && 0 <= point.y && (point.x as usize) < col && (point.y as usize) < row
    }

    /// The cell addressed by `point`.
    pub fn color_at(&self, point: &Point) -> (r: CellColor)
        requires
            self.wf(),
            self.in_bounds(*point),
        ensures
            r == self.cell(point.x as int, point.y as int),
    {
        self.colors[point.y as usize][point.x as usize]
    }

    /// Store `color` in the cell at (`x`, `y`).
    fn set_cell(&mut self, x: usize, y: usize, color: CellColor)
        requires
            old(self).wf(),
            x < old(self).spec_col(),
            y < old(self).spec_row(),
        ensures
            final(self).wf(),
            final(self).spec_row() == old(self).spec_row(),
            final(self).spec_col() == old(self).spec_col(),
            final(self).cell(x as int, y as int) == color,
            forall|a: int, b: int|
                0 <= a < old(self).spec_col() && 0 <= b < old(self).spec_row() && !(a == x && b
                    == y) ==> final(self).cell(a, b) == old(self).cell(a, b),
    {
        let mut line = self.colors.remove(y);
        line.set(x, color);
        self.colors.insert(y, line);
        proof {
            assert(self.colors@ =~= old(self).colors@.update(y as int, line));
        }
    }

    /// Set every in-bounds point of `points` to `color`; out-of-bounds points
    /// are silently ignored.
    pub fn cover(&mut self, color: CellColor, points: &Vec<Point>)
        requires
            old(self).wf(),
        ensures
            StackedBlock::cover_rel(*old(self), *final(self), color, points@),
    {
        let n = points.len();
        let mut i: usize = 0;
        while i < n
            invariant
                n == points@.len(),
                i <= n,
                self.wf(),
                old(self).wf(),
                self.spec_row() == old(self).spec_row(),
                self.spec_col() == old(self).spec_col(),
                forall|k: int|
                    0 <= k < i && old(self).in_bounds(#[trigger] points@[k]) ==> self.cell(
                        points@[k].x as int,
                        points@[k].y as int,
                    ) == color,
                forall|x: int, y: int|
                    0 <= x < old(self).spec_col() && 0 <= y < old(self).spec_row()
                        && !contains_pt(points@.take(i as int), x, y) ==> self.cell(x, y) == old(
                        self,
                    ).cell(x, y),
            decreases n - i,
        {
            let p = points[i];
            if self.is_valid_index(&p) {
                self.set_cell(p.x as usize, p.y as usize, color);
            }
            proof {
                let psi = points@.take(i as int);
                let psi1 = points@.take(i as int + 1);
                assert(psi1[i as int] == points@[i as int]);
                assert forall|x: int, y: int| contains_pt(psi, x, y) implies contains_pt(
                    psi1,
                    x,
                    y,
                ) by {
                    let k = choose|k: int|
                        0 <= k < psi.len() && (#[trigger] psi[k]).x == x && psi[k].y == y;
                    assert(psi1[k] == psi[k]);
                }
                assert(contains_pt(psi1, points@[i as int].x as int, points@[i as int].y as int));
            }
            i = i + 1;
        }
        proof {
            assert(points@.take(n as int) =~= points@);
        }
    }

    /// True when some point of `points` addresses an occupied cell;
    /// out-of-bounds points never count as occupied.
    pub open spec fn spec_overlapped(self, ps: Seq<Point>) -> bool {
        exists|k: int|
            0 <= k < ps.len() && self.in_bounds(#[trigger] ps[k]) && self.cell(
                ps[k].x as int,
                ps[k].y as int,
            ) != CellColor::Empty
    }

    pub fn is_overlapped(&self, points: &Vec<Point>) -> (r: bool)
        requires
            self.wf(),
        ensures
            r == self.spec_overlapped(points@),
    {
        let n = points.len();
        let mut i: usize = 0;
        while i < n
            invariant
                n == points@.len(),
                i <= n,
                self.wf(),
                !self.spec_overlapped(points@.take(i as int)),
            decreases n - i,
        {
            let p = points[i];
            if self.is_valid_index(&p) {
                let c = self.color_at(&p);
                if !matches!(c, CellColor::Empty) {
                    proof {
                        assert(self.in_bounds(points@[i as int]));
                    }
                    return true;
                }
            }
            proof {
                assert(forall|k: int|
                    0 <= k < i + 1 ==> points@.take(i + 1 as int)[k] == #[trigger] points@[k]);
            }
            i = i + 1;
        }
        proof {
            assert(points@.take(n as int) =~= points@);
        }
        false
    }

    /// Whether every cell of row `y` is occupied.
    fn is_row_full(&self, y: usize) -> (r: bool)
        requires
            self.wf(),
            y < self.spec_row(),
        ensures
            r == self.row_full(y as int),
    {
        let col = self.get_column();
        let mut x: usize = 0;
        while x < col
            invariant
                self.wf(),
                y < self.spec_row(),
                col == self.spec_col(),
                x <= col,
                forall|a: int| 0 <= a < x ==> #[trigger] self.cell(a, y as int) != CellColor::Empty,
            decreases col - x,
        {
            let p = Point { x: x as isize, y: y as isize };
            if matches!(self.color_at(&p), CellColor::Empty) {
                return false;
            }
            x = x + 1;
        }
        true
    }

    /// `lines` is exactly the list of full rows, in ascending order.
    pub open spec fn is_full_lines(self, lines: Seq<usize>) -> bool {
        &&& forall|k: int|
            0 <= k < lines.len() ==> (#[trigger] lines[k]) < self.spec_row() && self.row_full(
                lines[k] as int,
            )
        &&& forall|y: int| 0 <= y < self.spec_row() && self.row_full(y) ==> contains_idx(lines, y)
        &&& forall|a: int, b: int| 0 <= a < b < lines.len() ==> lines[a] < lines[b]
    }

    /// The indices of the rows with no empty cell, in ascending order.
    pub fn full_lines(&self) -> (r: Vec<usize>)
        requires
            self.wf(),
        ensures
            self.is_full_lines(r@),
    {
        let row = self.get_row();
        let mut r: Vec<usize> = Vec::new();
        let mut y: usize = 0;
        while y < row
            invariant
                self.wf(),
                row == self.spec_row(),
                y <= row,
                forall|k: int|
                    0 <= k < r@.len() ==> (#[trigger] r@[k]) < y && self.row_full(r@[k] as int),
                forall|j: int| 0 <= j < y && self.row_full(j) ==> contains_idx(r@, j),
                forall|a: int, b: int| 0 <= a < b < r@.len() ==> r@[a] < r@[b],
            decreases row - y,
        {
            if self.is_row_full(y) {
                let ghost r0 = r@;
                r.push(y);
                proof {
                    assert(r@[r@.len() - 1] == y);
                    assert(contains_idx(r@, y as int));
                    assert forall|j: int| contains_idx(r0, j) implies contains_idx(r@, j) by {
                        let k = choose|k: int| 0 <= k < r0.len() && (#[trigger] r0[k]) as int == j;
                        assert(r@[k] as int == j);
                    }
                }
            }
            y = y + 1;
        }
        r
    }

    /// What `eliminate` does: the listed rows are removed, the rows above
    /// them shift down, and as many empty rows appear at the top.
    pub open spec fn eliminate_rel(pre: StackedBlock, post: StackedBlock, lines: Seq<usize>) -> bool {
        &&& post.wf()
        &&& post.spec_row() == pre.spec_row()
        &&& post.spec_col() == pre.spec_col()
        &&& post.grid() =~= rows_kept(pre.grid(), lines, pre.spec_row()) + Seq::new(
            lines.len(),
            |i: int| empty_row_seq(pre.spec_col()),
        )
    }

    /// Remove exactly the rows listed in `lines`, shift the rows above them
    /// down, and append that many empty rows at the top.
    #[verifier::loop_isolation(false)]
    pub fn eliminate(&mut self, lines: &Vec<usize>)
        requires
            old(self).wf(),
            old(self).is_full_lines(lines@),
        ensures
            StackedBlock::eliminate_rel(*old(self), *final(self), lines@),
    {
        let row = self.get_row();
        let col = self.get_column();
        let num = lines.len();
        proof {
            lemma_increasing_index_bound(lines@);
            if num > 0 {
                assert(num - 1 <= lines@[num - 1] < row);
            }
        }
        let mut rest: Vec<Vec<CellColor>> = Vec::new();
        std::mem::swap(&mut rest, &mut self.colors);
        let mut kept: Vec<Vec<CellColor>> = Vec::new();
        let mut li: usize = 0;
        let mut y: usize = 0;
        while y < row
            invariant
                y <= row,
                li <= num,
                kept@.len() == y - li,
                rest@.len() == row - y,
                forall|j: int| 0 <= j < row - y ==> rest@[j] == old(self).colors@[y + j],
                forall|k: int| 0 <= k < li ==> (#[trigger] lines@[k]) < y,
                forall|k: int| li <= k < num ==> y <= (#[trigger] lines@[k]),
                forall|j: int| 0 <= j < kept@.len() ==> (#[trigger] kept@[j]@).len() == col,
                Seq::new(kept@.len(), |j: int| kept@[j]@) =~= rows_kept(
                    old(self).grid(),
                    lines@,
                    y as int,
                ),
            decreases row - y,
        {
            let ghost kept0 = kept@;
            let line = rest.remove(0);
            proof {
                assert(line == old(self).colors@[y as int]);
                assert(line@.len() == col);
                assert(forall|j: int|
                    0 <= j < row - (y + 1) ==> rest@[j] == old(self).colors@[y + 1 + j]);
            }
            let mut cleared = false;
            if li < num && lines[li] == y {
                li = li + 1;
                cleared = true;
            } else {
                kept.push(line);
            }
            proof {
                if cleared {
                    assert(contains_idx(lines@, y as int));
                } else if contains_idx(lines@, y as int) {
                    let k = choose|k: int|
                        0 <= k < lines@.len() && (#[trigger] lines@[k]) as int == y as int;
                    if k < li {
                        assert(lines@[k] < y);
                        assert(false);
                    } else {
                        assert(li < num);
                        if li < k {
                            assert(lines@[li as int] < lines@[k]);
                        }
                        assert(lines@[li as int] as int == y as int);
                        assert(false);
                    }
                }
                if cleared {
                    assert(Seq::new(kept@.len(), |j: int| kept@[j]@) =~= rows_kept(
                        old(self).grid(),
                        lines@,
                        y as int + 1,
                    ));
                } else {
                    assert(old(self).grid()[y as int] == old(self).colors@[y as int]@);
                    assert(Seq::new(kept@.len(), |j: int| kept@[j]@) =~= rows_kept(
                        old(self).grid(),
                        lines@,
                        y as int + 1,
                    ));
                }
            }
            y = y + 1;
        }
        proof {
            if li < num {
                assert(lines@[li as int] < row);
                assert(false);
            }
        }
        proof {
            let target = rows_kept(old(self).grid(), lines@, row as int);
            assert(Seq::new(kept@.len(), |j: int| kept@[j]@).len() == target.len());
            assert forall|j: int| 0 <= j < kept@.len() implies (#[trigger] kept@[j]@)
                == target[j] by {
                assert(Seq::new(kept@.len(), |j: int| kept@[j]@)[j] == kept@[j]@);
            }
        }
        let mut i: usize = 0;
        while i < num
            invariant
                i <= num,
                kept@.len() == row - num + i,
                forall|j: int| 0 <= j < kept@.len() ==> (#[trigger] kept@[j]@).len() == col,
                rows_kept(old(self).grid(), lines@, row as int).len() == row - num,
                forall|j: int|
                    0 <= j < row - num ==> (#[trigger] kept@[j]@) == rows_kept(
                        old(self).grid(),
                        lines@,
                        row as int,
                    )[j],
                forall|j: int|
                    row - num <= j < kept@.len() ==> (#[trigger] kept@[j]@) =~= empty_row_seq(
                        col as int,
                    ),
            decreases num - i,
        {
            kept.push(Self::empty_line(col));
            proof {
                assert(kept@[kept@.len() - 1]@ =~= empty_row_seq(col as int));
            }
            i = i + 1;
        }
        self.colors = kept;
        proof {
            let target = rows_kept(old(self).grid(), lines@, row as int) + Seq::new(
                num as nat,
                |j: int| empty_row_seq(col as int),
            );
            assert(self.grid().len() == target.len());
            assert forall|j: int| 0 <= j < row implies self.grid()[j] == target[j] by {
                assert(self.grid()[j] == kept@[j]@);
                if j < row - num {
                    assert(target[j] == rows_kept(old(self).grid(), lines@, row as int)[j]);
                } else {
                    assert(target[j] == Seq::new(num as nat, |j: int| empty_row_seq(col as int))[j
                        - (row - num)]);
                    assert(kept@[j]@ =~= empty_row_seq(col as int));
                }
            }
            assert(self.grid() =~= target);
        }
    }
}

/// An all-empty row of `col` cells, as a sequence.
pub open spec fn empty_row_seq(col: int) -> Seq<CellColor> {
    Seq::new(col as nat, |x: int| CellColor::Empty)
}

/// The rows of `g` below index `n` whose index is not listed in `lines`,
/// bottom to top.
pub open spec fn rows_kept(g: Seq<Seq<CellColor>>, lines: Seq<usize>, n: int) -> Seq<Seq<CellColor>>
    decreases n,
{
    if n <= 0 {
        Seq::empty()
    } else if contains_idx(lines, n - 1) {
        rows_kept(g, lines, n - 1)
    } else {
        rows_kept(g, lines, n - 1) + seq![g[n - 1]]
    }
}

/// Every row kept by `rows_kept` is a row of `g` whose index is not listed.
proof fn lemma_rows_kept_rows(g: Seq<Seq<CellColor>>, lines: Seq<usize>, n: int)
    requires
        0 <= n <= g.len(),
    ensures
        forall|j: int|
            0 <= j < rows_kept(g, lines, n).len() ==> exists|y: int|
                0 <= y < n && !contains_idx(lines, y) && #[trigger] rows_kept(g, lines, n)[j] == g[y],
    decreases n,
{
    if n > 0 {
        lemma_rows_kept_rows(g, lines, n - 1);
        let prev = rows_kept(g, lines, n - 1);
        let curr = rows_kept(g, lines, n);
        assert forall|j: int| 0 <= j < curr.len() implies exists|y: int|
            0 <= y < n && !contains_idx(lines, y) && #[trigger] curr[j] == g[y] by {
            if j < prev.len() {
                let y = choose|y: int|
                    0 <= y < n - 1 && !contains_idx(lines, y) && #[trigger] prev[j] == g[y];
                assert(curr[j] == g[y]);
            } else {
                assert(!contains_idx(lines, n - 1));
                assert(curr[j] == g[n - 1]);
            }
        }
    }
}

/// Law: eliminating exactly the full rows preserves the number of rows and
/// leaves no full row behind.
pub proof fn lemma_eliminate_full_rows(pre: StackedBlock, post: StackedBlock, lines: Seq<usize>)
    requires
        pre.wf(),
        pre.is_full_lines(lines),
        StackedBlock::eliminate_rel(pre, post, lines),
    ensures
        post.spec_row() == pre.spec_row(),
        forall|y: int| 0 <= y < post.spec_row() ==> !post.row_full(y),
{
    let g = pre.grid();
    let row = pre.spec_row();
    let col = pre.spec_col();
    let kept = rows_kept(g, lines, row);
    lemma_rows_kept_rows(g, lines, row);
    assert forall|y: int| 0 <= y < post.spec_row() implies !post.row_full(y) by {
        assert(post.grid()[y] == post.colors@[y]@);
        if y < kept.len() {
            let y0 = choose|y0: int|
                0 <= y0 < row && !contains_idx(lines, y0) && #[trigger] kept[y] == g[y0];
            assert(!pre.row_full(y0));
            let x = choose|x: int| 0 <= x < col && #[trigger] pre.cell(x, y0) == CellColor::Empty;
            assert(g[y0] == pre.colors@[y0]@);
            assert(post.cell(x, y) == CellColor::Empty);
        } else {
            assert(post.grid()[y] == empty_row_seq(col));
            assert(post.cell(0, y) == CellColor::Empty);
        }
    }
}

/// Law: covering an all-empty board with a non-empty color occupies exactly
/// the in-bounds subset of the covered points.
pub proof fn lemma_cover_occupies(
    pre: StackedBlock,
    post: StackedBlock,
    color: CellColor,
    ps: Seq<Point>,
)
    requires
        pre.wf(),
        color != CellColor::Empty,
        forall|x: int, y: int|
            0 <= x < pre.spec_col() && 0 <= y < pre.spec_row() ==> #[trigger] pre.cell(x, y)
                == CellColor::Empty,
        StackedBlock::cover_rel(pre, post, color, ps),
    ensures
        forall|p: Point|
            #[trigger] post.in_bounds(p) ==> (post.cell(p.x as int, p.y as int) != CellColor::Empty
                <==> contains_pt(ps, p.x as int, p.y as int)),
        forall|p: Point|
            #[trigger] post.spec_overlapped(seq![p]) <==> post.in_bounds(p) && contains_pt(
                ps,
                p.x as int,
                p.y as int,
            ),
{
    assert forall|p: Point| #[trigger] post.in_bounds(p) implies (post.cell(
        p.x as int,
        p.y as int,
    ) != CellColor::Empty <==> contains_pt(ps, p.x as int, p.y as int)) by {
        if contains_pt(ps, p.x as int, p.y as int) {
            let k = choose|k: int|
                0 <= k < ps.len() && (#[trigger] ps[k]).x == p.x as int && ps[k].y == p.y as int;
            assert(pre.in_bounds(ps[k]));
            assert(post.cell(ps[k].x as int, ps[k].y as int) == color);
        }
    }
    assert forall|p: Point| #[trigger] post.spec_overlapped(seq![p]) <==> post.in_bounds(p)
        && contains_pt(ps, p.x as int, p.y as int) by {
        assert(seq![p][0] == p);
        if post.in_bounds(p) && post.cell(p.x as int, p.y as int) != CellColor::Empty {
            assert(post.spec_overlapped(seq![p]));
        }
        if post.spec_overlapped(seq![p]) {
            let k = choose|k: int|
                0 <= k < seq![p].len() && post.in_bounds(#[trigger] seq![p][k]) && post.cell(
                    seq![p][k].x as int,
                    seq![p][k].y as int,
                ) != CellColor::Empty;
            assert(seq![p][k] == p);
        }
    }
}

/// The four cells of catalog entry `idx` in rotation state `orient`, each
/// encoded as `10 * x + y` with both coordinates in 0..4.
pub open spec fn block_codes(idx: int, orient: int) -> Seq<int> {
    if idx == 0 {
        // J
        if orient == 0 {
            seq![1, 11, 21, 20]
        } else if orient == 1 {
            seq![12, 22, 11, 10]
        } else if orient == 2 {
            seq![2, 1, 11, 21]
        } else {
            seq![12, 11, 0, 10]
        }
    } else if idx == 1 {
        // L
        if orient == 0 {
            seq![1, 11, 21, 0]
        } else if orient == 1 {
            seq![12, 11, 10, 20]
        } else if orient == 2 {
            seq![22, 1, 11, 21]
        } else {
            seq![2, 12, 11, 10]
        }
    } else if idx == 2 {
        // Z
        if orient == 0 {
            seq![11, 21, 0, 10]
        } else if orient == 1 {
            seq![12, 11, 21, 20]
        } else if orient == 2 {
            seq![12, 22, 1, 11]
        } else {
            seq![2, 1, 11, 10]
        }
    } else if idx == 3 {
        // S
        if orient == 0 {
            seq![1, 11, 10, 20]
        } else if orient == 1 {
            seq![22, 11, 21, 10]
        } else if orient == 2 {
            seq![2, 12, 11, 21]
        } else {
            seq![12, 1, 11, 0]
        }
    } else if idx == 4 {
        // I
        if orient == 0 {
            seq![1, 11, 21, 31]
        } else if orient == 1 {
            seq![23, 21, 22, 20]
        } else if orient == 2 {
            seq![2, 12, 22, 32]
        } else {
            seq![13, 11, 12, 10]
        }
    } else if idx == 5 {
        // T
        if orient == 0 {
            seq![1, 11, 21, 10]
        } else if orient == 1 {
            seq![12, 11, 21, 10]
        } else if orient == 2 {
            seq![12, 1, 11, 21]
        } else {
            seq![12, 1, 11, 10]
        }
    } else {
        // O, the square: identical in every rotation state
        seq![11, 21, 10, 20]
    }
}

/// The color of catalog entry `idx`.
pub open spec fn block_color(idx: int) -> CellColor {
    if idx == 0 {
        CellColor::Rgb(30, 144, 255)
    } else if idx == 1 {
        CellColor::Rgb(255, 140, 0)
    } else if idx == 2 {
        CellColor::Rgb(255, 99, 71)
    } else if idx == 3 {
        CellColor::Rgb(0, 250, 154)
    } else if idx == 4 {
        CellColor::Rgb(176, 224, 230)
    } else if idx == 5 {
        CellColor::Rgb(138, 43, 226)
    } else {
        CellColor::Rgb(250, 250, 210)
    }
}

/// One rotation step: `direction` +1 turns clockwise, -1 counter-clockwise.
pub open spec fn rot_step(o: int, direction: int) -> int {
    (o - direction) % 4
}

/// The falling piece: a catalog entry, a rotation state, and a translation.
#[derive(Clone, Copy, PartialEq, Eq, Structural, Debug)]
pub struct FallingBlock {
    pub block_idx: usize,
    pub orientation: usize,
    pub offset: Point,
}

impl FallingBlock {
    /// Well-formed: a real catalog entry, a real rotation state, and a
    /// translation that keeps point arithmetic inside `isize`.
    pub open spec fn wf(self) -> bool {
        &&& self.block_idx < BLOCK_COUNT
        &&& self.orientation < ORIENTATION_COUNT
        &&& -OFFSET_LIMIT <= self.offset.x <= OFFSET_LIMIT
        &&& -OFFSET_LIMIT <= self.offset.y <= OFFSET_LIMIT
    }

    /// The four absolute cells the piece occupies.
    pub open spec fn spec_points(self) -> Seq<Point> {
        Seq::new(
            4,
            |k: int|
                Point {
                    x: (block_codes(self.block_idx as int, self.orientation as int)[k] / 10
                        + self.offset.x) as isize,
                    y: (block_codes(self.block_idx as int, self.orientation as int)[k] % 10
                        + self.offset.y) as isize,
                },
        )
    }

    pub fn new(block_idx: usize, orientation: usize) -> (b: FallingBlock)
        requires
            block_idx < BLOCK_COUNT,
            orientation < ORIENTATION_COUNT,
        ensures
            b.wf(),
            b.block_idx == block_idx,
            b.orientation == orientation,
            b.offset == (Point { x: 0, y: 0 }),
    {
        FallingBlock { block_idx, orientation, offset: Point { x: 0, y: 0 } }
    }

    /// The catalog's cell codes for this piece's current rotation state.
    fn piece_codes(&self) -> (r: (u8, u8, u8, u8))
        requires
            self.block_idx < BLOCK_COUNT,
            self.orientation < ORIENTATION_COUNT,
        ensures
            ({
                let codes = block_codes(self.block_idx as int, self.orientation as int);
                r.0 == codes[0] && r.1 == codes[1] && r.2 == codes[2] && r.3 == codes[3]
            }),
    {
        match (self.block_idx, self.orientation) {
            (0, 0) => (1, 11, 21, 20),
            (0, 1) => (12, 22, 11, 10),
            (0, 2) => (2, 1, 11, 21),
            (0, _) => (12, 11, 0, 10),
            (1, 0) => (1, 11, 21, 0),
            (1, 1) => (12, 11, 10, 20),
            (1, 2) => (22, 1, 11, 21),
            (1, _) => (2, 12, 11, 10),
            (2, 0) => (11, 21, 0, 10),
            (2, 1) => (12, 11, 21, 20),
            (2, 2) => (12, 22, 1, 11),
            (2, _) => (2, 1, 11, 10),
            (3, 0) => (1, 11, 10, 20),
            (3, 1) => (22, 11, 21, 10),
            (3, 2) => (2, 12, 11, 21),
            (3, _) => (12, 1, 11, 0),
            (4, 0) => (1, 11, 21, 31),
            (4, 1) => (23, 21, 22, 20),
            (4, 2) => (2, 12, 22, 32),
            (4, _) => (13, 11, 12, 10),
            (5, 0) => (1, 11, 21, 10),
            (5, 1) => (12, 11, 21, 10),
            (5, 2) => (12, 1, 11, 21),
            (5, _) => (12, 1, 11, 10),
            (_, _) => (11, 21, 10, 20),
        }
    }

    /// Decode one catalog cell code into an absolute point.
    fn code_point(&self, code: u8) -> (p: Point)
        requires
            self.wf(),
            code < 40,
        ensures
            p.x == (code as int) / 10 + self.offset.x,
            p.y == (code as int) % 10 + self.offset.y,
    {
        Point { x: (code / 10) as isize + self.offset.x, y: (code % 10) as isize + self.offset.y }
    }

    /// The four absolute cells the piece occupies, rotation state applied
    /// and translation added.
    pub fn points(&self) -> (r: Vec<Point>)
        requires
            self.wf(),
        ensures
            r@ =~= self.spec_points(),
    {
        let (c0, c1, c2, c3) = self.piece_codes();
        let mut r: Vec<Point> = Vec::new();
        r.push(self.code_point(c0));
        r.push(self.code_point(c1));
        r.push(self.code_point(c2));
        r.push(self.code_point(c3));
        r
    }

    pub fn color(&self) -> (r: CellColor)
        requires
            self.wf(),
        ensures
            r == block_color(self.block_idx as int),
    {
        match self.block_idx {
            0 => CellColor::Rgb(30, 144, 255),
            1 => CellColor::Rgb(255, 140, 0),
            2 => CellColor::Rgb(255, 99, 71),
            3 => CellColor::Rgb(0, 250, 154),
            4 => CellColor::Rgb(176, 224, 230),
            5 => CellColor::Rgb(138, 43, 226),
            _ => CellColor::Rgb(250, 250, 210),
        }
    }

    /// Translate the piece by `p`.
    pub fn shift(&mut self, p: &Point)
        requires
            old(self).wf(),
            -OFFSET_LIMIT <= old(self).offset.x + p.x <= OFFSET_LIMIT,
            -OFFSET_LIMIT <= old(self).offset.y + p.y <= OFFSET_LIMIT,
        ensures
            final(self).wf(),
            final(self).block_idx == old(self).block_idx,
            final(self).orientation == old(self).orientation,
            final(self).offset.x == old(self).offset.x + p.x,
            final(self).offset.y == old(self).offset.y + p.y,
    {
        self.offset = Point { x: self.offset.x + p.x, y: self.offset.y + p.y };
    }

    /// Turn the piece one rotation state: +1 clockwise, -1 counter-clockwise.
    pub fn rotate(&mut self, direction: isize)
        requires
            old(self).wf(),
            direction == 1 || direction == -1,
        ensures
            final(self).wf(),
            final(self).block_idx == old(self).block_idx,
            final(self).offset == old(self).offset,
            final(self).orientation == rot_step(old(self).orientation as int, direction as int),
    {
        if direction == 1 {
            self.orientation = if self.orientation == 0 {
                3
            } else {
                self.orientation - 1
            };
        } else {
            self.orientation = if self.orientation == 3 {
                0
            } else {
                self.orientation + 1
            };
        }
    }
}

/// Law: four rotation steps in the same direction restore the rotation
/// state, and with it the piece and its occupied points.
pub proof fn lemma_rotate_four_restores(fb: FallingBlock, direction: int)
    requires
        fb.wf(),
        direction == 1 || direction == -1,
    ensures
        ({
            let o4 = rot_step(
                rot_step(rot_step(rot_step(fb.orientation as int, direction), direction), direction),
                direction,
            );
            &&& o4 == fb.orientation
            &&& (FallingBlock { orientation: o4 as usize, ..fb }).spec_points()
                == fb.spec_points()
        }),
{
    let o = fb.orientation as int;
    assert(rot_step(rot_step(rot_step(rot_step(o, direction), direction), direction), direction)
        == o) by {
        assert(0 <= o < 4);
    }
}

/// In a strictly increasing sequence, each element is at least its index.
pub proof fn lemma_increasing_index_bound(lines: Seq<usize>)
    requires
        forall|a: int, b: int| 0 <= a < b < lines.len() ==> lines[a] < lines[b],
    ensures
        forall|k: int| 0 <= k < lines.len() ==> k <= (#[trigger] lines[k]) as int,
    decreases lines.len(),
{
    if lines.len() > 0 {
        let prefix = lines.drop_last();
        assert forall|a: int, b: int| 0 <= a < b < prefix.len() implies prefix[a] < prefix[b] by {
            assert(prefix[a] == lines[a]);
            assert(prefix[b] == lines[b]);
        }
        lemma_increasing_index_bound(prefix);
        assert forall|k: int| 0 <= k < lines.len() implies k <= (#[trigger] lines[k]) as int by {
            if k < lines.len() - 1 {
                assert(prefix[k] == lines[k]);
            } else if k > 0 {
                assert(prefix[k - 1] == lines[k - 1]);
                assert(k - 1 <= lines[k - 1] as int);
                assert(lines[k - 1] < lines[k]);
            }
        }
    }
}

} // verus!
