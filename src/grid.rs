use vstd::prelude::*;
use vstd::std_specs::iter::IteratorSpec;

verus! {

/// A column-major 2D grid: the cell `(x, y)` is stored at `x * height + y`.
#[derive(Clone)]
pub struct Grid<T> {
    data: Vec<T>,
    width: usize,
    height: usize,
}

/// Position of the cell `(x, y)` in a column-major sequence of columns of
/// length `height`.
pub open spec fn grid_index(height: int, x: int, y: int) -> int {
    x * height + y
}

impl<T> Grid<T> {
    pub closed spec fn spec_width(&self) -> nat {
        self.width as nat
    }

    pub closed spec fn spec_height(&self) -> nat {
        self.height as nat
    }

    /// The cells, column by column.
    pub closed spec fn cells(&self) -> Seq<T> {
        self.data@
    }

    /// The backing sequence holds exactly one value per cell.
    pub open spec fn wf(&self) -> bool {
        &&& self.cells().len() == self.spec_width() * self.spec_height()
        &&& self.cells().len() <= usize::MAX
    }

    pub open spec fn in_bounds(&self, x: int, y: int) -> bool {
        0 <= x < self.spec_width() && 0 <= y < self.spec_height()
    }

    /// The value of the cell `(x, y)`.
    pub open spec fn at(&self, x: int, y: int) -> T {
        self.cells()[grid_index(self.spec_height() as int, x, y)]
    }

    pub fn init(width: usize, height: usize, value: T) -> (r: Self)
        where T: Copy,
        requires
            width * height <= usize::MAX,
        ensures
            r.wf(),
            r.spec_width() == width,
            r.spec_height() == height,
            r.cells() == Seq::new((width * height) as nat, |i: int| value),
    {
        let n: usize = width * height;
        let mut data: Vec<T> = Vec::with_capacity(n);
        let mut i: usize = 0;
        while i < n
            invariant
                i <= n,
                data@ == Seq::new(i as nat, |j: int| value),
            decreases n - i,
        {
            data.push(value);
            i += 1;
        }
        Grid { data, width, height }
    }

    /// Builds a grid whose cell `(x, y)` holds `fill_fn(x, y)`.
    pub fn init_fill<F: Fn(usize, usize) -> T>(width: usize, height: usize, fill_fn: F) -> (r: Self)
        requires
            width * height <= usize::MAX,
            forall|x: usize, y: usize| x < width && y < height ==> fill_fn.requires((x, y)),
        ensures
            r.wf(),
            r.spec_width() == width,
            r.spec_height() == height,
            forall|x: usize, y: usize|
                x < width && y < height ==> fill_fn.ensures((x, y), #[trigger] r.at(x as int, y as int)),
    {
        let mut data: Vec<T> = Vec::with_capacity(width * height);
        let mut x: usize = 0;
        while x < width
            invariant
                width * height <= usize::MAX,
                x <= width,
                data@.len() == x * height,
                forall|x: usize, y: usize| x < width && y < height ==> fill_fn.requires((x, y)),
                forall|i: usize, j: usize|
                    i < x && j < height ==> fill_fn.ensures((i, j), #[trigger] data@[grid_index(height as int, i as int, j as int)]),
            decreases width - x,
        {
            let ghost before = data@;
            let mut y: usize = 0;
            while y < height
                invariant
                    width * height <= usize::MAX,
                    x < width,
                    y <= height,
                    data@.len() == x * height + y,
                    data@.subrange(0, x * height) == before,
                    before.len() == x * height,
                    forall|x: usize, y: usize| x < width && y < height ==> fill_fn.requires((x, y)),
                    forall|j: usize|
                        j < y ==> fill_fn.ensures((x, j), #[trigger] data@[grid_index(height as int, x as int, j as int)]),
                decreases height - y,
            {
                proof {
                    lemma_index_in_bounds(width as int, height as int, x as int, y as int);
                }
                let v = fill_fn(x, y);
                data.push(v);
                y += 1;
            }
            proof {
                assert((x + 1) * height == x * height + height) by (nonlinear_arith);
                assert forall|i: usize, j: usize|
                    i < x + 1 && j < height implies fill_fn.ensures((i, j), #[trigger] data@[grid_index(height as int, i as int, j as int)]) by {
                    if i < x {
                        lemma_index_in_bounds(x as int, height as int, i as int, j as int);
                        assert(data@[grid_index(height as int, i as int, j as int)] == before[grid_index(height as int, i as int, j as int)]);
                    }
                }
            }
            x += 1;
        }
        let _ = data.len();
        Grid { data, width, height }
    }

    pub fn init_from_vec(width: usize, height: usize, data: Vec<T>) -> (r: Self)
        requires
            data@.len() == width * height,
        ensures
            r.wf(),
            r.spec_width() == width,
            r.spec_height() == height,
            r.cells() == data@,
    {
        let _ = data.len();
        Grid { data, width, height }
    }

    /// A grid with the same dimensions and cells.
    pub fn duplicate(&self) -> (r: Self)
        where T: Copy,
        requires
            self.wf(),
        ensures
            r.wf(),
            r.spec_width() == self.spec_width(),
            r.spec_height() == self.spec_height(),
            r.cells() == self.cells(),
    {
        let n = self.data.len();
        let mut data: Vec<T> = Vec::with_capacity(n);
        let mut i: usize = 0;
        while i < n
            invariant
                i <= n,
                n == self.data@.len(),
                data@ == self.data@.subrange(0, i as int),
            decreases n - i,
        {
            data.push(self.data[i]);
            i += 1;
        }
        assert(data@ == self.data@);
        Grid { data, width: self.width, height: self.height }
    }

    /// The number of cells.
    pub fn cells_len(&self) -> (r: usize)
        ensures
            r == self.cells().len(),
    {
        self.data.len()
    }

    /// The cell stored at position `i`.
    pub fn cell_at(&self, i: usize) -> (r: T)
        where T: Copy,
        requires
            i < self.cells().len(),
        ensures
            r == self.cells()[i as int],
    {
        self.data[i]
    }

    /// The coordinates of the cell stored at position `idx`.
    pub fn xy(&self, idx: usize) -> (r: (usize, usize))
        requires
            self.wf(),
            idx < self.cells().len(),
        ensures
            r.0 == idx as int / self.spec_height() as int,
            r.1 == idx as int % self.spec_height() as int,
            self.in_bounds(r.0 as int, r.1 as int),
            grid_index(self.spec_height() as int, r.0 as int, r.1 as int) == idx,
    {
        proof {
            lemma_position_in_bounds(self.width as int, self.height as int, idx as int);
        }
        (idx / self.height, idx % self.height)
    }

    /// The position at which the cell `(x, y)` is stored.
    pub fn idx(&self, x: usize, y: usize) -> (r: usize)
        requires
            self.wf(),
            self.in_bounds(x as int, y as int),
        ensures
            r == grid_index(self.spec_height() as int, x as int, y as int),
            r < self.cells().len(),
    {
        proof {
            lemma_index_in_bounds(self.width as int, self.height as int, x as int, y as int);
        }
        x * self.height + y
    }

    pub fn width(&self) -> (r: usize)
        ensures
            r == self.spec_width(),
    {
        self.width
    }

    pub fn height(&self) -> (r: usize)
        ensures
            r == self.spec_height(),
    {
        self.height
    }

    /// The value at `(x, y)`, or `None` outside the grid.
    pub fn get(&self, x: usize, y: usize) -> (r: Option<&T>)
        requires
            self.wf(),
        ensures
            self.in_bounds(x as int, y as int) ==> r == Some(&self.at(x as int, y as int)),
            !self.in_bounds(x as int, y as int) ==> r is None,
    {
        if x < self.width && y < self.height {
            let i = self.idx(x, y);
            Some(&self.data[i])
        } else {
            None
        }
    }

    /// A mutable reference to the cell `(x, y)`, or `None` outside the grid.
    pub fn get_mut(&mut self, x: usize, y: usize) -> (r: Option<&mut T>)
        requires
            old(self).wf(),
        ensures
            final(self).spec_width() == old(self).spec_width(),
            final(self).spec_height() == old(self).spec_height(),
            old(self).in_bounds(x as int, y as int) ==> {
                &&& r is Some
                &&& *r->0 == old(self).at(x as int, y as int)
                &&& final(self).cells() == old(self).cells().update(
                    grid_index(old(self).spec_height() as int, x as int, y as int),
                    *final(r->0),
                )
            },
            !old(self).in_bounds(x as int, y as int) ==> r is None && final(self).cells() == old(self).cells(),
    {
        if x < self.width && y < self.height {
            let i = self.idx(x, y);
            Some(&mut self.data[i])
        } else {
            None
        }
    }

    /// Sets every cell to `value`.
    pub fn clear(&mut self, value: T)
        where T: Copy,
        requires
            old(self).wf(),
        ensures
            final(self).wf(),
            final(self).spec_width() == old(self).spec_width(),
            final(self).spec_height() == old(self).spec_height(),
            final(self).cells() == Seq::new(old(self).cells().len(), |i: int| value),
    {
        let n = self.data.len();
        let mut i: usize = 0;
        while i < n
            invariant
                i <= n,
                n == self.data@.len(),
                n == old(self).cells().len(),
                self.width == old(self).width,
                self.height == old(self).height,
                forall|j: int| 0 <= j < i ==> self.data@[j] == value,
            decreases n - i,
        {
            self.data.set(i, value);
            i += 1;
        }
        assert(self.data@ == Seq::new(n as nat, |i: int| value));
    }

    /// The cells, column by column.
    pub fn iter(&self) -> (r: std::slice::Iter<'_, T>)
        ensures
            r.remaining() == self.cells().map_values(|v: T| &v),
    {
        self.data.as_slice().iter()
    }

    /// Sets the cell `(x, y)` to `fill_fn(x, y)`, for every cell.
    pub fn fill<F: Fn(usize, usize) -> T>(&mut self, fill_fn: F)
        requires
            old(self).wf(),
            forall|x: usize, y: usize| old(self).in_bounds(x as int, y as int) ==> fill_fn.requires((x, y)),
        ensures
            final(self).wf(),
            final(self).spec_width() == old(self).spec_width(),
            final(self).spec_height() == old(self).spec_height(),
            forall|x: usize, y: usize|
                final(self).in_bounds(x as int, y as int) ==> fill_fn.ensures((x, y), #[trigger] final(self).at(x as int, y as int)),
    {
        let w = self.width;
        let h = self.height;
        assert forall|x: usize, y: usize| x < w && y < h implies fill_fn.requires((x, y)) by {
            assert(old(self).in_bounds(x as int, y as int));
        }
        let mut x: usize = 0;
        while x < w
            invariant
                self.wf(),
                w == self.width,
                h == self.height,
                x <= w,
                forall|x: usize, y: usize| x < w && y < h ==> fill_fn.requires((x, y)),
                forall|i: usize, j: usize|
                    i < x && j < h ==> fill_fn.ensures((i, j), #[trigger] self.at(i as int, j as int)),
            decreases w - x,
        {
            let mut y: usize = 0;
            while y < h
                invariant
                    self.wf(),
                    w == self.width,
                    h == self.height,
                    x < w,
                    y <= h,
                    forall|x: usize, y: usize| x < w && y < h ==> fill_fn.requires((x, y)),
                    forall|i: usize, j: usize|
                        (i < x && j < h) || (i == x && j < y) ==> fill_fn.ensures((i, j), #[trigger] self.at(i as int, j as int)),
                decreases h - y,
            {
                let v = fill_fn(x, y);
                let ghost prev_grid = *self;
                let ghost prev = self.cells();
                self.set(x, y, v);
                proof {
                    assert forall|i: usize, j: usize|
                        (i < x && j < h) || (i == x && j < y + 1) implies fill_fn.ensures((i, j), #[trigger] self.at(i as int, j as int)) by {
                        lemma_index_in_bounds(w as int, h as int, i as int, j as int);
                        lemma_index_in_bounds(w as int, h as int, x as int, y as int);
                        if i == x && j == y {
                            assert(self.at(i as int, j as int) == v);
                        } else {
                            lemma_index_injective(h as int, i as int, j as int, x as int, y as int);
                            assert(self.at(i as int, j as int) == prev[grid_index(h as int, i as int, j as int)]);
                            assert(fill_fn.ensures((i, j), prev_grid.at(i as int, j as int)));
                        }
                    }
                }
                y += 1;
            }
            x += 1;
        }
    }

    /// True for the coordinates outside the grid.
    pub fn is_oob(&self, x: usize, y: usize) -> (r: bool)
        ensures
            r == !self.in_bounds(x as int, y as int),
    {
        x >= self.width || y >= self.height
    }

    /// True for the cells on the outer ring of the grid.
    pub fn is_on_edge(&self, x: usize, y: usize) -> (r: bool)
        ensures
            r == (x == 0 || x + 1 == self.spec_width() || y == 0 || y + 1 == self.spec_height()),
    {
        x == 0 || (self.width > 0 && x == self.width - 1) || y == 0 || (self.height > 0 && y == self.height - 1)
    }

    /// Sets the cell `(x, y)`.
    pub fn set(&mut self, x: usize, y: usize, value: T)
        requires
            old(self).wf(),
            old(self).in_bounds(x as int, y as int),
        ensures
            final(self).wf(),
            final(self).spec_width() == old(self).spec_width(),
            final(self).spec_height() == old(self).spec_height(),
            final(self).cells() == old(self).cells().update(
                grid_index(old(self).spec_height() as int, x as int, y as int),
                value,
            ),
    {
        let i = self.idx(x, y);
        self.data.set(i, value);
    }
}

/// Setting one cell of a grid leaves every other cell as it was, and the set
/// cell reads back as the value written.
pub proof fn lemma_set_then_get<T>(g: Grid<T>, after: Grid<T>, x: int, y: int, v: T)
    requires
        g.wf(),
        g.in_bounds(x, y),
        after.spec_width() == g.spec_width(),
        after.spec_height() == g.spec_height(),
        after.cells() == g.cells().update(grid_index(g.spec_height() as int, x, y), v),
    ensures
        after.wf(),
        after.at(x, y) == v,
        forall|i: int, j: int| g.in_bounds(i, j) && (i != x || j != y) ==> #[trigger] after.at(i, j) == g.at(i, j),
{
    lemma_index_in_bounds(g.spec_width() as int, g.spec_height() as int, x, y);
    assert forall|i: int, j: int| g.in_bounds(i, j) && (i != x || j != y) implies #[trigger] after.at(i, j) == g.at(i, j) by {
        lemma_index_in_bounds(g.spec_width() as int, g.spec_height() as int, i, j);
        lemma_index_injective(g.spec_height() as int, i, j, x, y);
    }
}

pub proof fn lemma_index_in_bounds(w: int, h: int, x: int, y: int)
    requires
        0 <= x < w,
        0 <= y < h,
    ensures
        0 <= grid_index(h, x, y) < w * h,
{
    assert(x * h + y < w * h) by (nonlinear_arith)
        requires
            0 <= x < w,
            0 <= y < h,
    ;
    assert(0 <= x * h) by (nonlinear_arith)
        requires
            0 <= x,
            0 <= h,
    ;
}

pub proof fn lemma_index_injective(h: int, x1: int, y1: int, x2: int, y2: int)
    requires
        0 <= y1 < h,
        0 <= y2 < h,
        0 <= x1,
        0 <= x2,
        x1 != x2 || y1 != y2,
    ensures
        grid_index(h, x1, y1) != grid_index(h, x2, y2),
{
    if x1 == x2 {
    } else if x1 < x2 {
        assert(x1 * h + h <= x2 * h) by (nonlinear_arith)
            requires
                x1 < x2,
                h >= 0,
        ;
    } else {
        assert(x2 * h + h <= x1 * h) by (nonlinear_arith)
            requires
                x2 < x1,
                h >= 0,
        ;
    }
}

pub proof fn lemma_position_in_bounds(w: int, h: int, i: int)
    requires
        0 <= i < w * h,
        0 <= w,
        0 <= h,
    ensures
        h > 0,
        0 <= i / h < w,
        0 <= i % h < h,
        grid_index(h, i / h, i % h) == i,
{
    if h <= 0 {
        assert(w * h == 0) by (nonlinear_arith)
            requires
                h == 0,
        ;
    }
    vstd::arithmetic::div_mod::lemma_fundamental_div_mod(i, h);
    vstd::arithmetic::div_mod::lemma_div_pos_is_pos(i, h);
    vstd::arithmetic::div_mod::lemma_mod_bound(i, h);
    let q = i / h;
    let r = i % h;
    assert(q < w) by (nonlinear_arith)
        requires
            i == h * q + r,
            0 <= r,
            i < w * h,
            h > 0,
    ;
    assert(q * h == h * q) by (nonlinear_arith);
}

} // verus!
