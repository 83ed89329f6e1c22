use vstd::prelude::*;

verus! {

/// Position of the cell `(x, y, z)` in a column-major layout whose columns
/// have `height` rows of `depth` cells.
pub open spec fn index3(height: int, depth: int, x: int, y: int, z: int) -> int {
    x * height * depth + y * depth + z
}

/// The coordinates stored at position `i`: the inverse of `index3`.
pub open spec fn coords3(height: int, depth: int, i: int) -> (int, int, int) {
    (i / (height * depth), (i / depth) % height, i % depth)
}

pub open spec fn in_box3(w: int, h: int, d: int, x: int, y: int, z: int) -> bool {
    0 <= x < w && 0 <= y < h && 0 <= z < d
}

/// Every coordinate inside the box has a position inside the box, and reading
/// that position back gives the same coordinates.
pub proof fn lemma_coords_of_index3(w: int, h: int, d: int, x: int, y: int, z: int)
    requires
        in_box3(w, h, d, x, y, z),
    ensures
        0 <= index3(h, d, x, y, z) < w * h * d,
        coords3(h, d, index3(h, d, x, y, z)) == (x, y, z),
{
    let i = index3(h, d, x, y, z);
    let yz = y * d + z;
    assert(0 <= yz < h * d) by (nonlinear_arith)
        requires
            0 <= y < h,
            0 <= z < d,
            yz == y * d + z,
    ;
    assert(i == (h * d) * x + yz) by (nonlinear_arith)
        requires
            i == x * h * d + y * d + z,
            yz == y * d + z,
    ;
    assert((h * d) * (x + 1) <= (h * d) * w) by (nonlinear_arith)
        requires
            0 <= x < w,
            0 <= h * d,
    ;
    assert(w * h * d == (h * d) * w) by (nonlinear_arith);
    assert((h * d) * (x + 1) == (h * d) * x + h * d) by (nonlinear_arith);
    assert(0 <= (h * d) * x) by (nonlinear_arith)
        requires
            0 <= x,
            0 <= h * d,
    ;
    vstd::arithmetic::div_mod::lemma_fundamental_div_mod_converse(i, h * d, x, yz);
    assert(i == d * (x * h + y) + z) by (nonlinear_arith)
        requires
            i == x * h * d + y * d + z,
    ;
    assert(0 <= x * h + y) by (nonlinear_arith)
        requires
            0 <= x,
            0 <= y,
            0 <= h,
    ;
    vstd::arithmetic::div_mod::lemma_fundamental_div_mod_converse(i, d, x * h + y, z);
    assert((x * h + y) == h * x + y) by (nonlinear_arith);
    vstd::arithmetic::div_mod::lemma_fundamental_div_mod_converse(x * h + y, h, x, y);
}

/// Every position inside the box holds coordinates inside the box, and they
/// lead back to the same position.
pub proof fn lemma_index_of_coords3(w: int, h: int, d: int, i: int)
    requires
        0 <= i < w * h * d,
        0 <= w,
        0 <= h,
        0 <= d,
    ensures
        h > 0 && d > 0,
        in_box3(w, h, d, coords3(h, d, i).0, coords3(h, d, i).1, coords3(h, d, i).2),
        index3(h, d, coords3(h, d, i).0, coords3(h, d, i).1, coords3(h, d, i).2) == i,
{
    if h <= 0 || d <= 0 {
        assert(w * h * d == 0) by (nonlinear_arith)
            requires
                h == 0 || d == 0,
        ;
    }
    assert(h * d > 0) by (nonlinear_arith)
        requires
            h > 0,
            d > 0,
    ;
    let hd = h * d;
    let x = i / hd;
    let r = i % hd;
    vstd::arithmetic::div_mod::lemma_fundamental_div_mod(i, hd);
    vstd::arithmetic::div_mod::lemma_mod_bound(i, hd);
    vstd::arithmetic::div_mod::lemma_div_pos_is_pos(i, hd);
    assert(x < w) by (nonlinear_arith)
        requires
            i == hd * x + r,
            0 <= r,
            i < w * h * d,
            hd == h * d,
            hd > 0,
    ;
    // i / d == x * h + r / d
    let q = i / d;
    vstd::arithmetic::div_mod::lemma_fundamental_div_mod(r, d);
    vstd::arithmetic::div_mod::lemma_mod_bound(r, d);
    vstd::arithmetic::div_mod::lemma_div_pos_is_pos(r, d);
    let y = r / d;
    let z = r % d;
    assert(y < h) by (nonlinear_arith)
        requires
            r == d * y + z,
            0 <= z,
            r < h * d,
            d > 0,
    ;
    assert(i == d * (x * h + y) + z) by (nonlinear_arith)
        requires
            i == hd * x + r,
            hd == h * d,
            r == d * y + z,
    ;
    assert(0 <= x * h + y) by (nonlinear_arith)
        requires
            0 <= x,
            0 <= y,
            0 <= h,
    ;
    vstd::arithmetic::div_mod::lemma_fundamental_div_mod_converse(i, d, x * h + y, z);
    assert(x * h + y == h * x + y) by (nonlinear_arith);
    vstd::arithmetic::div_mod::lemma_fundamental_div_mod_converse(x * h + y, h, x, y);
    assert(i == x * h * d + y * d + z) by (nonlinear_arith)
        requires
            i == d * (x * h + y) + z,
    ;
}

/// A column-major 3D grid: the cell `(x, y, z)` is stored at
/// `x * height * depth + y * depth + z`.
pub struct Grid3d<T> {
    data: Vec<T>,
    width: usize,
    height: usize,
    depth: usize,
}

impl<T> Grid3d<T> {
    pub closed spec fn spec_width(&self) -> nat {
        self.width as nat
    }

    pub closed spec fn spec_height(&self) -> nat {
        self.height as nat
    }

    pub closed spec fn spec_depth(&self) -> nat {
        self.depth as nat
    }

    /// The cells, in storage order.
    pub closed spec fn cells(&self) -> Seq<T> {
        self.data@
    }

    pub open spec fn wf(&self) -> bool {
        &&& self.cells().len() == self.spec_width() * self.spec_height() * self.spec_depth()
        &&& self.cells().len() <= usize::MAX
    }

    pub open spec fn in_bounds(&self, x: int, y: int, z: int) -> bool {
        in_box3(self.spec_width() as int, self.spec_height() as int, self.spec_depth() as int, x, y, z)
    }

    pub open spec fn pos(&self, x: int, y: int, z: int) -> int {
        index3(self.spec_height() as int, self.spec_depth() as int, x, y, z)
    }

    pub open spec fn at(&self, x: int, y: int, z: int) -> T {
        self.cells()[self.pos(x, y, z)]
    }

    /// A grid of the given dimensions that holds no cells yet.
    pub fn new(width: usize, height: usize, depth: usize) -> (r: Self)
        ensures
            r.spec_width() == width,
            r.spec_height() == height,
            r.spec_depth() == depth,
            r.cells().len() == 0,
    {
        Grid3d { data: Vec::new(), width, height, depth }
    }

    /// A grid with every cell set to `value`.
    pub fn init(width: usize, height: usize, depth: usize, value: T) -> (r: Self)
        where T: Copy,
        requires
            width * height * depth <= usize::MAX,
        ensures
            r.wf(),
            r.spec_width() == width,
            r.spec_height() == height,
            r.spec_depth() == depth,
            r.cells() == Seq::new((width * height * depth) as nat, |i: int| value),
    {
        let n: usize = if depth == 0 {
            0
        } else {
            assert(width * height <= width * height * depth) by (nonlinear_arith)
                requires
                    depth > 0,
            {
            }
            width * height * depth
        };
        let mut data: Vec<T> = Vec::with_capacity(n);
        let mut i: usize = 0;
        while i < n
            invariant
                i <= n,
                data@ == Seq::new(i as nat, |j: int| value),
            decreases n - i,
        {
            data.push(value);
            i += 1;
        }
        Grid3d { data, width, height, depth }
    }

    /// The coordinates of the cell stored at position `idx`.
    pub fn xyz(&self, idx: usize) -> (r: (usize, usize, usize))
        requires
            self.wf(),
            idx < self.cells().len(),
        ensures
            (r.0 as int, r.1 as int, r.2 as int) == coords3(self.spec_height() as int, self.spec_depth() as int, idx as int),
            self.in_bounds(r.0 as int, r.1 as int, r.2 as int),
            self.pos(r.0 as int, r.1 as int, r.2 as int) == idx,
    {
        proof {
            lemma_index_of_coords3(self.width as int, self.height as int, self.depth as int, idx as int);
            assert(self.height * self.depth <= self.width * self.height * self.depth) by (nonlinear_arith)
                requires
                    self.width * self.height * self.depth > idx,
                    idx >= 0,
            {
            }
            assert(self.height * self.depth > 0) by (nonlinear_arith)
                requires
                    self.height > 0,
                    self.depth > 0,
            {
            }
        }
        let hd = self.height * self.depth;
        (idx / hd, (idx / self.depth) % self.height, idx % self.depth)
    }

    /// The position at which the cell `(x, y, z)` is stored.
    pub fn idx(&self, x: usize, y: usize, z: usize) -> (r: usize)
        requires
            self.wf(),
            self.in_bounds(x as int, y as int, z as int),
        ensures
            r == self.pos(x as int, y as int, z as int),
            r < self.cells().len(),
    {
        proof {
            lemma_coords_of_index3(self.width as int, self.height as int, self.depth as int, x as int, y as int, z as int);
            assert(x * self.height * self.depth <= self.pos(x as int, y as int, z as int)) by (nonlinear_arith)
                requires
                    y >= 0,
                    z >= 0,
                    self.depth >= 0,
            {
            }
            assert(x * self.height <= x * self.height * self.depth) by (nonlinear_arith)
                requires
                    self.depth > 0,
                    x * self.height >= 0,
            {
            }
            assert(y * self.depth <= self.pos(x as int, y as int, z as int)) by (nonlinear_arith)
                requires
                    x >= 0,
                    z >= 0,
                    self.height >= 0,
                    self.depth >= 0,
            {
            }
        }
        x * self.height * self.depth + y * self.depth + z
    }

    pub fn width(&self) -> (r: usize)
        ensures
            r == self.spec_width(),
    {
        self.width
    }

    pub fn height(&self) -> (r: usize)
        ensures
            r == self.spec_height(),
    {
        self.height
    }

    pub fn depth(&self) -> (r: usize)
        ensures
            r == self.spec_depth(),
    {
        self.depth
    }


    /// The storage position of `(x, y, z)`, when it is inside the grid and
    /// inside the storage.
    fn checked_pos(&self, x: usize, y: usize, z: usize) -> (r: Option<usize>)
        ensures
            r matches Some(i) ==> i < self.cells().len(),
            self.wf() && self.in_bounds(x as int, y as int, z as int) ==> r == Some(
                self.pos(x as int, y as int, z as int) as usize,
            ),
            !self.in_bounds(x as int, y as int, z as int) ==> r is None,
    {
        if !(x < self.width && y < self.height && z < self.depth) {
            return None;
        }
        let n = self.data.len();
        proof {
            if self.wf() {
                lemma_coords_of_index3(self.width as int, self.height as int, self.depth as int, x as int, y as int, z as int);
                assert(x * self.height * self.depth <= self.pos(x as int, y as int, z as int)) by (nonlinear_arith)
                    requires
                        y >= 0,
                        z >= 0,
                        self.depth >= 0,
                ;
                assert(y * self.depth <= self.pos(x as int, y as int, z as int)) by (nonlinear_arith)
                    requires
                        x >= 0,
                        z >= 0,
                        self.height >= 0,
                        self.depth >= 0,
                ;
                assert(self.height * self.depth <= self.width * self.height * self.depth) by (nonlinear_arith)
                    requires
                        x < self.width,
                        self.height * self.depth >= 0,
                ;
                assert(x * (self.height * self.depth) == x * self.height * self.depth) by (nonlinear_arith);
            }
        }
        let hd = match self.height.checked_mul(self.depth) {
            Some(v) => v,
            None => {
                return None;
            },
        };
        let a = match x.checked_mul(hd) {
            Some(v) => v,
            None => {
                return None;
            },
        };
        let b = match y.checked_mul(self.depth) {
            Some(v) => v,
            None => {
                return None;
            },
        };
        let i = match a.checked_add(b) {
            Some(v) => match v.checked_add(z) {
                Some(w) => w,
                None => {
                    return None;
                },
            },
            None => {
                return None;
            },
        };
        proof {
            assert(x * (self.height * self.depth) == x * self.height * self.depth) by (nonlinear_arith);
        }
        if i < n {
            Some(i)
        } else {
            None
        }
    }

    /// The value at `(x, y, z)`, or `None` outside the grid.
    pub fn get(&self, x: usize, y: usize, z: usize) -> (r: Option<&T>)
        ensures
            self.wf() && self.in_bounds(x as int, y as int, z as int) ==> r == Some(&self.at(x as int, y as int, z as int)),
            !self.in_bounds(x as int, y as int, z as int) ==> r is None,
    {
        proof {
            if self.wf() && self.in_bounds(x as int, y as int, z as int) {
                lemma_coords_of_index3(self.width as int, self.height as int, self.depth as int, x as int, y as int, z as int);
            }
        }
        match self.checked_pos(x, y, z) {
            Some(i) => Some(&self.data[i]),
            None => None,
        }
    }

    /// A mutable reference to the cell `(x, y, z)`, or `None` outside the grid.
    pub fn get_mut(&mut self, x: usize, y: usize, z: usize) -> (r: Option<&mut T>)
        ensures
            final(self).spec_width() == old(self).spec_width(),
            final(self).spec_height() == old(self).spec_height(),
            final(self).spec_depth() == old(self).spec_depth(),
            old(self).wf() && old(self).in_bounds(x as int, y as int, z as int) ==> {
                &&& r is Some
                &&& *r->0 == old(self).at(x as int, y as int, z as int)
                &&& final(self).cells() == old(self).cells().update(
                    old(self).pos(x as int, y as int, z as int),
                    *final(r->0),
                )
            },
            !old(self).in_bounds(x as int, y as int, z as int) ==> r is None && final(self).cells() == old(self).cells(),
    {
        proof {
            if self.wf() && self.in_bounds(x as int, y as int, z as int) {
                lemma_coords_of_index3(self.width as int, self.height as int, self.depth as int, x as int, y as int, z as int);
            }
        }
        match self.checked_pos(x, y, z) {
            Some(i) => Some(&mut self.data[i]),
            None => None,
        }
    }

    /// Sets the cell `(x, y, z)`.
    pub fn set(&mut self, x: usize, y: usize, z: usize, value: T)
        requires
            old(self).wf(),
            old(self).in_bounds(x as int, y as int, z as int),
        ensures
            final(self).wf(),
            final(self).spec_width() == old(self).spec_width(),
            final(self).spec_height() == old(self).spec_height(),
            final(self).spec_depth() == old(self).spec_depth(),
            final(self).cells() == old(self).cells().update(old(self).pos(x as int, y as int, z as int), value),
    {
        let i = self.idx(x, y, z);
        self.data.set(i, value);
    }

    /// Sets every cell to `value`.
    pub fn clear(&mut self, value: T)
        where T: Copy,
        requires
            old(self).wf(),
        ensures
            final(self).wf(),
            final(self).spec_width() == old(self).spec_width(),
            final(self).spec_height() == old(self).spec_height(),
            final(self).spec_depth() == old(self).spec_depth(),
            final(self).cells() == Seq::new(old(self).cells().len(), |i: int| value),
    {
        let n = self.data.len();
        let mut i: usize = 0;
        while i < n
            invariant
                i <= n,
                n == self.data@.len(),
                n == old(self).cells().len(),
                self.width == old(self).width,
                self.height == old(self).height,
                self.depth == old(self).depth,
                forall|j: int| 0 <= j < i ==> self.data@[j] == value,
            decreases n - i,
        {
            self.data.set(i, value);
            i += 1;
        }
        assert(self.data@ == Seq::new(n as nat, |i: int| value));
    }

    /// Sets the cell `(x, y, z)` to `fill_fn(x, y, z)`, for every cell.
    pub fn fill<F: Fn(usize, usize, usize) -> T>(&mut self, fill_fn: F)
        requires
            old(self).wf(),
            forall|x: usize, y: usize, z: usize|
                old(self).in_bounds(x as int, y as int, z as int) ==> fill_fn.requires((x, y, z)),
        ensures
            final(self).wf(),
            final(self).spec_width() == old(self).spec_width(),
            final(self).spec_height() == old(self).spec_height(),
            final(self).spec_depth() == old(self).spec_depth(),
            forall|x: usize, y: usize, z: usize|
                final(self).in_bounds(x as int, y as int, z as int)
                    ==> fill_fn.ensures((x, y, z), #[trigger] final(self).at(x as int, y as int, z as int)),
    {
        let w = self.width;
        let h = self.height;
        let d = self.depth;
        assert forall|x: usize, y: usize, z: usize| x < w && y < h && z < d implies fill_fn.requires((x, y, z)) by {
            assert(old(self).in_bounds(x as int, y as int, z as int));
        }
        let mut x: usize = 0;
        while x < w
            invariant
                self.wf(),
                w == self.width,
                h == self.height,
                d == self.depth,
                x <= w,
                forall|x: usize, y: usize, z: usize| x < w && y < h && z < d ==> fill_fn.requires((x, y, z)),
                forall|i: usize, j: usize, k: usize|
                    i < x && j < h && k < d ==> fill_fn.ensures((i, j, k), #[trigger] self.at(i as int, j as int, k as int)),
            decreases w - x,
        {
            let mut y: usize = 0;
            while y < h
                invariant
                    self.wf(),
                    w == self.width,
                    h == self.height,
                    d == self.depth,
                    x < w,
                    y <= h,
                    forall|x: usize, y: usize, z: usize| x < w && y < h && z < d ==> fill_fn.requires((x, y, z)),
                    forall|i: usize, j: usize, k: usize|
                        ((i < x && j < h) || (i == x && j < y)) && k < d
                            ==> fill_fn.ensures((i, j, k), #[trigger] self.at(i as int, j as int, k as int)),
                decreases h - y,
            {
                let mut z: usize = 0;
                while z < d
                    invariant
                        self.wf(),
                        w == self.width,
                        h == self.height,
                        d == self.depth,
                        x < w,
                        y < h,
                        z <= d,
                        forall|x: usize, y: usize, z: usize| x < w && y < h && z < d ==> fill_fn.requires((x, y, z)),
                        forall|i: usize, j: usize, k: usize|
                            (((i < x && j < h) || (i == x && j < y)) && k < d) || (i == x && j == y && k < z)
                                ==> fill_fn.ensures((i, j, k), #[trigger] self.at(i as int, j as int, k as int)),
                    decreases d - z,
                {
                    let v = fill_fn(x, y, z);
                    let ghost prev_grid = *self;
                    self.set(x, y, z, v);
                    proof {
                        assert forall|i: usize, j: usize, k: usize|
                            (((i < x && j < h) || (i == x && j < y)) && k < d) || (i == x && j == y && k < z + 1)
                                implies fill_fn.ensures((i, j, k), #[trigger] self.at(i as int, j as int, k as int)) by {
                            if i == x && j == y && k == z {
                                lemma_coords_of_index3(w as int, h as int, d as int, x as int, y as int, z as int);
                                assert(self.at(i as int, j as int, k as int) == v);
                            } else {
                                lemma_coords_of_index3(w as int, h as int, d as int, i as int, j as int, k as int);
                                lemma_coords_of_index3(w as int, h as int, d as int, x as int, y as int, z as int);
                                assert(self.at(i as int, j as int, k as int) == prev_grid.at(i as int, j as int, k as int));
                            }
                        }
                    }
                    z += 1;
                }
                y += 1;
            }
            x += 1;
        }
    }

    /// True for the coordinates outside the grid.
    pub fn is_oob(&self, x: usize, y: usize, z: usize) -> (r: bool)
        ensures
            r == !self.in_bounds(x as int, y as int, z as int),
    {
        x >= self.width || y >= self.height || z >= self.depth
    }

    /// True for the cells on the outer shell of the grid.
    pub fn is_on_edge(&self, x: usize, y: usize, z: usize) -> (r: bool)
        ensures
            r == (x == 0 || x + 1 == self.spec_width() || y == 0 || y + 1 == self.spec_height() || z == 0
                || z + 1 == self.spec_depth()),
    {
        x == 0 || (self.width > 0 && x == self.width - 1) || y == 0 || (self.height > 0 && y == self.height - 1)
            || z == 0 || (self.depth > 0 && z == self.depth - 1)
    }
}

} // verus!
