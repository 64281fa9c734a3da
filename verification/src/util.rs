use vstd::prelude::*;

verus! {

/// The position of cell `(x, y)` in the row-by-row storage of a grid `width` cells wide.
pub open spec fn flat_index(width: int, x: int, y: int) -> int {
    x + y * width
}

/// Two different cells of a row-by-row grid never share a slot.
pub proof fn lemma_flat_index_unique(width: int, x1: int, y1: int, x2: int, y2: int)
    requires
        0 <= x1 < width,
        0 <= x2 < width,
        0 <= y1,
        0 <= y2,
        flat_index(width, x1, y1) == flat_index(width, x2, y2),
    ensures
        x1 == x2,
        y1 == y2,
{
    if y1 < y2 {
        assert(y1 * width + width <= y2 * width) by (nonlinear_arith)
            requires
                y1 < y2,
                0 < width,
        ;
    } else if y2 < y1 {
        assert(y2 * width + width <= y1 * width) by (nonlinear_arith)
            requires
                y2 < y1,
                0 < width,
        ;
    }
}

/// A cell inside a `width` by `height` grid has its slot inside the grid's storage.
pub proof fn lemma_flat_index_bounds(width: int, height: int, x: int, y: int)
    requires
        0 <= x < width,
        0 <= y < height,
    ensures
        0 <= flat_index(width, x, y) < width * height,
        flat_index(width, x, y) + 1 <= width * height,
{
    assert(x + y * width < width * height) by (nonlinear_arith)
        requires
            0 <= x < width,
            0 <= y < height,
    ;
    assert(0 <= y * width) by (nonlinear_arith)
        requires
            0 <= y,
            0 <= x < width,
    ;
}

/// Every slot of a `width` cells wide storage belongs to the cell `(i % width, i / width)`.
pub proof fn lemma_flat_index_decompose(width: int, i: int)
    requires
        0 < width,
        0 <= i,
    ensures
        0 <= i % width < width,
        0 <= i / width,
        flat_index(width, i % width, i / width) == i,
{
    vstd::arithmetic::div_mod::lemma_fundamental_div_mod(i, width);
    assert(i / width * width == width * (i / width)) by (nonlinear_arith);
    vstd::arithmetic::div_mod::lemma_div_pos_is_pos(i, width);
}

/// A rectangular grid of values, stored row by row.
pub struct Matrix<T> {
    data: Vec<T>,
    width: usize,
}

impl<T> Matrix<T> {
    /// The number of columns.
    pub closed spec fn spec_width(&self) -> nat {
        self.width as nat
    }

    /// All values, row by row.
    pub closed spec fn cells(&self) -> Seq<T> {
        self.data@
    }

    /// The number of rows.
    pub open spec fn spec_height(&self) -> nat {
        if self.spec_width() == 0 {
            0
        } else {
            self.cells().len() / self.spec_width()
        }
    }

    /// The storage holds whole rows only.
    pub open spec fn wf(&self) -> bool {
        &&& self.spec_width() == 0 ==> self.cells().len() == 0
        &&& self.cells().len() == self.spec_width() * self.spec_height()
    }

    /// The value of cell `(x, y)`.
    pub open spec fn at(&self, x: int, y: int) -> T {
        self.cells()[flat_index(self.spec_width() as int, x, y)]
    }

    /// Builds a `width` by `height` grid whose cell `(x, y)` holds `fill(x, y)`.
    pub fn new(width: usize, height: usize, fill: impl Fn(usize, usize) -> T) -> (r: Self)
        requires
            width * height <= usize::MAX,
            forall|x: usize, y: usize| x < width && y < height ==> call_requires(fill, (x, y)),
        ensures
            r.wf(),
            r.spec_width() == width,
            r.cells().len() == width * height,
            width > 0 ==> r.spec_height() == height,
            forall|x: usize, y: usize|
                x < width && y < height ==> call_ensures(
                    fill,
                    (x, y),
                    #[trigger] r.at(x as int, y as int),
                ),
    {
        let mut data: Vec<T> = Vec::new();
        let mut y: usize = 0;
        while y < height
            invariant
                y <= height,
                width * height <= usize::MAX,
                data@.len() == y * width,
                forall|x: usize, y: usize| x < width && y < height ==> call_requires(fill, (x, y)),
                forall|xx: usize, yy: usize|
                    xx < width && yy < y ==> call_ensures(
                        fill,
                        (xx, yy),
                        data@[flat_index(width as int, xx as int, yy as int)],
                    ),
            decreases height - y,
        {
            let mut x: usize = 0;
            assert(y * width + width <= width * height) by (nonlinear_arith)
                requires
                    y < height,
            ;
            while x < width
                invariant
                    x <= width,
                    y < height,
                    y * width + width <= width * height,
                    width * height <= usize::MAX,
                    data@.len() == y * width + x,
                    forall|x: usize, y: usize|
                        x < width && y < height ==> call_requires(fill, (x, y)),
                    forall|xx: usize, yy: usize|
                        (xx < width && yy < y) || (xx < x && yy == y) ==> call_ensures(
                            fill,
                            (xx, yy),
                            data@[flat_index(width as int, xx as int, yy as int)],
                        ),
                decreases width - x,
            {
                let v = fill(x, y);
                data.push(v);
                x = x + 1;
                assert forall|xx: usize, yy: usize|
                    (xx < width && yy < y) || (xx < x && yy == y) implies call_ensures(
                        fill,
                        (xx, yy),
                        data@[flat_index(width as int, xx as int, yy as int)],
                    ) by {
                    if yy < y {
                        assert(xx + yy * width < y * width) by (nonlinear_arith)
                            requires
                                xx < width,
                                yy < y,
                        ;
                    }
                }
            }
            assert(data@.len() == (y + 1) * width) by (nonlinear_arith)
                requires
                    data@.len() == y * width + width,
            ;
            y = y + 1;
        }
        let r = Matrix { data, width };
        proof {
            assert(data@.len() == width * height) by (nonlinear_arith)
                requires
                    data@.len() == y * width,
                    y == height,
            ;
            if width > 0 {
                vstd::arithmetic::div_mod::lemma_div_multiples_vanish(height as int, width as int);
                assert(width * height == height * width) by (nonlinear_arith);
            }
        }
        r
    }

    /// The number of columns.
    pub fn width(&self) -> (r: usize)
        ensures
            r == self.spec_width(),
    {
        self.width
    }

    /// The number of rows.
    pub fn height(&self) -> (r: usize)
        requires
            self.spec_width() > 0,
        ensures
            r == self.spec_height(),
    {
        self.data.len() / self.width
    }

    /// The value of cell `(x, y)`.
    pub fn get(&self, x: usize, y: usize) -> (r: &T)
        requires
            flat_index(self.spec_width() as int, x as int, y as int) < self.cells().len(),
        ensures
            *r == self.at(x as int, y as int),
    {
        let n = self.data.len();
        proof {
            assert(0 <= y * self.width <= x + y * self.width) by (nonlinear_arith);
        }
        &self.data[x + y * self.width]
    }

    /// Replaces the value of cell `(x, y)`.
    pub fn set(&mut self, x: usize, y: usize, value: T)
        requires
            flat_index(old(self).spec_width() as int, x as int, y as int) < old(self).cells().len(),
        ensures
            final(self).spec_width() == old(self).spec_width(),
            final(self).cells() == old(self).cells().update(
                flat_index(old(self).spec_width() as int, x as int, y as int),
                value,
            ),
    {
        let n = self.data.len();
        proof {
            assert(0 <= y * self.width <= x + y * self.width) by (nonlinear_arith);
        }
        let i = x + y * self.width;
        self.data.set(i, value);
    }

    /// Every cell with its coordinates, row by row.
    pub fn enumerate(&self) -> (r: Vec<((usize, usize), &T)>)
        requires
            self.wf(),
        ensures
            r@.len() == self.cells().len(),
            forall|i: int|
                0 <= i < r@.len() ==> #[trigger] r@[i] == (
                    ((i % self.spec_width() as int) as usize, (i / self.spec_width() as int) as usize),
                    &self.cells()[i],
                ),
    {
        let mut r: Vec<((usize, usize), &T)> = Vec::new();
        let n = self.data.len();
        let mut i: usize = 0;
        while i < n
            invariant
                i <= n,
                self.wf(),
                n == self.cells().len(),
                r@.len() == i,
                forall|j: int|
                    0 <= j < i ==> #[trigger] r@[j] == (
                        ((j % self.spec_width() as int) as usize, (j / self.spec_width() as int) as usize),
                        &self.cells()[j],
                    ),
            decreases n - i,
        {
            let coords = (i % self.width, i / self.width);
            r.push((coords, &self.data[i]));
            i = i + 1;
        }
        r
    }

    /// Replaces the value of every cell `(x, y)` with `f(x, y)`.
    pub fn fill(&mut self, f: impl Fn(usize, usize) -> T)
        requires
            old(self).wf(),
            forall|x: usize, y: usize|
                x < old(self).spec_width() && y < old(self).spec_height() ==> call_requires(
                    f,
                    (x, y),
                ),
        ensures
            final(self).wf(),
            final(self).spec_width() == old(self).spec_width(),
            final(self).cells().len() == old(self).cells().len(),
            final(self).spec_height() == old(self).spec_height(),
            forall|x: usize, y: usize|
                x < final(self).spec_width() && y < final(self).spec_height() ==> call_ensures(
                    f,
                    (x, y),
                    #[trigger] final(self).at(x as int, y as int),
                ),
    {
        let width = self.width;
        if width == 0 {
            return;
        }
        let height = self.data.len() / width;
        let ghost w = width as int;
        let ghost h = height as int;
        let ghost len = self.data@.len();
        let mut y: usize = 0;
        while y < height
            invariant
                self.wf(),
                self.width == width,
                width > 0,
                self.data@.len() == len,
                len == w * h,
                w == width,
                h == height,
                height == self.spec_height(),
                y <= height,
                forall|x: usize, y: usize| x < width && y < height ==> call_requires(f, (x, y)),
                forall|xx: usize, yy: usize|
                    xx < width && yy < y ==> call_ensures(f, (xx, yy), self.at(xx as int, yy as int)),
            decreases height - y,
        {
            let mut x: usize = 0;
            while x < width
                invariant
                    self.wf(),
                    self.width == width,
                    width > 0,
                    self.data@.len() == len,
                    len == w * h,
                    w == width,
                    h == height,
                    height == self.spec_height(),
                    y < height,
                    x <= width,
                    forall|x: usize, y: usize|
                        x < width && y < height ==> call_requires(f, (x, y)),
                    forall|xx: usize, yy: usize|
                        (xx < width && yy < y) || (xx < x && yy == y) ==> call_ensures(
                            f,
                            (xx, yy),
                            self.at(xx as int, yy as int),
                        ),
                decreases width - x,
            {
                let n = self.data.len();
                proof {
                    lemma_flat_index_bounds(w, h, x as int, y as int);
                    assert(0 <= y * width <= x + y * width) by (nonlinear_arith);
                }
                let v = f(x, y);
                let i = x + y * width;
                let ghost before = self.data@;
                let ghost prev = *self;
                self.data.set(i, v);
                assert forall|xx: usize, yy: usize|
                    (xx < width && yy < y) || (xx <= x && yy == y) implies call_ensures(
                        f,
                        (xx, yy),
                        self.at(xx as int, yy as int),
                    ) by {
                    if xx == x && yy == y {
                        assert(i as int == flat_index(w, x as int, y as int));
                        assert(self.data@[i as int] == v);
                    } else {
                        if flat_index(w, xx as int, yy as int) == flat_index(w, x as int, y as int) {
                            lemma_flat_index_unique(w, xx as int, yy as int, x as int, y as int);
                        }
                        lemma_flat_index_bounds(w, h, xx as int, yy as int);
                        assert(self.at(xx as int, yy as int) == before[flat_index(w, xx as int, yy as int)]);
                        assert(call_ensures(f, (xx, yy), prev.at(xx as int, yy as int)));
                    }
                }
                x = x + 1;
            }
            y = y + 1;
        }
    }
}

impl<T: Copy> Clone for Matrix<T> {
    fn clone(&self) -> (r: Self)
        ensures
            r.spec_width() == self.spec_width(),
            r.cells() == self.cells(),
    {
        let mut data: Vec<T> = Vec::new();
        let mut i: usize = 0;
        while i < self.data.len()
            invariant
                i <= self.data@.len(),
                data@ == self.data@.take(i as int),
            decreases self.data@.len() - i,
        {
            data.push(self.data[i]);
            i = i + 1;
            assert(data@ =~= self.data@.take(i as int));
        }
        assert(data@ =~= self.data@);
        Matrix { data, width: self.width }
    }
}

/// Reading a cell back after writing it gives what was written, and the other cells of the
/// grid keep their values.
pub proof fn lemma_matrix_read_after_write<T>(
    before: Matrix<T>,
    after: Matrix<T>,
    x: int,
    y: int,
    value: T,
    x2: int,
    y2: int,
)
    requires
        before.wf(),
        0 <= x < before.spec_width(),
        0 <= y < before.spec_height(),
        0 <= x2 < before.spec_width(),
        0 <= y2 < before.spec_height(),
        after.spec_width() == before.spec_width(),
        after.cells() == before.cells().update(flat_index(before.spec_width() as int, x, y), value),
    ensures
        after.at(x2, y2) == if x2 == x && y2 == y {
            value
        } else {
            before.at(x2, y2)
        },
{
    let w = before.spec_width() as int;
    let h = before.spec_height() as int;
    lemma_flat_index_bounds(w, h, x, y);
    lemma_flat_index_bounds(w, h, x2, y2);
    if flat_index(w, x, y) == flat_index(w, x2, y2) {
        lemma_flat_index_unique(w, x, y, x2, y2);
    }
}

} // verus!
