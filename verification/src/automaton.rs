use bitvec::array::BitArray;
use crate::util::{flat_index, lemma_flat_index_bounds, lemma_flat_index_unique, Matrix};
use vstd::prelude::*;

verus! {

/// The direction in which a glider travels.
#[derive(Clone, Copy, Debug, PartialEq, Eq, Structural, Hash)]
pub enum Heading {
    PosX,
    PosY,
    NegX,
    NegY,
}

/// A wall of the grid: the one at the ends of the x axis, or the one at the ends of the y axis.
#[derive(Clone, Copy, Debug, PartialEq, Eq, Structural, Hash)]
pub enum Wall {
    XLimit,
    YLimit,
}

pub open spec fn spec_rotated_ccw(h: Heading) -> Heading {
    match h {
        Heading::PosX => Heading::NegY,
        Heading::PosY => Heading::PosX,
        Heading::NegX => Heading::PosY,
        Heading::NegY => Heading::NegX,
    }
}

pub open spec fn spec_flipped(h: Heading) -> Heading {
    match h {
        Heading::PosX => Heading::NegX,
        Heading::PosY => Heading::NegY,
        Heading::NegX => Heading::PosX,
        Heading::NegY => Heading::PosY,
    }
}

impl Heading {
    /// The heading a quarter turn away.
    pub fn rotated_ccw(self) -> (r: Heading)
        ensures
            r == spec_rotated_ccw(self),
    {
        match self {
            Heading::PosX => Heading::NegY,
            Heading::PosY => Heading::PosX,
            Heading::NegX => Heading::PosY,
            Heading::NegY => Heading::NegX,
        }
    }

    /// The opposite heading.
    pub fn flipped(self) -> (r: Heading)
        ensures
            r == spec_flipped(self),
    {
        match self {
            Heading::PosX => Heading::NegX,
            Heading::PosY => Heading::NegY,
            Heading::NegX => Heading::PosX,
            Heading::NegY => Heading::PosY,
        }
    }
}

/// Four quarter turns bring a heading back to where it started.
pub proof fn lemma_rotation_cycle(h: Heading)
    ensures
        spec_rotated_ccw(spec_rotated_ccw(spec_rotated_ccw(spec_rotated_ccw(h)))) == h,
        spec_rotated_ccw(h) != h,
{
}

/// Two quarter turns make a half turn, and two half turns change nothing.
pub proof fn lemma_flip_is_half_turn(h: Heading)
    ensures
        spec_rotated_ccw(spec_rotated_ccw(h)) == spec_flipped(h),
        spec_flipped(spec_flipped(h)) == h,
        spec_flipped(h) != h,
{
}

/// Which of the four headings have a glider in one cell of the grid.
#[derive(Clone, Copy, Debug, PartialEq, Eq, Structural, Hash)]
pub struct HeadingSet {
    pub pos_x: bool,
    pub pos_y: bool,
    pub neg_x: bool,
    pub neg_y: bool,
}

pub open spec fn empty_cell() -> HeadingSet {
    HeadingSet { pos_x: false, pos_y: false, neg_x: false, neg_y: false }
}

impl HeadingSet {
    /// Whether a glider with heading `h` is in the cell.
    pub open spec fn contains(self, h: Heading) -> bool {
        match h {
            Heading::PosX => self.pos_x,
            Heading::PosY => self.pos_y,
            Heading::NegX => self.neg_x,
            Heading::NegY => self.neg_y,
        }
    }

    /// The same cell with a glider of heading `h` added.
    pub open spec fn insert(self, h: Heading) -> HeadingSet {
        match h {
            Heading::PosX => HeadingSet { pos_x: true, ..self },
            Heading::PosY => HeadingSet { pos_y: true, ..self },
            Heading::NegX => HeadingSet { neg_x: true, ..self },
            Heading::NegY => HeadingSet { neg_y: true, ..self },
        }
    }

    /// How many gliders are in the cell.
    pub open spec fn count(self) -> nat {
        (if self.pos_x { 1nat } else { 0nat }) + (if self.pos_y { 1nat } else { 0nat }) + (if self.neg_x {
            1nat
        } else {
            0nat
        }) + (if self.neg_y { 1nat } else { 0nat })
    }

    /// The headings present, in the order `PosX`, `PosY`, `NegX`, `NegY`.
    pub open spec fn headings(self) -> Seq<Heading> {
        (if self.pos_x { seq![Heading::PosX] } else { Seq::empty() }) + (if self.pos_y {
            seq![Heading::PosY]
        } else {
            Seq::empty()
        }) + (if self.neg_x { seq![Heading::NegX] } else { Seq::empty() }) + (if self.neg_y {
            seq![Heading::NegY]
        } else {
            Seq::empty()
        })
    }

    /// A cell without gliders.
    pub fn empty() -> (r: HeadingSet)
        ensures
            r == empty_cell(),
    {
        HeadingSet { pos_x: false, pos_y: false, neg_x: false, neg_y: false }
    }

    /// Whether a glider with heading `h` is in the cell.
    pub fn has(&self, h: Heading) -> (r: bool)
        ensures
            r == self.contains(h),
    {
        match h {
            Heading::PosX => self.pos_x,
            Heading::PosY => self.pos_y,
            Heading::NegX => self.neg_x,
            Heading::NegY => self.neg_y,
        }
    }

    /// The same cell with a glider of heading `h` added.
    pub fn with(&self, h: Heading) -> (r: HeadingSet)
        ensures
            r == self.insert(h),
    {
        match h {
            Heading::PosX => HeadingSet { pos_x: true, ..*self },
            Heading::PosY => HeadingSet { pos_y: true, ..*self },
            Heading::NegX => HeadingSet { neg_x: true, ..*self },
            Heading::NegY => HeadingSet { neg_y: true, ..*self },
        }
    }

    /// How many gliders are in the cell.
    pub fn len(&self) -> (r: usize)
        ensures
            r == self.count(),
    {
        let mut n: usize = 0;
        if self.pos_x {
            n = n + 1;
        }
        if self.pos_y {
            n = n + 1;
        }
        if self.neg_x {
            n = n + 1;
        }
        if self.neg_y {
            n = n + 1;
        }
        n
    }

    /// The headings present, in the order `PosX`, `PosY`, `NegX`, `NegY`.
    pub fn to_vec(&self) -> (r: Vec<Heading>)
        ensures
            r@ == self.headings(),
    {
        let mut r: Vec<Heading> = Vec::new();
        if self.pos_x {
            r.push(Heading::PosX);
        }
        if self.pos_y {
            r.push(Heading::PosY);
        }
        if self.neg_x {
            r.push(Heading::NegX);
        }
        if self.neg_y {
            r.push(Heading::NegY);
        }
        proof {
            assert(r@ =~= self.headings());
        }
        r
    }
}

/// What the gliders of one cell become when they meet: a lone glider keeps its heading,
/// two gliders each turn a quarter turn (the one heading `h` afterwards came in heading
/// `h.rotated_ccw()`), and three or four gliders each turn around.
pub open spec fn collided(c: HeadingSet) -> HeadingSet {
    if c.count() <= 1 {
        c
    } else if c.count() == 2 {
        HeadingSet {
            pos_x: c.contains(spec_rotated_ccw(Heading::PosX)),
            pos_y: c.contains(spec_rotated_ccw(Heading::PosY)),
            neg_x: c.contains(spec_rotated_ccw(Heading::NegX)),
            neg_y: c.contains(spec_rotated_ccw(Heading::NegY)),
        }
    } else {
        HeadingSet {
            pos_x: c.contains(spec_flipped(Heading::PosX)),
            pos_y: c.contains(spec_flipped(Heading::PosY)),
            neg_x: c.contains(spec_flipped(Heading::NegX)),
            neg_y: c.contains(spec_flipped(Heading::NegY)),
        }
    }
}

/// A collision never creates or destroys a glider.
pub proof fn lemma_collision_keeps_count(c: HeadingSet)
    ensures
        collided(c).count() == c.count(),
        forall|h: Heading|
            #[trigger] collided(c).contains(h) == if c.count() <= 1 {
                c.contains(h)
            } else if c.count() == 2 {
                c.contains(spec_rotated_ccw(h))
            } else {
                c.contains(spec_flipped(h))
            },
{
}

/// Resolves the collision in one cell.
pub fn collide(c: HeadingSet) -> (r: HeadingSet)
    ensures
        r == collided(c),
{
    let n = c.len();
    if n <= 1 {
        c
    } else if n == 2 {
        HeadingSet {
            pos_x: c.has(Heading::PosX.rotated_ccw()),
            pos_y: c.has(Heading::PosY.rotated_ccw()),
            neg_x: c.has(Heading::NegX.rotated_ccw()),
            neg_y: c.has(Heading::NegY.rotated_ccw()),
        }
    } else {
        HeadingSet {
            pos_x: c.has(Heading::PosX.flipped()),
            pos_y: c.has(Heading::PosY.flipped()),
            neg_x: c.has(Heading::NegX.flipped()),
            neg_y: c.has(Heading::NegY.flipped()),
        }
    }
}

/// The heading of a glider at `(x, y)` after it meets a wall of the `width` by `height` grid:
/// a glider about to leave the grid turns around.
pub open spec fn deflected(width: int, height: int, x: int, y: int, h: Heading) -> Heading {
    match h {
        Heading::PosX => if x == width - 1 { Heading::NegX } else { h },
        Heading::PosY => if y == height - 1 { Heading::NegY } else { h },
        Heading::NegX => if x == 0 { Heading::PosX } else { h },
        Heading::NegY => if y == 0 { Heading::PosY } else { h },
    }
}

/// The wall that a glider at `(x, y)` with heading `h` bounces off, with its position
/// along that wall (its `y` for the x walls, its `x` for the y walls), if it bounces.
pub open spec fn bounce_of(width: int, height: int, x: int, y: int, h: Heading) -> Option<(Wall, int)> {
    match h {
        Heading::PosX => if x == width - 1 { Some((Wall::XLimit, y)) } else { None },
        Heading::PosY => if y == height - 1 { Some((Wall::YLimit, x)) } else { None },
        Heading::NegX => if x == 0 { Some((Wall::XLimit, y)) } else { None },
        Heading::NegY => if y == 0 { Some((Wall::YLimit, x)) } else { None },
    }
}

/// The cell one step from `(x, y)` in direction `h`.
pub open spec fn advanced(x: int, y: int, h: Heading) -> (int, int) {
    match h {
        Heading::PosX => (x + 1, y),
        Heading::PosY => (x, y + 1),
        Heading::NegX => (x - 1, y),
        Heading::NegY => (x, y - 1),
    }
}


/// The bits recorded for one wall, held in a 64-bit `BitArray`.
#[verifier::external_body]
#[derive(Copy, Debug)]
pub struct WallBits {
    bits: BitArray<[u64; 1]>,
}

impl Clone for WallBits {
    fn clone(&self) -> (r: Self)
        ensures
            r == *self,
    {
        *self
    }
}

/// The bits of the `BitArray` inside `bits`, lowest index first.
pub uninterp spec fn bit_array_bits(bits: WallBits) -> Seq<bool>;

/// The indices of the set bits among the first `n` of `bits`, in increasing order.
pub open spec fn ones_below(bits: Seq<bool>, n: nat) -> Seq<usize>
    decreases n,
{
    if n == 0 {
        Seq::empty()
    } else {
        ones_below(bits, (n - 1) as nat) + if bits[n - 1] {
            seq![(n - 1) as usize]
        } else {
            Seq::empty()
        }
    }
}

/// The indices of the set bits of `bits`, in increasing order.
pub open spec fn ones(bits: Seq<bool>) -> Seq<usize> {
    ones_below(bits, bits.len())
}

/// `BitArray::ZERO`: a 64-bit array with every bit cleared.
#[verifier::external_body]
fn bits_zero() -> (r: WallBits)
    ensures
        bit_array_bits(r) == Seq::new(64, |i: int| false),
{
    WallBits { bits: BitArray::ZERO }
}

/// `BitSlice::set` on a `BitArray`: writes `value` into bit `index`, which must be in range
/// (it panics otherwise), and leaves the other bits as they were.
#[verifier::external_body]
fn bits_set(bits: &mut WallBits, index: usize, value: bool)
    requires
        index < bit_array_bits(*old(bits)).len(),
    ensures
        bit_array_bits(*final(bits)) == bit_array_bits(*old(bits)).update(index as int, value),
{
    bits.bits.set(index, value)
}

/// `BitSlice::iter_ones` on a `BitArray`, collected: the index of each set bit, in
/// increasing order.
#[verifier::external_body]
fn bits_iter_ones(bits: &WallBits) -> (r: Vec<usize>)
    ensures
        r@ == ones(bit_array_bits(*bits)),
{
    bits.bits.iter_ones().collect()
}

/// Where gliders bounced off walls during one step of the automaton.
#[derive(Clone, Copy, Debug)]
pub struct Bounces {
    x_limit: WallBits,
    y_limit: WallBits,
    matrix_width: usize,
    matrix_height: usize,
}

/// The bounces off `wall` at the positions `coords`.
pub open spec fn wall_entries(wall: Wall, coords: Seq<usize>) -> Seq<(Wall, usize)> {
    coords.map_values(|c: usize| (wall, c))
}

impl Bounces {
    /// The width of the grid that the bounces happened in.
    pub closed spec fn spec_matrix_width(&self) -> nat {
        self.matrix_width as nat
    }

    /// The height of the grid that the bounces happened in.
    pub closed spec fn spec_matrix_height(&self) -> nat {
        self.matrix_height as nat
    }

    /// The bits recorded for `wall`.
    pub closed spec fn wall_bits(&self, wall: Wall) -> Seq<bool> {
        match wall {
            Wall::XLimit => bit_array_bits(self.x_limit),
            Wall::YLimit => bit_array_bits(self.y_limit),
        }
    }

    /// The length of `wall`: the height of the grid for the x walls, its width for the y walls.
    pub open spec fn spec_wall_length(&self, wall: Wall) -> nat {
        match wall {
            Wall::XLimit => self.spec_matrix_height(),
            Wall::YLimit => self.spec_matrix_width(),
        }
    }

    /// Whether a glider bounced off `wall` at position `coord` along it.
    pub open spec fn contains(&self, wall: Wall, coord: int) -> bool {
        0 <= coord < 64 && self.wall_bits(wall)[coord]
    }

    /// Each wall has 64 bits, and no bounce lies beyond the end of its wall.
    pub open spec fn wf(&self) -> bool {
        &&& self.wall_bits(Wall::XLimit).len() == 64
        &&& self.wall_bits(Wall::YLimit).len() == 64
        &&& self.spec_matrix_width() <= 64
        &&& self.spec_matrix_height() <= 64
        &&& forall|wall: Wall, c: int|
            #[trigger] self.contains(wall, c) ==> c < self.spec_wall_length(wall)
    }

    /// Every bounce, the x walls first, each wall in increasing position.
    pub open spec fn entries(&self) -> Seq<(Wall, usize)> {
        wall_entries(Wall::XLimit, ones(self.wall_bits(Wall::XLimit))) + wall_entries(
            Wall::YLimit,
            ones(self.wall_bits(Wall::YLimit)),
        )
    }

    /// No bounces yet, in a `matrix_width` by `matrix_height` grid.
    pub fn new(matrix_width: usize, matrix_height: usize) -> (r: Bounces)
        requires
            matrix_width <= 64,
            matrix_height <= 64,
        ensures
            r.wf(),
            r.spec_matrix_width() == matrix_width,
            r.spec_matrix_height() == matrix_height,
            forall|wall: Wall, c: int| !#[trigger] r.contains(wall, c),
    {
        Bounces { x_limit: bits_zero(), y_limit: bits_zero(), matrix_width, matrix_height }
    }

    /// The length of `wall`.
    pub fn wall_length(&self, wall: Wall) -> (r: usize)
        ensures
            r == self.spec_wall_length(wall),
    {
        match wall {
            Wall::XLimit => self.matrix_height,
            Wall::YLimit => self.matrix_width,
        }
    }

    /// Notes a bounce off `wall` at position `coord_along_wall`.
    pub fn record(&mut self, wall: Wall, coord_along_wall: usize)
        requires
            old(self).wf(),
            coord_along_wall < old(self).spec_wall_length(wall),
        ensures
            final(self).wf(),
            final(self).spec_matrix_width() == old(self).spec_matrix_width(),
            final(self).spec_matrix_height() == old(self).spec_matrix_height(),
            forall|w: Wall, c: int|
                #[trigger] final(self).contains(w, c) == (old(self).contains(w, c) || (w == wall
                    && c == coord_along_wall)),
    {
        let ghost prev = *self;
        match wall {
            Wall::XLimit => bits_set(&mut self.x_limit, coord_along_wall, true),
            Wall::YLimit => bits_set(&mut self.y_limit, coord_along_wall, true),
        }
        assert forall|w: Wall, c: int|
            #[trigger] self.contains(w, c) == (prev.contains(w, c) || (w == wall
                && c == coord_along_wall)) by {
            if w == wall {
            }
        }
        assert forall|w: Wall, c: int|
            #[trigger] self.contains(w, c) implies c < self.spec_wall_length(w) by {
            if !(w == wall && c == coord_along_wall) {
                assert(prev.contains(w, c));
            }
        }
    }

    /// Every bounce, the x walls first, each wall in increasing position.
    pub fn iter(&self) -> (r: Vec<(Wall, usize)>)
        ensures
            r@ == self.entries(),
    {
        let xs = bits_iter_ones(&self.x_limit);
        let ys = bits_iter_ones(&self.y_limit);
        let mut r: Vec<(Wall, usize)> = Vec::new();
        let mut i: usize = 0;
        while i < xs.len()
            invariant
                i <= xs@.len(),
                r@ == wall_entries(Wall::XLimit, xs@).take(i as int),
            decreases xs@.len() - i,
        {
            r.push((Wall::XLimit, xs[i]));
            i = i + 1;
            proof {
                assert(r@ =~= wall_entries(Wall::XLimit, xs@).take(i as int));
            }
        }
        let mut j: usize = 0;
        while j < ys.len()
            invariant
                j <= ys@.len(),
                i == xs@.len(),
                r@ == wall_entries(Wall::XLimit, xs@).take(i as int) + wall_entries(
                    Wall::YLimit,
                    ys@,
                ).take(j as int),
            decreases ys@.len() - j,
        {
            r.push((Wall::YLimit, ys[j]));
            j = j + 1;
            proof {
                assert(r@ =~= wall_entries(Wall::XLimit, xs@).take(i as int) + wall_entries(
                    Wall::YLimit,
                    ys@,
                ).take(j as int));
            }
        }
        proof {
            assert(wall_entries(Wall::XLimit, xs@).take(i as int) =~= wall_entries(
                Wall::XLimit,
                xs@,
            ));
            assert(wall_entries(Wall::YLimit, ys@).take(j as int) =~= wall_entries(
                Wall::YLimit,
                ys@,
            ));
        }
        r
    }
}

/// The gliders on the grid at one moment.
pub struct State {
    matrix: Matrix<HeadingSet>,
}

/// Whether cell `(sx, sy)` comes before cell `(x, y)` when the grid is read row by row.
pub open spec fn before_in_rows(sx: int, sy: int, x: int, y: int) -> bool {
    sy < y || (sy == y && sx < x)
}

impl State {
    /// The number of columns.
    pub closed spec fn spec_width(&self) -> nat {
        self.matrix.spec_width()
    }

    /// The number of rows.
    pub closed spec fn spec_height(&self) -> nat {
        self.matrix.spec_height()
    }

    /// The gliders in cell `(x, y)`.
    pub closed spec fn cell(&self, x: int, y: int) -> HeadingSet {
        self.matrix.at(x, y)
    }

    /// The grid holds whole rows.
    pub closed spec fn wf(&self) -> bool {
        self.matrix.wf()
    }

    /// Whether `(x, y)` is a cell of the grid.
    pub open spec fn in_grid(&self, x: int, y: int) -> bool {
        0 <= x < self.spec_width() && 0 <= y < self.spec_height()
    }

    /// Whether a glider with heading `h` is in cell `(x, y)`.
    pub open spec fn has_glider(&self, x: int, y: int, h: Heading) -> bool {
        self.in_grid(x, y) && self.cell(x, y).contains(h)
    }

    /// The gliders of cell `(x, y)` once their collision is resolved.
    pub open spec fn collided_at(&self, x: int, y: int) -> HeadingSet {
        collided(self.cell(x, y))
    }

    /// The glider that leaves cell `(sx, sy)` with heading `sh` after the collision, turns
    /// around if it is at a wall, and lands on cell `(x, y)` with heading `h`.
    pub open spec fn reaches(&self, sx: int, sy: int, sh: Heading, x: int, y: int, h: Heading) -> bool {
        &&& self.in_grid(sx, sy)
        &&& self.collided_at(sx, sy).contains(sh)
        &&& deflected(self.spec_width() as int, self.spec_height() as int, sx, sy, sh) == h
        &&& advanced(sx, sy, h) == (x, y)
    }

    /// The glider that leaves cell `(sx, sy)` with heading `sh` after the collision bounces
    /// off `wall` at position `c`.
    pub open spec fn bounces_off(&self, sx: int, sy: int, sh: Heading, wall: Wall, c: int) -> bool {
        &&& self.in_grid(sx, sy)
        &&& self.collided_at(sx, sy).contains(sh)
        &&& bounce_of(self.spec_width() as int, self.spec_height() as int, sx, sy, sh) == Some(
            (wall, c),
        )
    }

    /// Whether, after one step, cell `(x, y)` holds a glider with heading `h`.
    pub open spec fn arrives(&self, x: int, y: int, h: Heading) -> bool {
        exists|sx: int, sy: int, sh: Heading| #[trigger] self.reaches(sx, sy, sh, x, y, h)
    }

    /// Whether, during one step, a glider bounces off `wall` at position `c`.
    pub open spec fn bounced(&self, wall: Wall, c: int) -> bool {
        exists|sx: int, sy: int, sh: Heading| #[trigger] self.bounces_off(sx, sy, sh, wall, c)
    }

    /// The only cell a glider with heading `h` can come from to land on `(x, y)`.
    pub open spec fn source_of(x: int, y: int, h: Heading) -> (int, int) {
        advanced(x, y, spec_flipped(h))
    }

    /// `arrives`, written with the source cell spelled out.
    pub open spec fn arrives_from_source(&self, x: int, y: int, h: Heading) -> bool {
        let (sx, sy) = Self::source_of(x, y, h);
        let w = self.spec_width() as int;
        let ht = self.spec_height() as int;
        &&& self.in_grid(sx, sy)
        &&& ((self.collided_at(sx, sy).contains(h) && deflected(w, ht, sx, sy, h) == h) || (
        self.collided_at(sx, sy).contains(spec_flipped(h)) && deflected(
            w,
            ht,
            sx,
            sy,
            spec_flipped(h),
        ) == h))
    }

    /// `bounced`, written with the two cells that can bounce off that spot spelled out.
    pub open spec fn bounced_at_ends(&self, wall: Wall, c: int) -> bool {
        let w = self.spec_width() as int;
        let ht = self.spec_height() as int;
        match wall {
            Wall::XLimit => 0 <= c < ht && (self.collided_at(w - 1, c).pos_x || self.collided_at(
                0,
                c,
            ).neg_x),
            Wall::YLimit => 0 <= c < w && (self.collided_at(c, ht - 1).pos_y || self.collided_at(
                c,
                0,
            ).neg_y),
        }
    }

    /// No glider leaves its cell, after the collisions, across a direction in which the grid
    /// is only one cell wide: there it would turn around at one wall and step past the other.
    pub open spec fn steps_in_grid(&self) -> bool {
        &&& self.spec_width() == 1 ==> forall|x: int, y: int|
            self.in_grid(x, y) ==> !(#[trigger] self.collided_at(x, y)).pos_x && !self.collided_at(
                x,
                y,
            ).neg_x
        &&& self.spec_height() == 1 ==> forall|x: int, y: int|
            self.in_grid(x, y) ==> !(#[trigger] self.collided_at(x, y)).pos_y && !self.collided_at(
                x,
                y,
            ).neg_y
    }

    proof fn lemma_arrives(&self, x: int, y: int, h: Heading)
        ensures
            self.arrives(x, y, h) == self.arrives_from_source(x, y, h),
    {
        let (sx, sy) = Self::source_of(x, y, h);
        if self.arrives(x, y, h) {
            let (ax, ay, ah) = choose|ax: int, ay: int, ah: Heading| #[trigger]
                self.reaches(ax, ay, ah, x, y, h);
            assert(ax == sx && ay == sy);
            assert(ah == h || ah == spec_flipped(h));
        }
        if self.arrives_from_source(x, y, h) {
            if self.collided_at(sx, sy).contains(h) && deflected(
                self.spec_width() as int,
                self.spec_height() as int,
                sx,
                sy,
                h,
            ) == h {
                assert(self.reaches(sx, sy, h, x, y, h));
            } else {
                assert(self.reaches(sx, sy, spec_flipped(h), x, y, h));
            }
        }
    }

    proof fn lemma_bounced(&self, wall: Wall, c: int)
        requires
            self.spec_width() >= 1,
            self.spec_height() >= 1,
        ensures
            self.bounced(wall, c) == self.bounced_at_ends(wall, c),
    {
        let w = self.spec_width() as int;
        let ht = self.spec_height() as int;
        if self.bounced(wall, c) {
            let (ax, ay, ah) = choose|ax: int, ay: int, ah: Heading| #[trigger]
                self.bounces_off(ax, ay, ah, wall, c);
            assert(self.bounced_at_ends(wall, c));
        }
        if self.bounced_at_ends(wall, c) {
            match wall {
                Wall::XLimit => {
                    if self.collided_at(w - 1, c).pos_x {
                        assert(self.bounces_off(w - 1, c, Heading::PosX, wall, c));
                    } else {
                        assert(self.bounces_off(0, c, Heading::NegX, wall, c));
                    }
                },
                Wall::YLimit => {
                    if self.collided_at(c, ht - 1).pos_y {
                        assert(self.bounces_off(c, ht - 1, Heading::PosY, wall, c));
                    } else {
                        assert(self.bounces_off(c, 0, Heading::NegY, wall, c));
                    }
                },
            }
        }
    }
}

/// Moves the glider that leaves cell `(x, y)` with heading `h` one step into `next`,
/// turning it around at a wall and noting the bounce in `bounces`.
fn emit(
    next: &mut Matrix<HeadingSet>,
    bounces: &mut Bounces,
    width: usize,
    height: usize,
    x: usize,
    y: usize,
    h: Heading,
)
    requires
        old(next).wf(),
        old(next).spec_width() == width,
        old(next).spec_height() == height,
        1 <= width <= 64,
        1 <= height <= 64,
        (h == Heading::PosX || h == Heading::NegX) ==> width >= 2,
        (h == Heading::PosY || h == Heading::NegY) ==> height >= 2,
        x < width,
        y < height,
        old(bounces).wf(),
        old(bounces).spec_matrix_width() == width,
        old(bounces).spec_matrix_height() == height,
    ensures
        final(next).wf(),
        final(next).spec_width() == width,
        final(next).spec_height() == height,
        final(bounces).wf(),
        final(bounces).spec_matrix_width() == width,
        final(bounces).spec_matrix_height() == height,
        forall|tx: int, ty: int, th: Heading|
            0 <= tx < width && 0 <= ty < height ==> #[trigger] final(next).at(tx, ty).contains(th)
                == (old(next).at(tx, ty).contains(th) || (th == deflected(
                width as int,
                height as int,
                x as int,
                y as int,
                h,
            ) && advanced(x as int, y as int, th) == (tx, ty))),
        forall|wall: Wall, c: int|
            #[trigger] final(bounces).contains(wall, c) == (old(bounces).contains(wall, c)
                || bounce_of(width as int, height as int, x as int, y as int, h) == Some((wall, c))),
{
    let new_heading = match h {
        Heading::PosX => if x == width - 1 {
            bounces.record(Wall::XLimit, y);
            Heading::NegX
        } else {
            h
        },
        Heading::PosY => if y == height - 1 {
            bounces.record(Wall::YLimit, x);
            Heading::NegY
        } else {
            h
        },
        Heading::NegX => if x == 0 {
            bounces.record(Wall::XLimit, y);
            Heading::PosX
        } else {
            h
        },
        Heading::NegY => if y == 0 {
            bounces.record(Wall::YLimit, x);
            Heading::PosY
        } else {
            h
        },
    };
    let (nx, ny) = match new_heading {
        Heading::PosX => (x + 1, y),
        Heading::PosY => (x, y + 1),
        Heading::NegX => (x - 1, y),
        Heading::NegY => (x, y - 1),
    };
    let ghost prev = *next;
    let ghost w = width as int;
    let ghost ht = height as int;
    proof {
        lemma_flat_index_bounds(w, ht, nx as int, ny as int);
    }
    let cell = *next.get(nx, ny);
    next.set(nx, ny, cell.with(new_heading));
    assert forall|tx: int, ty: int, th: Heading|
        0 <= tx < width && 0 <= ty < height implies #[trigger] next.at(tx, ty).contains(th) == (
        prev.at(tx, ty).contains(th) || (th == new_heading && advanced(x as int, y as int, th) == (
        tx,
        ty,
    ))) by {
        lemma_flat_index_bounds(w, ht, tx, ty);
        if flat_index(w, tx, ty) == flat_index(w, nx as int, ny as int) {
            lemma_flat_index_unique(w, tx, ty, nx as int, ny as int);
        }
    }
}

/// The content of every cell of a fresh grid.
fn no_gliders_at(x: usize, y: usize) -> (r: HeadingSet)
    ensures
        r == empty_cell(),
{
    HeadingSet::empty()
}

impl State {
    /// A `width` by `height` grid holding exactly the gliders listed.
    pub fn new(width: usize, height: usize, gliders: &[((usize, usize), Heading)]) -> (r: State)
        requires
            width * height <= usize::MAX,
            forall|i: int|
                0 <= i < gliders@.len() ==> (#[trigger] gliders@[i]).0.0 < width
                    && gliders@[i].0.1 < height,
        ensures
            r.wf(),
            r.spec_width() == width,
            width > 0 ==> r.spec_height() == height,
            forall|x: int, y: int, h: Heading|
                0 <= x < width && 0 <= y < height ==> (#[trigger] r.cell(x, y).contains(h) <==> exists|
                    i: int,
                | 0 <= i < gliders@.len() && #[trigger] gliders@[i] == ((x as usize, y as usize), h)),
    {
        let mut matrix = Matrix::new(width, height, no_gliders_at);
        let ghost w = width as int;
        let ghost ht = height as int;
        let mut i: usize = 0;
        while i < gliders.len()
            invariant
                i <= gliders@.len(),
                matrix.wf(),
                matrix.spec_width() == width,
                width > 0 ==> matrix.spec_height() == height,
                matrix.cells().len() == width * height,
                w == width,
                ht == height,
                forall|i: int|
                    0 <= i < gliders@.len() ==> (#[trigger] gliders@[i]).0.0 < width
                        && gliders@[i].0.1 < height,
                forall|x: int, y: int, h: Heading|
                    0 <= x < width && 0 <= y < height ==> (#[trigger] matrix.at(x, y).contains(h)
                        <==> exists|j: int|
                        0 <= j < i && #[trigger] gliders@[j] == ((x as usize, y as usize), h)),
            decreases gliders@.len() - i,
        {
            let ((gx, gy), gh) = gliders[i];
            assert(gliders@[i as int] == ((gx, gy), gh));
            let ghost prev = matrix;
            proof {
                lemma_flat_index_bounds(w, ht, gx as int, gy as int);
            }
            let cell = *matrix.get(gx, gy);
            matrix.set(gx, gy, cell.with(gh));
            i = i + 1;
            assert forall|x: int, y: int, h: Heading|
                0 <= x < width && 0 <= y < height implies (#[trigger] matrix.at(x, y).contains(h)
                <==> exists|j: int|
                0 <= j < i && #[trigger] gliders@[j] == ((x as usize, y as usize), h)) by {
                lemma_flat_index_bounds(w, ht, x, y);
                if flat_index(w, x, y) == flat_index(w, gx as int, gy as int) {
                    lemma_flat_index_unique(w, x, y, gx as int, gy as int);
                }
                assert(prev.at(x, y).contains(h) <==> exists|j: int|
                    0 <= j < i - 1 && #[trigger] gliders@[j] == ((x as usize, y as usize), h));
                if matrix.at(x, y).contains(h) {
                    if !prev.at(x, y).contains(h) {
                        assert(gliders@[i - 1] == ((x as usize, y as usize), h));
                    }
                }
                if exists|j: int| 0 <= j < i && #[trigger] gliders@[j] == ((x as usize, y as usize), h) {
                    let j = choose|j: int|
                        0 <= j < i && #[trigger] gliders@[j] == ((x as usize, y as usize), h);
                    if j < i - 1 {
                        assert(prev.at(x, y).contains(h));
                    }
                }
            }
        }
        State { matrix }
    }

    /// The number of columns.
    pub fn width(&self) -> (r: usize)
        ensures
            r == self.spec_width(),
    {
        self.matrix.width()
    }

    /// The number of rows.
    pub fn height(&self) -> (r: usize)
        requires
            self.spec_width() > 0,
        ensures
            r == self.spec_height(),
    {
        self.matrix.height()
    }

    /// The headings of the gliders in cell `(x, y)`, in the order `PosX`, `PosY`, `NegX`, `NegY`.
    pub fn gliders_at(&self, x: usize, y: usize) -> (r: Vec<Heading>)
        requires
            self.wf(),
            self.in_grid(x as int, y as int),
        ensures
            r@ == self.cell(x as int, y as int).headings(),
    {
        proof {
            lemma_flat_index_bounds(
                self.spec_width() as int,
                self.spec_height() as int,
                x as int,
                y as int,
            );
        }
        self.matrix.get(x, y).to_vec()
    }
}

impl State {
    /// One step of the automaton. In each cell the gliders first collide; then each glider
    /// about to leave the grid turns around, which is recorded as a bounce, and every glider
    /// moves one cell along its heading. Gliders that land on the same cell with the same
    /// heading merge.
    pub fn next(&self) -> (r: (State, Bounces))
        requires
            self.wf(),
            1 <= self.spec_width() <= 64,
            1 <= self.spec_height() <= 64,
            self.steps_in_grid(),
        ensures
            r.0.wf(),
            r.0.spec_width() == self.spec_width(),
            r.0.spec_height() == self.spec_height(),
            forall|x: int, y: int, h: Heading|
                self.in_grid(x, y) ==> (#[trigger] r.0.cell(x, y).contains(h) <==> self.arrives(
                    x,
                    y,
                    h,
                )),
            glider_set(r.0) == step_gliders(
                self.spec_width() as int,
                self.spec_height() as int,
                glider_set(*self),
            ),
            r.1.wf(),
            r.1.spec_matrix_width() == self.spec_width(),
            r.1.spec_matrix_height() == self.spec_height(),
            forall|wall: Wall, c: int| #[trigger] r.1.contains(wall, c) <==> self.bounced(wall, c),
    {
        let width = self.width();
        let height = self.height();
        let ghost w = width as int;
        let ghost ht = height as int;
        assert(width * height <= 64 * 64) by (nonlinear_arith)
            requires
                width <= 64,
                height <= 64,
        ;
        let mut next = Matrix::new(width, height, no_gliders_at);
        let mut bounces = Bounces::new(width, height);
        let mut y: usize = 0;
        while y < height
            invariant
                self.wf(),
                w == width,
                ht == height,
                width == self.spec_width(),
                height == self.spec_height(),
                1 <= width <= 64,
                1 <= height <= 64,
                self.steps_in_grid(),
                y <= height,
                next.wf(),
                next.spec_width() == width,
                next.spec_height() == height,
                bounces.wf(),
                bounces.spec_matrix_width() == width,
                bounces.spec_matrix_height() == height,
                forall|tx: int, ty: int, th: Heading|
                    0 <= tx < width && 0 <= ty < height ==> #[trigger] next.at(tx, ty).contains(th)
                        == ({
                        let (sx, sy) = Self::source_of(tx, ty, th);
                        sy < y && self.arrives_from_source(tx, ty, th)
                    }),
                forall|wall: Wall, c: int|
                    #[trigger] bounces.contains(wall, c) == match wall {
                        Wall::XLimit => 0 <= c < ht && ((c < y && self.collided_at(w - 1, c).pos_x)
                            || (c < y && self.collided_at(0, c).neg_x)),
                        Wall::YLimit => 0 <= c < w && ((ht - 1 < y && self.collided_at(
                            c,
                            ht - 1,
                        ).pos_y) || (0 < y && self.collided_at(c, 0).neg_y)),
                    },
            decreases height - y,
        {
            let mut x: usize = 0;
            while x < width
                invariant
                    self.wf(),
                    w == width,
                    ht == height,
                    width == self.spec_width(),
                    height == self.spec_height(),
                    1 <= width <= 64,
                    1 <= height <= 64,
                    self.steps_in_grid(),
                    y < height,
                    x <= width,
                    next.wf(),
                    next.spec_width() == width,
                    next.spec_height() == height,
                    bounces.wf(),
                    bounces.spec_matrix_width() == width,
                    bounces.spec_matrix_height() == height,
                    forall|tx: int, ty: int, th: Heading|
                        0 <= tx < width && 0 <= ty < height ==> #[trigger] next.at(
                            tx,
                            ty,
                        ).contains(th) == ({
                            let (sx, sy) = Self::source_of(tx, ty, th);
                            before_in_rows(sx, sy, x as int, y as int) && self.arrives_from_source(
                                tx,
                                ty,
                                th,
                            )
                        }),
                    forall|wall: Wall, c: int|
                        #[trigger] bounces.contains(wall, c) == match wall {
                            Wall::XLimit => 0 <= c < ht && ((before_in_rows(w - 1, c, x as int, y as int)
                                && self.collided_at(w - 1, c).pos_x) || (before_in_rows(
                                0,
                                c,
                                x as int,
                                y as int,
                            ) && self.collided_at(0, c).neg_x)),
                            Wall::YLimit => 0 <= c < w && ((before_in_rows(c, ht - 1, x as int, y as int)
                                && self.collided_at(c, ht - 1).pos_y) || (before_in_rows(
                                c,
                                0,
                                x as int,
                                y as int,
                            ) && self.collided_at(c, 0).neg_y)),
                        },
                decreases width - x,
            {
                proof {
                    lemma_flat_index_bounds(w, ht, x as int, y as int);
                }
                let c = collide(*self.matrix.get(x, y));
                assert(c == self.collided_at(x as int, y as int));
                if c.pos_x {
                    emit(&mut next, &mut bounces, width, height, x, y, Heading::PosX);
                }
                if c.pos_y {
                    emit(&mut next, &mut bounces, width, height, x, y, Heading::PosY);
                }
                if c.neg_x {
                    emit(&mut next, &mut bounces, width, height, x, y, Heading::NegX);
                }
                if c.neg_y {
                    emit(&mut next, &mut bounces, width, height, x, y, Heading::NegY);
                }
                x = x + 1;
            }
            y = y + 1;
        }
        let r = State { matrix: next };
        proof {
            assert forall|tx: int, ty: int, th: Heading| self.in_grid(tx, ty) implies (#[trigger] r.cell(
                tx,
                ty,
            ).contains(th) <==> self.arrives(tx, ty, th)) by {
                self.lemma_arrives(tx, ty, th);
            }
            assert forall|wall: Wall, c: int| #[trigger] bounces.contains(wall, c) <==> self.bounced(
                wall,
                c,
            ) by {
                self.lemma_bounced(wall, c);
            }
            lemma_step_gliders(*self, r);
        }
        (r, bounces)
    }
}

/// The gliders of the listed cells: cell by cell, and in each cell in the order
/// `PosX`, `PosY`, `NegX`, `NegY`.
pub open spec fn gliders_in(cells: Seq<((usize, usize), HeadingSet)>) -> Seq<((usize, usize), Heading)>
    decreases cells.len(),
{
    if cells.len() == 0 {
        Seq::empty()
    } else {
        gliders_in(cells.drop_last()) + cells.last().1.headings().map_values(
            |h: Heading| (cells.last().0, h),
        )
    }
}

impl State {
    /// Every cell with its coordinates, row by row.
    pub open spec fn cell_listing(&self) -> Seq<((usize, usize), HeadingSet)> {
        let w = self.spec_width() as int;
        Seq::new(
            (w * self.spec_height()) as nat,
            |i: int| (((i % w) as usize, (i / w) as usize), self.cell(i % w, i / w)),
        )
    }

    /// Every glider with its cell: row by row, and in each cell in the order
    /// `PosX`, `PosY`, `NegX`, `NegY`.
    pub open spec fn glider_list(&self) -> Seq<((usize, usize), Heading)> {
        gliders_in(self.cell_listing())
    }

    /// Every glider with its cell: row by row, and in each cell in the order
    /// `PosX`, `PosY`, `NegX`, `NegY`.
    pub fn gliders(&self) -> (r: Vec<((usize, usize), Heading)>)
        requires
            self.wf(),
        ensures
            r@ == self.glider_list(),
    {
        let cells = self.matrix.enumerate();
        let ghost listing = self.cell_listing();
        let ghost w = self.spec_width() as int;
        let mut r: Vec<((usize, usize), Heading)> = Vec::new();
        let mut i: usize = 0;
        while i < cells.len()
            invariant
                self.wf(),
                w == self.spec_width(),
                i <= cells@.len(),
                cells@.len() == self.matrix.cells().len(),
                listing == self.cell_listing(),
                forall|j: int|
                    0 <= j < cells@.len() ==> #[trigger] cells@[j] == (
                        ((j % w) as usize, (j / w) as usize),
                        &self.matrix.cells()[j],
                    ),
                r@ == gliders_in(listing.take(i as int)),
            decreases cells@.len() - i,
        {
            let (coords, cell) = cells[i];
            proof {
                if w > 0 {
                    crate::util::lemma_flat_index_decompose(w, i as int);
                }
                assert(listing.len() == self.matrix.cells().len());
                assert(listing[i as int] == (coords, *cell));
                assert(listing.take(i + 1).drop_last() =~= listing.take(i as int));
            }
            let hs = cell.to_vec();
            let ghost prefix = r@;
            let mut j: usize = 0;
            while j < hs.len()
                invariant
                    j <= hs@.len(),
                    r@ == prefix + hs@.take(j as int).map_values(|h: Heading| (coords, h)),
                decreases hs@.len() - j,
            {
                r.push((coords, hs[j]));
                j = j + 1;
                assert(r@ =~= prefix + hs@.take(j as int).map_values(|h: Heading| (coords, h)));
            }
            assert(hs@.take(j as int) =~= hs@);
            i = i + 1;
        }
        assert(listing.take(i as int) =~= listing);
        r
    }
}

impl Clone for State {
    fn clone(&self) -> (r: Self)
        ensures
            r.spec_width() == self.spec_width(),
            r.spec_height() == self.spec_height(),
            r.wf() == self.wf(),
            forall|x: int, y: int| #[trigger] r.cell(x, y) == self.cell(x, y),
    {
        State { matrix: self.matrix.clone() }
    }
}

/// Every index listed by `ones_below(bits, n)` is below `n` and marks a set bit.
pub proof fn lemma_ones_below_set(bits: Seq<bool>, n: nat, k: int)
    requires
        n <= bits.len() <= usize::MAX,
        0 <= k < ones_below(bits, n).len(),
    ensures
        ones_below(bits, n)[k] < n,
        bits[ones_below(bits, n)[k] as int],
    decreases n,
{
    if n > 0 {
        let prev = ones_below(bits, (n - 1) as nat);
        if k < prev.len() {
            lemma_ones_below_set(bits, (n - 1) as nat, k);
        }
    }
}

/// Every heading at every cell of a `width` by `height` grid.
pub open spec fn grid_slots(width: int, height: int) -> Set<(int, int, Heading)> {
    Set::new(|g: (int, int, Heading)| 0 <= g.0 < width && 0 <= g.1 < height)
}

/// The four headings at cell `(x, y)`.
pub open spec fn cell_slots(x: int, y: int) -> Set<(int, int, Heading)> {
    set![(x, y, Heading::PosX), (x, y, Heading::PosY), (x, y, Heading::NegX), (x, y, Heading::NegY)]
}

proof fn lemma_row_slots_finite(width: int, y: int)
    requires
        width >= 0,
    ensures
        Set::new(|g: (int, int, Heading)| 0 <= g.0 < width && g.1 == y).finite(),
    decreases width,
{
    let row = Set::new(|g: (int, int, Heading)| 0 <= g.0 < width && g.1 == y);
    if width == 0 {
        assert(row =~= Set::empty());
    } else {
        lemma_row_slots_finite(width - 1, y);
        let shorter = Set::new(|g: (int, int, Heading)| 0 <= g.0 < width - 1 && g.1 == y);
        assert(row =~= shorter.union(cell_slots(width - 1, y))) by {
            assert forall|g: (int, int, Heading)| row.contains(g) implies shorter.union(
                cell_slots(width - 1, y),
            ).contains(g) by {
                if g.0 == width - 1 {
                    match g.2 {
                        Heading::PosX => assert(cell_slots(width - 1, y).contains(g)),
                        Heading::PosY => assert(cell_slots(width - 1, y).contains(g)),
                        Heading::NegX => assert(cell_slots(width - 1, y).contains(g)),
                        Heading::NegY => assert(cell_slots(width - 1, y).contains(g)),
                    }
                }
            }
        }
    }
}

/// The slots of a grid are finitely many.
pub proof fn lemma_grid_slots_finite(width: int, height: int)
    requires
        width >= 0,
        height >= 0,
    ensures
        grid_slots(width, height).finite(),
    decreases height,
{
    if height == 0 {
        assert(grid_slots(width, height) =~= Set::empty());
    } else {
        lemma_grid_slots_finite(width, height - 1);
        lemma_row_slots_finite(width, height - 1);
        let row = Set::new(|g: (int, int, Heading)| 0 <= g.0 < width && g.1 == height - 1);
        assert(grid_slots(width, height) =~= grid_slots(width, height - 1).union(row));
    }
}

/// The gliders of `s`, each as its cell and heading.
pub open spec fn glider_set(s: State) -> Set<(int, int, Heading)> {
    Set::new(|g: (int, int, Heading)| s.has_glider(g.0, g.1, g.2))
}

/// The gliders of `s` once the collisions in every cell are resolved.
pub open spec fn collided_set(s: State) -> Set<(int, int, Heading)> {
    Set::new(|g: (int, int, Heading)| s.in_grid(g.0, g.1) && s.collided_at(g.0, g.1).contains(g.2))
}

/// The heading that a glider coming into a collision of `c` with heading `h` leaves with.
pub open spec fn outgoing(c: HeadingSet, h: Heading) -> Heading {
    if c.count() <= 1 {
        h
    } else if c.count() == 2 {
        spec_rotated_ccw(spec_rotated_ccw(spec_rotated_ccw(h)))
    } else {
        spec_flipped(h)
    }
}

/// The glider that a glider of the next step came from, after the collision in its cell.
pub open spec fn came_from(s: State, g: (int, int, Heading)) -> (int, int, Heading) {
    let (sx, sy) = State::source_of(g.0, g.1, g.2);
    if s.collided_at(sx, sy).contains(g.2) && deflected(
        s.spec_width() as int,
        s.spec_height() as int,
        sx,
        sy,
        g.2,
    ) == g.2 {
        (sx, sy, g.2)
    } else {
        (sx, sy, spec_flipped(g.2))
    }
}

/// Gliders are never created: a step of the automaton leaves at most as many gliders as
/// there were (fewer when gliders that land on the same cell with the same heading merge).
pub proof fn lemma_gliders_never_multiply(s: State, n: State)
    requires
        s.wf(),
        1 <= s.spec_width() <= 64,
        1 <= s.spec_height() <= 64,
        n.spec_width() == s.spec_width(),
        n.spec_height() == s.spec_height(),
        forall|x: int, y: int, h: Heading|
            s.in_grid(x, y) ==> (#[trigger] n.cell(x, y).contains(h) <==> s.arrives(x, y, h)),
    ensures
        glider_set(s).finite(),
        glider_set(n).finite(),
        glider_set(n).len() <= glider_set(s).len(),
{
    let w = s.spec_width() as int;
    let ht = s.spec_height() as int;
    let slots = grid_slots(w, ht);
    lemma_grid_slots_finite(w, ht);
    let before = glider_set(s);
    let after = glider_set(n);
    let coll = collided_set(s);
    vstd::set_lib::lemma_len_subset(before, slots);
    vstd::set_lib::lemma_len_subset(after, slots);
    vstd::set_lib::lemma_len_subset(coll, slots);
    // The collisions turn the gliders of each cell, one for one.
    let turn = |g: (int, int, Heading)| (g.0, g.1, outgoing(s.cell(g.0, g.1), g.2));
    assert(vstd::relations::injective_on(turn, before)) by {
        assert forall|a: (int, int, Heading), b: (int, int, Heading)|
            before.contains(a) && before.contains(b) && #[trigger] turn(a) == #[trigger] turn(b) implies a == b by {
            lemma_rotation_cycle(a.2);
            lemma_rotation_cycle(b.2);
            lemma_flip_is_half_turn(a.2);
            lemma_flip_is_half_turn(b.2);
        }
    }
    assert(before.map(turn) =~= coll) by {
        assert forall|g: (int, int, Heading)| coll.contains(g) implies before.map(turn).contains(g) by {
            let c = s.cell(g.0, g.1);
            let inc = if c.count() <= 1 {
                g.2
            } else if c.count() == 2 {
                spec_rotated_ccw(g.2)
            } else {
                spec_flipped(g.2)
            };
            lemma_rotation_cycle(g.2);
            lemma_flip_is_half_turn(g.2);
            assert(before.contains((g.0, g.1, inc)));
            assert(turn((g.0, g.1, inc)) == g);
        }
        assert forall|g: (int, int, Heading)| before.map(turn).contains(g) implies coll.contains(g) by {
            let a = choose|a: (int, int, Heading)| before.contains(a) && turn(a) == g;
            lemma_rotation_cycle(a.2);
            lemma_flip_is_half_turn(a.2);
        }
    }
    vstd::set_lib::lemma_map_size(before, coll, turn);
    // Each glider of the next step came from its own glider after the collisions.
    let back = |g: (int, int, Heading)| came_from(s, g);
    assert forall|g: (int, int, Heading)| after.contains(g) implies coll.contains(#[trigger] back(g)) && s.reaches(
        back(g).0,
        back(g).1,
        back(g).2,
        g.0,
        g.1,
        g.2,
    ) by {
        s.lemma_arrives(g.0, g.1, g.2);
    }
    assert(vstd::relations::injective_on(back, after)) by {
        assert forall|a: (int, int, Heading), b: (int, int, Heading)|
            after.contains(a) && after.contains(b) && #[trigger] back(a) == #[trigger] back(b) implies a == b by {
            assert(s.reaches(back(a).0, back(a).1, back(a).2, a.0, a.1, a.2));
            assert(s.reaches(back(b).0, back(b).1, back(b).2, b.0, b.1, b.2));
        }
    }
    vstd::set_lib::lemma_map_size(after, after.map(back), back);
    assert(after.map(back).subset_of(coll)) by {
        assert forall|g: (int, int, Heading)| after.map(back).contains(g) implies coll.contains(g) by {
            let a = choose|a: (int, int, Heading)| after.contains(a) && back(a) == g;
            assert(coll.contains(back(a)));
        }
    }
    vstd::set_lib::lemma_len_subset(after.map(back), coll);
}

/// The cell `(x, y)` of the glider set `g`.
pub open spec fn cell_of(g: Set<(int, int, Heading)>, x: int, y: int) -> HeadingSet {
    HeadingSet {
        pos_x: g.contains((x, y, Heading::PosX)),
        pos_y: g.contains((x, y, Heading::PosY)),
        neg_x: g.contains((x, y, Heading::NegX)),
        neg_y: g.contains((x, y, Heading::NegY)),
    }
}

/// In the `width` by `height` grid holding the gliders `g`, the glider that leaves cell
/// `(sx, sy)` with heading `sh` after the collision lands as the glider `t`.
pub open spec fn lands(
    width: int,
    height: int,
    g: Set<(int, int, Heading)>,
    sx: int,
    sy: int,
    sh: Heading,
    t: (int, int, Heading),
) -> bool {
    &&& 0 <= sx < width
    &&& 0 <= sy < height
    &&& collided(cell_of(g, sx, sy)).contains(sh)
    &&& deflected(width, height, sx, sy, sh) == t.2
    &&& advanced(sx, sy, t.2) == (t.0, t.1)
}

/// The gliders of a `width` by `height` grid holding `g`, one step later.
pub open spec fn step_gliders(width: int, height: int, g: Set<(int, int, Heading)>) -> Set<(int, int, Heading)> {
    Set::new(
        |t: (int, int, Heading)|
            0 <= t.0 < width && 0 <= t.1 < height && exists|sx: int, sy: int, sh: Heading| #[trigger]
                lands(width, height, g, sx, sy, sh, t),
    )
}

/// The gliders of a state whose cells are those of one step of `s` are `step_gliders` of the
/// gliders of `s`.
pub proof fn lemma_step_gliders(s: State, n: State)
    requires
        n.spec_width() == s.spec_width(),
        n.spec_height() == s.spec_height(),
        forall|x: int, y: int, h: Heading|
            s.in_grid(x, y) ==> (#[trigger] n.cell(x, y).contains(h) <==> s.arrives(x, y, h)),
    ensures
        glider_set(n) == step_gliders(s.spec_width() as int, s.spec_height() as int, glider_set(s)),
{
    let w = s.spec_width() as int;
    let ht = s.spec_height() as int;
    let g = glider_set(s);
    assert forall|x: int, y: int| s.in_grid(x, y) implies #[trigger] cell_of(g, x, y) == s.cell(x, y) by {
    }
    assert forall|t: (int, int, Heading)| glider_set(n).contains(t) implies step_gliders(w, ht, g).contains(t) by {
        let (sx, sy, sh) = choose|sx: int, sy: int, sh: Heading| #[trigger] s.reaches(sx, sy, sh, t.0, t.1, t.2);
        assert(cell_of(g, sx, sy) == s.cell(sx, sy));
        assert(lands(w, ht, g, sx, sy, sh, t));
    }
    assert forall|t: (int, int, Heading)| step_gliders(w, ht, g).contains(t) implies glider_set(n).contains(t) by {
        let (sx, sy, sh) = choose|sx: int, sy: int, sh: Heading| #[trigger] lands(w, ht, g, sx, sy, sh, t);
        assert(cell_of(g, sx, sy) == s.cell(sx, sy));
        assert(s.reaches(sx, sy, sh, t.0, t.1, t.2));
        assert(n.cell(t.0, t.1).contains(t.2));
    }
    assert(glider_set(n) =~= step_gliders(w, ht, g));
}

} // verus!
