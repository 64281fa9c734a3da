use super::util::{Rect, Xy};
use crate::util::{flat_index, lemma_flat_index_bounds, Matrix};
use vstd::prelude::*;

verus! {

/// A part of the screen that reacts to a mouse click.
#[derive(Clone, Copy, Debug, PartialEq, Eq, Structural, Hash)]
pub enum Zone {
    ClockSrcBuiltin,
    ClockSrcMidi,
}

/// For every cell of the screen, the zone it belongs to, if any.
pub struct ZoneMap(Matrix<Option<Zone>>);

/// The content of every cell of a fresh map.
fn no_zone(x: usize, y: usize) -> (r: Option<Zone>)
    ensures
        r is None,
{
    None
}

impl ZoneMap {
    /// The number of columns.
    pub closed spec fn spec_width(&self) -> nat {
        self.0.spec_width()
    }

    /// The number of rows.
    pub closed spec fn spec_height(&self) -> nat {
        self.0.spec_height()
    }

    /// The zone that cell `(x, y)` belongs to.
    pub closed spec fn zone_at(&self, x: int, y: int) -> Option<Zone> {
        self.0.at(x, y)
    }

    /// The map holds whole rows.
    pub closed spec fn wf(&self) -> bool {
        &&& self.0.wf()
        &&& self.0.spec_width() <= u16::MAX
        &&& self.0.spec_height() <= u16::MAX
    }

    /// A map never has more columns or rows than a terminal can.
    pub proof fn lemma_wf(&self)
        requires
            self.wf(),
        ensures
            self.spec_width() <= u16::MAX,
            self.spec_height() <= u16::MAX,
    {
    }

    /// Whether `(x, y)` is a cell of the map.
    pub open spec fn in_map(&self, x: int, y: int) -> bool {
        0 <= x < self.spec_width() && 0 <= y < self.spec_height()
    }

    /// Every cell of the map with the zone it belongs to.
    pub open spec fn zones(&self) -> Map<(int, int), Option<Zone>> {
        Map::new(|p: (int, int)| self.in_map(p.0, p.1), |p: (int, int)| self.zone_at(p.0, p.1))
    }

    /// A map of a screen of size `screen_size` where no cell belongs to a zone.
    pub fn new(screen_size: Xy) -> (r: ZoneMap)
        ensures
            r.wf(),
            r.zones() == fresh_zones(r.spec_width(), r.spec_height()),
            r.spec_width() == screen_size.x,
            r.spec_height() == if screen_size.x == 0 {
                0
            } else {
                screen_size.y as nat
            },
            forall|x: int, y: int| r.in_map(x, y) ==> (#[trigger] r.zone_at(x, y)) is None,
    {
        let w: usize = screen_size.x as usize;
        let h: usize = screen_size.y as usize;
        assert(w * h <= 65535 * 65535) by (nonlinear_arith)
            requires
                w <= 65535,
                h <= 65535,
        ;
        let r = ZoneMap(Matrix::new(w, h, no_zone));
        assert(r.zones() =~= fresh_zones(r.spec_width(), r.spec_height()));
        r
    }

    /// Takes every cell out of its zone.
    pub fn clear(&mut self)
        requires
            old(self).wf(),
        ensures
            final(self).wf(),
            final(self).spec_width() == old(self).spec_width(),
            final(self).spec_height() == old(self).spec_height(),
            forall|x: int, y: int|
                final(self).in_map(x, y) ==> (#[trigger] final(self).zone_at(x, y)) is None,
            final(self).zones() == zones_cleared(old(self).zones()),
    {
        self.0.fill(no_zone);
        assert forall|x: int, y: int| self.in_map(x, y) implies (#[trigger] self.zone_at(x, y)) is None by {
            assert(call_ensures(no_zone, (x as usize, y as usize), self.0.at((x as usize) as int, (y as usize) as int)));
        }
        assert(self.zones() =~= zones_cleared(old(self).zones()));
    }

    /// Puts every cell of `rect` into `zone`.
    pub fn set(&mut self, rect: Rect, zone: Zone)
        requires
            old(self).wf(),
            rect.spec_right() <= old(self).spec_width(),
            rect.spec_bottom() <= old(self).spec_height(),
        ensures
            final(self).wf(),
            final(self).spec_width() == old(self).spec_width(),
            final(self).spec_height() == old(self).spec_height(),
            forall|x: int, y: int|
                final(self).in_map(x, y) ==> #[trigger] final(self).zone_at(x, y) == if rect.covers(
                    x,
                    y,
                ) {
                    Some(zone)
                } else {
                    old(self).zone_at(x, y)
                },
            final(self).zones() == zones_set(old(self).zones(), rect, zone),
    {
        let ghost w = self.spec_width() as int;
        let ghost h = self.spec_height() as int;
        let ghost start = *self;
        let top = rect.top();
        let bottom = rect.bottom();
        let left = rect.left();
        let right = rect.right();
        let mut y = top;
        while y < bottom
            invariant
                self.wf(),
                self.spec_width() == w,
                self.spec_height() == h,
                start.wf(),
                start.spec_width() == w,
                start.spec_height() == h,
                rect.spec_right() <= w,
                rect.spec_bottom() <= h,
                top == rect.top_left.y,
                bottom == rect.spec_bottom(),
                left == rect.top_left.x,
                right == rect.spec_right(),
                top <= y <= bottom,
                forall|xx: int, yy: int|
                    self.in_map(xx, yy) ==> #[trigger] self.zone_at(xx, yy) == if rect.covers(xx, yy)
                        && yy < y {
                        Some(zone)
                    } else {
                        start.zone_at(xx, yy)
                    },
            decreases bottom - y,
        {
            let mut x = left;
            while x < right
                invariant
                    self.wf(),
                    self.spec_width() == w,
                    self.spec_height() == h,
                    start.wf(),
                    start.spec_width() == w,
                    start.spec_height() == h,
                    rect.spec_right() <= w,
                    rect.spec_bottom() <= h,
                    top == rect.top_left.y,
                    bottom == rect.spec_bottom(),
                    left == rect.top_left.x,
                    right == rect.spec_right(),
                    top <= y < bottom,
                    left <= x <= right,
                    forall|xx: int, yy: int|
                        self.in_map(xx, yy) ==> #[trigger] self.zone_at(xx, yy) == if rect.covers(
                            xx,
                            yy,
                        ) && (yy < y || (yy == y && xx < x)) {
                            Some(zone)
                        } else {
                            start.zone_at(xx, yy)
                        },
                decreases right - x,
            {
                let ghost prev = *self;
                proof {
                    lemma_flat_index_bounds(w, h, x as int, y as int);
                }
                self.0.set(x as usize, y as usize, Some(zone));
                assert forall|xx: int, yy: int| self.in_map(xx, yy) implies #[trigger] self.zone_at(
                    xx,
                    yy,
                ) == if rect.covers(xx, yy) && (yy < y || (yy == y && xx <= x)) {
                    Some(zone)
                } else {
                    start.zone_at(xx, yy)
                } by {
                    lemma_flat_index_bounds(w, h, xx, yy);
                    if flat_index(w, xx, yy) == flat_index(w, x as int, y as int) {
                        crate::util::lemma_flat_index_unique(w, xx, yy, x as int, y as int);
                    }
                    assert(prev.zone_at(xx, yy) == prev.0.at(xx, yy));
                }
                x = x + 1;
            }
            y = y + 1;
        }
        assert(self.zones() =~= zones_set(start.zones(), rect, zone));
    }

    /// Whether the cell at `coords` is on the map.
    pub fn contains(&self, coords: Xy) -> (r: bool)
        requires
            self.wf(),
        ensures
            r == self.in_map(coords.x as int, coords.y as int),
    {
        let w = self.0.width();
        if w == 0 {
            false
        } else {
            (coords.x as usize) < w && (coords.y as usize) < self.0.height()
        }
    }

    /// The zone that the cell at `coords` belongs to.
    pub fn get(&self, coords: Xy) -> (r: Option<Zone>)
        requires
            self.wf(),
            self.in_map(coords.x as int, coords.y as int),
        ensures
            r == self.zone_at(coords.x as int, coords.y as int),
            r == self.zones()[(coords.x as int, coords.y as int)],
    {
        proof {
            lemma_flat_index_bounds(
                self.spec_width() as int,
                self.spec_height() as int,
                coords.x as int,
                coords.y as int,
            );
        }
        *self.0.get(coords.x as usize, coords.y as usize)
    }
}

/// The cells of a `width` by `height` map, none of them in a zone.
pub open spec fn fresh_zones(width: nat, height: nat) -> Map<(int, int), Option<Zone>> {
    Map::new(|p: (int, int)| 0 <= p.0 < width && 0 <= p.1 < height, |p: (int, int)| None)
}

/// The cells of `zones` after every cell of `rect` is put into `zone`.
pub open spec fn zones_set(zones: Map<(int, int), Option<Zone>>, rect: Rect, zone: Zone) -> Map<
    (int, int),
    Option<Zone>,
> {
    Map::new(
        |p: (int, int)| zones.dom().contains(p),
        |p: (int, int)|
            if rect.covers(p.0, p.1) {
                Some(zone)
            } else {
                zones[p]
            },
    )
}

/// The cells of `zones` after every cell is taken out of its zone.
pub open spec fn zones_cleared(zones: Map<(int, int), Option<Zone>>) -> Map<(int, int), Option<Zone>> {
    Map::new(|p: (int, int)| zones.dom().contains(p), |p: (int, int)| None)
}

/// The cells of `zones` after the calls `ops`, in order: `Some((rect, zone))` stands for
/// `set(rect, zone)` and `None` for `clear()`.
pub open spec fn zones_after(zones: Map<(int, int), Option<Zone>>, ops: Seq<Option<(Rect, Zone)>>) -> Map<
    (int, int),
    Option<Zone>,
>
    decreases ops.len(),
{
    if ops.len() == 0 {
        zones
    } else {
        let before = zones_after(zones, ops.drop_last());
        match ops.last() {
            Some((rect, zone)) => zones_set(before, rect, zone),
            None => zones_cleared(before),
        }
    }
}

/// The zone that the calls `ops` leave cell `(x, y)` in: that of the last `set` after the last
/// `clear` whose rectangle covers the cell, or none.
pub open spec fn zone_from_ops(ops: Seq<Option<(Rect, Zone)>>, x: int, y: int) -> Option<Zone>
    decreases ops.len(),
{
    if ops.len() == 0 {
        None
    } else {
        match ops.last() {
            Some((rect, zone)) => if rect.covers(x, y) {
                Some(zone)
            } else {
                zone_from_ops(ops.drop_last(), x, y)
            },
            None => None,
        }
    }
}

/// On a fresh map, after any sequence of `set` and `clear` calls, a cell belongs to the zone of
/// the last `set` since the last `clear` whose rectangle covers it, and to no zone if there is
/// none; the calls keep the map's cells as they were.
pub proof fn law_zone_history(width: nat, height: nat, ops: Seq<Option<(Rect, Zone)>>, x: int, y: int)
    requires
        0 <= x < width,
        0 <= y < height,
    ensures
        zones_after(fresh_zones(width, height), ops).dom() == fresh_zones(width, height).dom(),
        zones_after(fresh_zones(width, height), ops)[(x, y)] == zone_from_ops(ops, x, y),
    decreases ops.len(),
{
    let fresh = fresh_zones(width, height);
    if ops.len() == 0 {
    } else {
        law_zone_history(width, height, ops.drop_last(), x, y);
        let before = zones_after(fresh, ops.drop_last());
        match ops.last() {
            Some((rect, zone)) => {
                assert(zones_set(before, rect, zone).dom() =~= before.dom());
            },
            None => {
                assert(zones_cleared(before).dom() =~= before.dom());
            },
        }
    }
}

/// The zone of cell `(x, y)` after putting the rectangles of `writes` into their zones, one
/// after the other, starting from `prior`: the last rectangle that covers the cell wins.
pub open spec fn zones_applied(writes: Seq<(Rect, Zone)>, x: int, y: int, prior: Option<Zone>) -> Option<Zone>
    decreases writes.len(),
{
    if writes.len() == 0 {
        prior
    } else if writes.last().0.covers(x, y) {
        Some(writes.last().1)
    } else {
        zones_applied(writes.drop_last(), x, y, prior)
    }
}

/// Putting two lists of rectangles into their zones is putting the first, then the second.
pub proof fn lemma_zones_applied_concat(
    first: Seq<(Rect, Zone)>,
    second: Seq<(Rect, Zone)>,
    x: int,
    y: int,
    prior: Option<Zone>,
)
    ensures
        zones_applied(first + second, x, y, prior) == zones_applied(
            second,
            x,
            y,
            zones_applied(first, x, y, prior),
        ),
    decreases second.len(),
{
    if second.len() == 0 {
        assert(first + second =~= first);
    } else {
        assert((first + second).drop_last() =~= first + second.drop_last());
        lemma_zones_applied_concat(first, second.drop_last(), x, y, prior);
    }
}

} // verus!
