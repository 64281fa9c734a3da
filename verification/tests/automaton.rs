use otto::automaton::{
    collide, Bounces,
    Heading::{NegX, NegY, PosX, PosY},
    HeadingSet, State, Wall,
    Wall::{XLimit, YLimit},
};

// Pattern designed by a user of the r/otomata forum.
#[test]
fn test_pattern() {
    let st = State::new(
        9,
        9,
        &[
            ((5, 0), NegY),
            ((1, 1), PosX),
            ((2, 2), PosX),
            ((0, 3), PosY),
            ((4, 3), NegX),
            ((2, 5), NegX),
            ((3, 5), NegY),
            ((4, 5), PosY),
            ((2, 6), PosY),
            ((7, 6), PosX),
            ((5, 7), NegX),
            ((7, 7), PosY),
            ((5, 8), PosX),
        ],
    );
    let (st, b) = st.next();
    assert_eq!(&b.iter(), &[(YLimit, 5)]);
    let (st, b) = st.next();
    assert_eq!(&b.iter(), &[(XLimit, 6), (YLimit, 7)]);
    let (st, b) = st.next();
    assert_eq!(&b.iter(), &[(XLimit, 5), (YLimit, 2)]);
    let (st, b) = st.next();
    assert_eq!(&b.iter(), &[(XLimit, 8), (YLimit, 4)]);
    assert_eq!(
        &st.gliders(),
        &[
            ((3, 1), NegY),
            ((5, 1), PosX),
            ((6, 2), PosX),
            ((0, 3), NegX),
            ((0, 3), NegY),
            ((5, 4), PosY),
            ((2, 5), PosX),
            ((7, 5), NegY),
            ((2, 6), NegY),
            ((5, 6), NegX),
            ((3, 7), PosX),
            ((4, 7), NegY),
            ((7, 8), NegX),
        ]
    );
}

#[test]
fn rotation_and_flip() {
    for h in [PosX, PosY, NegX, NegY] {
        assert_eq!(h.rotated_ccw().rotated_ccw().rotated_ccw().rotated_ccw(), h);
        assert_eq!(h.rotated_ccw().rotated_ccw(), h.flipped());
        assert_eq!(h.flipped().flipped(), h);
        assert_ne!(h.rotated_ccw(), h);
    }
    assert_eq!(PosX.rotated_ccw(), NegY);
    assert_eq!(PosY.rotated_ccw(), PosX);
    assert_eq!(NegX.rotated_ccw(), PosY);
    assert_eq!(NegY.rotated_ccw(), NegX);
    assert_eq!(PosX.flipped(), NegX);
    assert_eq!(NegY.flipped(), PosY);
}

fn cell(pos_x: bool, pos_y: bool, neg_x: bool, neg_y: bool) -> HeadingSet {
    HeadingSet { pos_x, pos_y, neg_x, neg_y }
}

#[test]
fn collisions() {
    // A lone glider keeps its heading.
    assert_eq!(collide(cell(true, false, false, false)), cell(true, false, false, false));
    assert_eq!(collide(cell(false, false, false, false)), cell(false, false, false, false));
    // Two gliders: the one heading h afterwards came in heading h.rotated_ccw().
    assert_eq!(collide(cell(true, false, true, false)), cell(false, true, false, true));
    assert_eq!(collide(cell(false, true, false, true)), cell(true, false, true, false));
    assert_eq!(collide(cell(true, true, false, false)), cell(false, true, true, false));
    // Three or four gliders turn around.
    assert_eq!(collide(cell(true, true, true, false)), cell(true, false, true, true));
    assert_eq!(collide(cell(true, true, true, true)), cell(true, true, true, true));
    for c in [cell(true, true, false, false), cell(true, true, true, false), cell(false, true, false, false)] {
        assert_eq!(collide(c).len(), c.len());
    }
}

#[test]
fn cell_queries() {
    let c = HeadingSet::empty().with(NegY).with(PosX);
    assert!(c.has(NegY));
    assert!(c.has(PosX));
    assert!(!c.has(PosY));
    assert_eq!(c.len(), 2);
    assert_eq!(c.to_vec(), vec![PosX, NegY]);
}

#[test]
fn gliders_move_and_bounce() {
    // A glider in the middle just moves.
    let st = State::new(3, 3, &[((1, 1), PosY)]);
    let (n, b) = st.next();
    assert_eq!(n.gliders(), vec![((1, 2), PosY)]);
    assert!(b.iter().is_empty());
    // At the wall it turns around and the bounce is recorded.
    let (n2, b2) = n.next();
    assert_eq!(n2.gliders(), vec![((1, 1), NegY)]);
    assert_eq!(b2.iter(), vec![(YLimit, 1)]);
    // At the near walls too.
    let st = State::new(4, 2, &[((0, 0), NegX), ((3, 0), NegY)]);
    let (n, b) = st.next();
    assert_eq!(n.gliders(), vec![((1, 0), PosX), ((3, 1), PosY)]);
    assert_eq!(b.iter(), vec![(XLimit, 0), (YLimit, 3)]);
}

#[test]
fn gliders_merge() {
    // Two gliders meeting in a corner cell turn a quarter; both then head for the same cell
    // with the same heading and become one.
    let st = State::new(2, 2, &[((1, 0), PosY), ((1, 0), NegY)]);
    let (n, b) = st.next();
    assert_eq!(n.gliders(), vec![((0, 0), NegX)]);
    assert_eq!(b.iter(), vec![(XLimit, 0)]);
}

#[test]
fn state_queries() {
    let st = State::new(5, 4, &[((4, 3), NegX), ((4, 3), PosY), ((0, 0), PosX)]);
    assert_eq!(st.width(), 5);
    assert_eq!(st.height(), 4);
    assert_eq!(st.gliders_at(4, 3), vec![PosY, NegX]);
    assert_eq!(st.gliders_at(0, 0), vec![PosX]);
    assert!(st.gliders_at(2, 2).is_empty());
    let copy = st.clone();
    assert_eq!(copy.gliders(), st.gliders());
    let (n, _) = st.next();
    assert_eq!(n.width(), 5);
    assert_eq!(n.height(), 4);
}

#[test]
fn bounces_record_and_list() {
    let mut b = Bounces::new(9, 7);
    assert_eq!(b.wall_length(Wall::XLimit), 7);
    assert_eq!(b.wall_length(Wall::YLimit), 9);
    b.record(Wall::YLimit, 8);
    b.record(Wall::XLimit, 6);
    b.record(Wall::YLimit, 0);
    b.record(Wall::XLimit, 6);
    assert_eq!(b.iter(), vec![(XLimit, 6), (YLimit, 0), (YLimit, 8)]);
}

#[test]
fn gliders_never_multiply() {
    let mut st = otto::datamodel::default_automaton_state();
    let mut count = st.gliders().len();
    for _ in 0..40 {
        let (n, b) = st.next();
        let c = n.gliders().len();
        assert!(c <= count);
        for (wall, coord) in b.iter() {
            assert!(coord < b.wall_length(wall));
        }
        count = c;
        st = n;
    }
}

#[test]
fn narrow_grids_step() {
    // An empty one-cell grid stays empty.
    let (n, b) = State::new(1, 1, &[]).next();
    assert!(n.gliders().is_empty());
    assert!(b.iter().is_empty());
    // A one-column grid whose glider moves along y.
    let (n, b) = State::new(1, 5, &[((0, 0), PosY)]).next();
    assert_eq!(n.gliders(), vec![((0, 1), PosY)]);
    assert!(b.iter().is_empty());
    let mut st = State::new(1, 3, &[((0, 1), PosY)]);
    let mut seen = Vec::new();
    for _ in 0..4 {
        let (n, b) = st.next();
        seen.push((n.gliders(), b.iter()));
        st = n;
    }
    assert_eq!(
        seen,
        vec![
            (vec![((0, 2), PosY)], vec![]),
            (vec![((0, 1), NegY)], vec![(YLimit, 0)]),
            (vec![((0, 0), NegY)], vec![]),
            (vec![((0, 1), PosY)], vec![(YLimit, 0)]),
        ]
    );
    // A one-row grid whose glider moves along x.
    let (n, b) = State::new(5, 1, &[((4, 0), PosX)]).next();
    assert_eq!(n.gliders(), vec![((3, 0), NegX)]);
    assert_eq!(b.iter(), vec![(XLimit, 0)]);
}
