use lits::colour::Colour;
use lits::error::LitsError;
use lits::notate::Notate;
use lits::player::Player;
use lits::point::Point;
use lits::tetromino::Tetromino;
use lits::transform::Transform;

fn pts(v: &[(i32, i32)]) -> Vec<Point> {
    v.iter().map(|&(x, y)| Point::new(x, y)).collect()
}

#[test]
fn point_neighbours_and_bounds() {
    let p = Point::new(0, 5);
    assert_eq!(p.x(), 0);
    assert_eq!(p.y(), 5);
    assert!(p.in_bounds());
    assert!(!Point::new(10, 0).in_bounds());
    assert!(!Point::new(0, -1).in_bounds());
    assert_eq!(p.neighbours(), pts(&[(-1, 5), (1, 5), (0, 4), (0, 6)]));
    assert_eq!(p.neighbours_on_board(), pts(&[(1, 5), (0, 4), (0, 6)]));
    assert_eq!(Point::new(0, 0).neighbours_on_board(), pts(&[(1, 0), (0, 1)]));
}

#[test]
fn potential_anchors() {
    let anchors = Point::new(5, 5).get_potential_anchors();
    assert_eq!(anchors.len(), 10);
    assert!(anchors.contains(&Point::new(2, 5)));
    assert!(anchors.contains(&Point::new(5, 2)));
    assert!(anchors.contains(&Point::new(4, 3)));
    assert!(!anchors.contains(&Point::new(3, 3)));
    let corner = Point::new(0, 0).get_potential_anchors();
    assert_eq!(corner, pts(&[(0, 0)]));
    let edge = Point::new(1, 0).get_potential_anchors();
    assert_eq!(edge.len(), 2);
}

#[test]
fn colour_indices_and_cycle() {
    assert_eq!(Colour::L.as_index(), 0);
    assert_eq!(Colour::S.as_index(), 3);
    assert_eq!(Colour::Empty.as_index_null(), 0);
    assert_eq!(Colour::T.as_index_null(), 3);
    assert_eq!(Colour::S.next_and_none(), Colour::Empty);
    assert_eq!(Colour::Empty.next_and_none(), Colour::L);
    assert_eq!(Colour::I.one_hot(), vec![false, true, false, false]);
    assert_eq!(Colour::Empty.one_hot(), vec![false, false, false, false]);
}

#[test]
fn player_basics() {
    assert_eq!(Player::X.next(), Player::O);
    assert_eq!(Player::O.next(), Player::X);
    assert_eq!(Player::O.one_hot(), vec![false, true]);
    assert_eq!(Player::X.value(), 1);
    assert_eq!(Player::O.value(), -1);
    assert_eq!(Player::Neither.value(), 0);
    assert_eq!(Player::Neither.next_and_none(), Player::X);
    assert_eq!(Player::O.as_index_null(), 2);
}

#[test]
fn transform_group() {
    let p = Point::new(1, 2);
    assert_eq!(Transform::IdenRot90.apply_to_point(&p), Point::new(2, -1));
    assert_eq!(Transform::ReflRot270.apply_to_point(&p), Point::new(-2, -1));
    assert_eq!(Transform::Identity.rotate(), Transform::IdenRot90);
    assert_eq!(Transform::IdenRot270.rotate(), Transform::Identity);
    assert_eq!(Transform::ReflRot90.reflect(), Transform::IdenRot90);
    assert_eq!(Transform::Reflect.compose(&Transform::IdenRot90), Transform::ReflRot90);
    assert_eq!(Transform::IdenRot90.compose(&Transform::IdenRot270), Transform::Identity);
    assert_eq!(Transform::as_array().len(), 8);
}

#[test]
fn canonical_transforms() {
    assert_eq!(Transform::ReflRot180.canonicalize(&Colour::I), Transform::Identity);
    assert_eq!(Transform::ReflRot270.canonicalize(&Colour::I), Transform::IdenRot90);
    assert_eq!(Transform::ReflRot90.canonicalize(&Colour::T), Transform::IdenRot90);
    assert_eq!(Transform::ReflRot180.canonicalize(&Colour::S), Transform::Reflect);
    assert_eq!(Transform::ReflRot180.canonicalize(&Colour::L), Transform::ReflRot180);
    assert_eq!(Transform::enumerate(&Colour::L).len(), 8);
    assert_eq!(Transform::enumerate(&Colour::I), vec![Transform::Identity, Transform::IdenRot90]);
    assert_eq!(Transform::enumerate(&Colour::T).len(), 4);
    assert_eq!(
        Transform::enumerate(&Colour::S),
        vec![Transform::Identity, Transform::IdenRot90, Transform::Reflect, Transform::ReflRot90]
    );
}

#[test]
fn normalize_points() {
    let mut v = pts(&[(3, 5), (2, 7), (4, 6)]);
    let anchor = Transform::normalize(&mut v);
    assert_eq!(anchor, Point::new(2, 5));
    assert_eq!(v, pts(&[(1, 0), (0, 2), (2, 1)]));
}

#[test]
fn tetromino_shapes() {
    let r = Tetromino::get_reference_tetromino(&Colour::T, &Point::new(3, 3));
    assert_eq!(r.points(), &pts(&[(0, 0), (1, 1), (1, 0), (2, 0)]));
    let t = Tetromino::new(&Colour::L, &Point::new(2, 2), &Transform::IdenRot90);
    assert_eq!(t.points(), &pts(&[(0, 1), (1, 1), (2, 1), (2, 0)]));
    assert_eq!(t.points_real(), pts(&[(2, 3), (3, 3), (4, 3), (4, 2)]));
    assert_eq!(t.anchor(), Point::new(2, 2));
    assert_eq!(t.colour(), Colour::L);
    assert_eq!(t.transform(), Transform::IdenRot90);
    let i = Tetromino::new(&Colour::I, &Point::new(0, 0), &Transform::IdenRot180);
    assert_eq!(i.transform(), Transform::Identity);
    assert_eq!(i.points(), &pts(&[(0, 0), (0, 1), (0, 2), (0, 3)]));
    assert_eq!(r.enumerate_transforms().len(), 4);
}

#[test]
fn tetromino_from_points() {
    let t = Tetromino::from_points(&pts(&[(5, 5), (6, 5), (7, 5), (7, 4)])).unwrap();
    assert_eq!(t.colour(), Colour::L);
    assert_eq!(t.anchor(), Point::new(5, 4));
    assert_eq!(t.transform(), Transform::IdenRot90);
    let s = Tetromino::from_points(&pts(&[(0, 0), (1, 0), (1, 1), (2, 1)])).unwrap();
    assert_eq!(s.colour(), Colour::S);
    assert_eq!(
        Tetromino::from_points(&pts(&[(0, 0), (1, 0), (0, 1), (1, 1)])).err(),
        Some(LitsError::InvalidShape)
    );
    assert_eq!(
        Tetromino::from_points_with_colour(&Colour::I, &pts(&[(0, 0), (1, 0), (2, 0), (2, 1)])).err(),
        Some(LitsError::InvalidShape)
    );
    let a = Tetromino::from_points_with_anchor(&Colour::I, &Point::new(4, 4), &pts(&[(0, 0), (1, 0), (2, 0), (3, 0)]))
        .unwrap();
    assert_eq!(a.points_real(), pts(&[(4, 4), (5, 4), (6, 4), (7, 4)]));
}

#[test]
fn tetromino_attaches() {
    let t = Tetromino::new(&Colour::I, &Point::new(0, 0), &Transform::Identity);
    let att = t.get_attaches();
    assert_eq!(att, pts(&[(0, 4), (1, 0), (1, 1), (1, 2), (1, 3)]));
}

#[test]
fn tetromino_equality_and_moves() {
    let mut t = Tetromino::new(&Colour::S, &Point::new(1, 1), &Transform::Reflect);
    let c = t.clone();
    assert!(t == c);
    t.move_anchor(&Point::new(2, 2));
    assert!(t != c);
    assert_eq!(t.anchor(), Point::new(2, 2));
    let raw = Tetromino::construct_raw(&Colour::S, &Point::new(2, 2), c.points(), &Transform::Reflect);
    assert!(raw == t);
    let null = Tetromino::null();
    assert!(null.is_null());
    assert!(!t.is_null());
}

#[test]
fn tetromino_notation() {
    let t = Tetromino::parse("L[00,01,02,12]").unwrap();
    assert_eq!(t.colour(), Colour::L);
    assert_eq!(t.transform(), Transform::Identity);
    assert_eq!(t.notate(), "L[00,01,02,12]");
    let s = Tetromino::parse("S[45,55,54,64]").unwrap();
    assert_eq!(s.colour(), Colour::S);
    assert_eq!(Tetromino::parse("L[00,01,02,03]").err(), Some(LitsError::InvalidShape));
    assert_eq!(Tetromino::parse("l[00,01,02,12]").err(), Some(LitsError::Parse));
    assert_eq!(Tetromino::parse("L[00,01,02,1]").err(), Some(LitsError::Parse));
    assert_eq!(Tetromino::parse("L(00,01,02,12)").err(), Some(LitsError::Parse));
}

#[test]
fn small_notations() {
    assert_eq!(Colour::parse("r"), Ok(Colour::L));
    assert_eq!(Colour::parse("b"), Ok(Colour::S));
    assert_eq!(Colour::parse("."), Ok(Colour::Empty));
    assert_eq!(Colour::parse("Q"), Err(LitsError::Parse));
    assert_eq!(Colour::T.notate(), "T");
    assert_eq!(Colour::Empty.notate(), "-");
    assert_eq!(Player::parse("o"), Ok(Player::O));
    assert_eq!(Player::parse(","), Ok(Player::Neither));
    assert_eq!(Player::parse("XO"), Err(LitsError::Parse));
    assert_eq!(Player::X.notate(), "X");
    assert_eq!(Player::Neither.notate(), "_");
    assert_eq!(Point::parse("37"), Ok(Point::new(3, 7)));
    assert_eq!(Point::parse("7"), Err(LitsError::Parse));
    assert_eq!(Point::parse("a7"), Err(LitsError::Parse));
    assert_eq!(Point::new(0, 9).notate(), "09");
}
