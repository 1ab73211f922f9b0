use biosim::types::{Compass, Coord, Dir};

#[test]
fn test_dir_rotation_left() {
    let dir = Dir(Compass::North);

    assert_eq!(dir.rotate(1).0, Compass::NorthEast);
    assert_eq!(dir.rotate(2).0, Compass::East);
    assert_eq!(dir.rotate(3).0, Compass::SouthEast);
    assert_eq!(dir.rotate(8).0, Compass::North);
    assert_eq!(dir.rotate(9).0, Compass::NorthEast);
}

#[test]
fn test_dir_rotation_right() {
    let dir = Dir(Compass::South);

    assert_eq!(dir.rotate(1).0, Compass::SouthWest);
    assert_eq!(dir.rotate(2).0, Compass::West);
    assert_eq!(dir.rotate(3).0, Compass::NorthWest);
    assert_eq!(dir.rotate(8).0, Compass::South);
    assert_eq!(dir.rotate(9).0, Compass::SouthWest);
}

#[test]
fn test_coord_into_dir() {
    let center: Dir = Coord(0, 0).into();
    let south: Dir = Coord(0, -1).into();
    let west: Dir = Coord(-1, 0).into();
    let north_east: Dir = Coord(1, 1).into();

    assert_eq!(center.0, Compass::Center);
    assert_eq!(south.0, Compass::South);
    assert_eq!(west.0, Compass::West);
    assert_eq!(north_east.0, Compass::NorthEast);
}

#[test]
fn test_dir_into_coord() {
    let north: Coord = Dir(Compass::North).into();
    let south: Coord = Dir(Compass::South).into();
    let north_west: Coord = Dir(Compass::NorthWest).into();

    assert_eq!(north, Coord(0, 1));
    assert_eq!(south, Coord(0, -1));
    assert_eq!(north_west, Coord(-1, 1));
}

#[test]
fn test_rotation_round_trip() {
    let all = [
        Compass::SouthWest,
        Compass::South,
        Compass::SouthEast,
        Compass::West,
        Compass::Center,
        Compass::East,
        Compass::NorthWest,
        Compass::North,
        Compass::NorthEast,
    ];
    for c in all {
        let d = Dir(c);
        for k in -8i8..=8i8 {
            assert_eq!(d.rotate(k).rotate(-k), d);
        }
        assert_eq!(d.rotate(8), d);
        assert_eq!(d.rotate(-8), d);
    }
}

#[test]
fn test_quarter_and_half_turns() {
    let d = Dir(Compass::North);
    assert_eq!(d.rotate90deg_cw().0, Compass::East);
    assert_eq!(d.rotate90deg_ccw().0, Compass::West);
    assert_eq!(d.rotate180deg().0, Compass::South);
    let center = Dir(Compass::Center);
    assert_eq!(center.rotate90deg_cw().0, Compass::Center);
}

#[test]
fn test_unit_coord_round_trip() {
    let eight = [
        Compass::East,
        Compass::NorthEast,
        Compass::North,
        Compass::NorthWest,
        Compass::West,
        Compass::SouthWest,
        Compass::South,
        Compass::SouthEast,
    ];
    for c in eight {
        let d = Dir(c);
        let offset: Coord = d.into();
        let back: Dir = offset.into();
        assert_eq!(back, d);
    }
}

#[test]
fn test_coord_octants() {
    // A shallow angle stays horizontal, a steep one vertical, and the
    // middle wedge is diagonal.
    let east: Dir = Coord(10, 4).into();
    assert_eq!(east.0, Compass::East);
    let north_east: Dir = Coord(10, 5).into();
    assert_eq!(north_east.0, Compass::NorthEast);
    let north: Dir = Coord(2, 5).into();
    assert_eq!(north.0, Compass::North);
    let south_west: Dir = Coord(-5, -5).into();
    assert_eq!(south_west.0, Compass::SouthWest);
}

#[test]
fn test_coord_arithmetic_and_normalize() {
    let a = Coord(3, -2);
    let b = Coord(-1, 5);
    assert_eq!(a.add(b), Coord(2, 3));
    assert_eq!(a.sub(b), Coord(4, -7));
    assert_eq!(a.mul(2), Coord(6, -4));
    assert_eq!(a.add_dir(Dir(Compass::North)), Coord(3, -1));
    assert!(Coord(1, -1).is_normalized());
    assert!(!Coord(2, 0).is_normalized());
    assert_eq!(Coord(9, 1).normalize(), Coord(1, 0));
    assert_eq!(Coord(0, 0).normalize(), Coord(0, 0));
}

#[test]
fn test_dir_random_never_center() {
    for _ in 0..50 {
        assert!(Dir::random().0 != Compass::Center);
    }
}
