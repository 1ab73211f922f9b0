use vstd::prelude::*;

verus! {

/// The eight compass directions plus `Center`.
#[derive(Debug, Copy, Clone, PartialEq, Eq, Structural)]
pub enum Compass {
    SouthWest,
    South,
    SouthEast,
    West,
    Center,
    East,
    NorthWest,
    North,
    NorthEast,
}

/// A heading: one of the eight compass directions, or `Center` for "no
/// direction".
#[derive(Debug, Copy, Clone, PartialEq, Eq, Structural)]
pub struct Dir(pub Compass);

/// An absolute location on the grid or a difference of two locations,
/// as a pair of signed 16-bit components.
#[derive(Debug, Copy, Clone, PartialEq, Eq, Structural)]
pub struct Coord(pub i16, pub i16);

/// A magnitude together with a heading.
#[derive(Debug, Copy, Clone, PartialEq, Eq, Structural)]
pub struct Polar {
    pub magnitude: u32,
    pub direction: Dir,
}

/// One 45-degree step clockwise (`Center` stays put).
pub open spec fn compass_cw(c: Compass) -> Compass {
    match c {
        Compass::East => Compass::SouthEast,
        Compass::NorthEast => Compass::East,
        Compass::North => Compass::NorthEast,
        Compass::NorthWest => Compass::North,
        Compass::West => Compass::NorthWest,
        Compass::SouthWest => Compass::West,
        Compass::South => Compass::SouthWest,
        Compass::SouthEast => Compass::South,
        Compass::Center => Compass::Center,
    }
}

/// One 45-degree step counter-clockwise (`Center` stays put).
pub open spec fn compass_ccw(c: Compass) -> Compass {
    match c {
        Compass::East => Compass::NorthEast,
        Compass::NorthEast => Compass::North,
        Compass::North => Compass::NorthWest,
        Compass::NorthWest => Compass::West,
        Compass::West => Compass::SouthWest,
        Compass::SouthWest => Compass::South,
        Compass::South => Compass::SouthEast,
        Compass::SouthEast => Compass::East,
        Compass::Center => Compass::Center,
    }
}

/// Rotation by `steps` 45-degree steps: positive steps rotate clockwise,
/// negative steps rotate counter-clockwise.
pub open spec fn spec_rotate(d: Dir, steps: int) -> Dir
    decreases (if steps >= 0 { steps } else { -steps }),
{
    if steps > 0 {
        spec_rotate(Dir(compass_cw(d.0)), steps - 1)
    } else if steps < 0 {
        spec_rotate(Dir(compass_ccw(d.0)), steps + 1)
    } else {
        d
    }
}

/// The unit offset that a heading stands for.
pub open spec fn spec_coord_of_dir(d: Dir) -> Coord {
    match d.0 {
        Compass::SouthWest => Coord(-1i16, -1i16),
        Compass::South => Coord(0i16, -1i16),
        Compass::SouthEast => Coord(1i16, -1i16),
        Compass::West => Coord(-1i16, 0i16),
        Compass::Center => Coord(0i16, 0i16),
        Compass::East => Coord(1i16, 0i16),
        Compass::NorthWest => Coord(-1i16, 1i16),
        Compass::North => Coord(0i16, 1i16),
        Compass::NorthEast => Coord(1i16, 1i16),
    }
}

/// The heading of an offset: `Center` for the zero offset, otherwise the
/// 45-degree octant that the offset's angle falls into, with each octant
/// the half-open wedge reaching 22.5 degrees to either side of its
/// compass direction.  The wedge tests compare squared lengths so that
/// the boundary slopes `tan(22.5)` and `tan(67.5)` never have to be
/// written out; no integer offset lies exactly on a boundary.
pub open spec fn spec_dir_of_coord(c: Coord) -> Dir {
    let x = c.0 as int;
    let y = c.1 as int;
    let ax = if x >= 0 { x } else { -x };
    let ay = if y >= 0 { y } else { -y };
    if x == 0 && y == 0 {
        Dir(Compass::Center)
    } else if (ay + ax) * (ay + ax) < 2 * (ax * ax) {
        if x > 0 { Dir(Compass::East) } else { Dir(Compass::West) }
    } else if ay > ax && (ay - ax) * (ay - ax) > 2 * (ax * ax) {
        if y > 0 { Dir(Compass::North) } else { Dir(Compass::South) }
    } else {
        if x > 0 {
            if y > 0 { Dir(Compass::NorthEast) } else { Dir(Compass::SouthEast) }
        } else {
            if y > 0 { Dir(Compass::NorthWest) } else { Dir(Compass::SouthWest) }
        }
    }
}

impl Dir {
    /// Returns this heading rotated by `steps` 45-degree steps; positive
    /// steps rotate clockwise, negative counter-clockwise.  A full turn
    /// is 8 steps.
    pub fn rotate(&self, steps: i8) -> (r: Dir)
        ensures
            r == spec_rotate(*self, steps as int),
    {
        let mut direction = *self;
        if steps >= 0 {
            let count: i32 = steps as i32;
            let mut i: i32 = 0;
            while i < count
                invariant
                    0 <= i <= count,
                    direction == spec_rotate(*self, i as int),
                decreases count - i,
            {
                proof {
                    lemma_rotate_cw_last(*self, i as int);
                }
                direction = Dir(rotate_cw_once(direction.0));
                i = i + 1;
            }
            direction
        } else {
            let count: i32 = -(steps as i32);
            let mut i: i32 = 0;
            while i < count
                invariant
                    0 <= i <= count,
                    direction == spec_rotate(*self, -(i as int)),
                decreases count - i,
            {
                proof {
                    lemma_rotate_ccw_last(*self, i as int);
                }
                direction = Dir(rotate_ccw_once(direction.0));
                i = i + 1;
            }
            direction
        }
    }

    /// A quarter turn clockwise.
    pub fn rotate90deg_cw(&self) -> (r: Dir)
        ensures
            r == spec_rotate(*self, 2),
    {
        self.rotate(2)
    }

    /// A quarter turn counter-clockwise.
    pub fn rotate90deg_ccw(&self) -> (r: Dir)
        ensures
            r == spec_rotate(*self, -2),
    {
        self.rotate(-2)
    }

    /// A half turn.
    pub fn rotate180deg(&self) -> (r: Dir)
        ensures
            r == spec_rotate(*self, 4),
    {
        self.rotate(4)
    }
}

/// One clockwise step, executably.
fn rotate_cw_once(c: Compass) -> (r: Compass)
    ensures
        r == compass_cw(c),
{
    match c {
        Compass::East => Compass::SouthEast,
        Compass::NorthEast => Compass::East,
        Compass::North => Compass::NorthEast,
        Compass::NorthWest => Compass::North,
        Compass::West => Compass::NorthWest,
        Compass::SouthWest => Compass::West,
        Compass::South => Compass::SouthWest,
        Compass::SouthEast => Compass::South,
        Compass::Center => Compass::Center,
    }
}

/// One counter-clockwise step, executably.
fn rotate_ccw_once(c: Compass) -> (r: Compass)
    ensures
        r == compass_ccw(c),
{
    match c {
        Compass::East => Compass::NorthEast,
        Compass::NorthEast => Compass::North,
        Compass::North => Compass::NorthWest,
        Compass::NorthWest => Compass::West,
        Compass::West => Compass::SouthWest,
        Compass::SouthWest => Compass::South,
        Compass::South => Compass::SouthEast,
        Compass::SouthEast => Compass::East,
        Compass::Center => Compass::Center,
    }
}

/// The two single-step rotations undo each other.
proof fn lemma_cw_ccw_cancel(c: Compass)
    ensures
        compass_cw(compass_ccw(c)) == c,
        compass_ccw(compass_cw(c)) == c,
{
}

/// Rotating one more step clockwise is one clockwise step after the
/// rotation already made.
proof fn lemma_rotate_cw_last(d: Dir, s: int)
    requires
        s >= 0,
    ensures
        spec_rotate(d, s + 1) == Dir(compass_cw(spec_rotate(d, s).0)),
    decreases s,
{
    reveal_with_fuel(spec_rotate, 2);
    if s > 0 {
        lemma_rotate_cw_last(Dir(compass_cw(d.0)), s - 1);
        assert(spec_rotate(d, s + 1) == spec_rotate(Dir(compass_cw(d.0)), s));
        assert(spec_rotate(d, s) == spec_rotate(Dir(compass_cw(d.0)), s - 1));
    } else {
        assert(spec_rotate(d, 1) == spec_rotate(Dir(compass_cw(d.0)), 0));
        assert(spec_rotate(d, 0) == d);
    }
}

/// Rotating one more step counter-clockwise is one counter-clockwise
/// step after the rotation already made.
proof fn lemma_rotate_ccw_last(d: Dir, s: int)
    requires
        s >= 0,
    ensures
        spec_rotate(d, -(s + 1)) == Dir(compass_ccw(spec_rotate(d, -s).0)),
    decreases s,
{
    reveal_with_fuel(spec_rotate, 2);
    if s > 0 {
        lemma_rotate_ccw_last(Dir(compass_ccw(d.0)), s - 1);
        assert(spec_rotate(d, -(s + 1)) == spec_rotate(Dir(compass_ccw(d.0)), -s));
        assert(spec_rotate(d, -s) == spec_rotate(Dir(compass_ccw(d.0)), -(s - 1)));
    } else {
        assert(spec_rotate(d, -1) == spec_rotate(Dir(compass_ccw(d.0)), 0));
        assert(spec_rotate(d, 0) == d);
    }
}

/// Rotating one step clockwise first, then by `s` more steps, is a
/// rotation by `s + 1` steps.
proof fn lemma_rotate_cw_first(d: Dir, s: int)
    ensures
        spec_rotate(d, s + 1) == spec_rotate(Dir(compass_cw(d.0)), s),
{
    if s + 1 <= 0 {
        lemma_cw_ccw_cancel(d.0);
        assert(Dir(d.0) == d);
    }
}

/// Rotating one step counter-clockwise first, then by `s` more steps, is
/// a rotation by `s - 1` steps.
proof fn lemma_rotate_ccw_first(d: Dir, s: int)
    ensures
        spec_rotate(d, s - 1) == spec_rotate(Dir(compass_ccw(d.0)), s),
{
    if s - 1 >= 0 {
        lemma_cw_ccw_cancel(d.0);
        assert(Dir(d.0) == d);
    }
}

/// Rotating by `a + b` steps is rotating by `a` steps and then by `b`.
pub proof fn lemma_rotate_add(d: Dir, a: int, b: int)
    ensures
        spec_rotate(d, a + b) == spec_rotate(spec_rotate(d, a), b),
    decreases (if a >= 0 { a } else { -a }),
{
    if a > 0 {
        lemma_rotate_add(Dir(compass_cw(d.0)), a - 1, b);
        lemma_rotate_cw_first(d, a + b - 1);
    } else if a < 0 {
        lemma_rotate_add(Dir(compass_ccw(d.0)), a + 1, b);
        lemma_rotate_ccw_first(d, a + b + 1);
    }
}

/// Rotating by `k` steps and then by `-k` steps returns every heading to
/// where it began.
pub proof fn lemma_rotate_round_trip(d: Dir, k: int)
    ensures
        spec_rotate(spec_rotate(d, k), -k) == d,
{
    lemma_rotate_add(d, k, -k);
}

/// A full turn of 8 steps, in either sense, returns every heading to
/// where it began.
pub proof fn lemma_rotate_full_turn(d: Dir)
    ensures
        spec_rotate(d, 8) == d,
        spec_rotate(d, -8) == d,
{
    lemma_rotate_cw_last(d, 0);
    lemma_rotate_cw_last(d, 1);
    lemma_rotate_cw_last(d, 2);
    lemma_rotate_cw_last(d, 3);
    lemma_rotate_cw_last(d, 4);
    lemma_rotate_cw_last(d, 5);
    lemma_rotate_cw_last(d, 6);
    lemma_rotate_cw_last(d, 7);
    assert(spec_rotate(d, 0) == d);
    assert(compass_cw(compass_cw(compass_cw(compass_cw(compass_cw(compass_cw(compass_cw(
        compass_cw(d.0))))))))
        == d.0);
    assert(Dir(d.0) == d);
    lemma_rotate_add(d, 8, -8);
}

/// For each of the eight compass headings, the heading of its unit
/// offset is the heading itself.
pub proof fn lemma_unit_offset_round_trip(d: Dir)
    requires
        d.0 != Compass::Center,
    ensures
        spec_dir_of_coord(spec_coord_of_dir(d)) == d,
{
    assert(Dir(d.0) == d);
    match d.0 {
        Compass::SouthWest => assert(spec_dir_of_coord(Coord(-1i16, -1i16)) == Dir(Compass::SouthWest)) by (nonlinear_arith),
        Compass::South => assert(spec_dir_of_coord(Coord(0i16, -1i16)) == Dir(Compass::South)) by (nonlinear_arith),
        Compass::SouthEast => assert(spec_dir_of_coord(Coord(1i16, -1i16)) == Dir(Compass::SouthEast)) by (nonlinear_arith),
        Compass::West => assert(spec_dir_of_coord(Coord(-1i16, 0i16)) == Dir(Compass::West)) by (nonlinear_arith),
        Compass::Center => assert(false),
        Compass::East => assert(spec_dir_of_coord(Coord(1i16, 0i16)) == Dir(Compass::East)) by (nonlinear_arith),
        Compass::NorthWest => assert(spec_dir_of_coord(Coord(-1i16, 1i16)) == Dir(Compass::NorthWest)) by (nonlinear_arith),
        Compass::North => assert(spec_dir_of_coord(Coord(0i16, 1i16)) == Dir(Compass::North)) by (nonlinear_arith),
        Compass::NorthEast => assert(spec_dir_of_coord(Coord(1i16, 1i16)) == Dir(Compass::NorthEast)) by (nonlinear_arith),
    }
}

impl Coord {
    /// Component-wise sum.
    pub fn add(self, rhs: Coord) -> (r: Coord)
        requires
            i16::MIN <= self.0 + rhs.0 <= i16::MAX,
            i16::MIN <= self.1 + rhs.1 <= i16::MAX,
        ensures
            r.0 == self.0 + rhs.0,
            r.1 == self.1 + rhs.1,
    {
        Coord(self.0 + rhs.0, self.1 + rhs.1)
    }

    /// Component-wise difference.
    pub fn sub(self, rhs: Coord) -> (r: Coord)
        requires
            i16::MIN <= self.0 - rhs.0 <= i16::MAX,
            i16::MIN <= self.1 - rhs.1 <= i16::MAX,
        ensures
            r.0 == self.0 - rhs.0,
            r.1 == self.1 - rhs.1,
    {
        Coord(self.0 - rhs.0, self.1 - rhs.1)
    }

    /// Scaling by a signed factor.
    pub fn mul(self, rhs: i16) -> (r: Coord)
        requires
            i16::MIN <= self.0 * rhs <= i16::MAX,
            i16::MIN <= self.1 * rhs <= i16::MAX,
        ensures
            r.0 == self.0 * rhs,
            r.1 == self.1 * rhs,
    {
        Coord(self.0 * rhs, self.1 * rhs)
    }

    /// One step from this location along a heading.
    pub fn add_dir(self, rhs: Dir) -> (r: Coord)
        requires
            i16::MIN <= self.0 + spec_coord_of_dir(rhs).0 <= i16::MAX,
            i16::MIN <= self.1 + spec_coord_of_dir(rhs).1 <= i16::MAX,
        ensures
            r.0 == self.0 + spec_coord_of_dir(rhs).0,
            r.1 == self.1 + spec_coord_of_dir(rhs).1,
    {
        self.add(Coord::from(rhs))
    }

    /// One step from this location against a heading.
    pub fn sub_dir(self, rhs: Dir) -> (r: Coord)
        requires
            i16::MIN <= self.0 - spec_coord_of_dir(rhs).0 <= i16::MAX,
            i16::MIN <= self.1 - spec_coord_of_dir(rhs).1 <= i16::MAX,
        ensures
            r.0 == self.0 - spec_coord_of_dir(rhs).0,
            r.1 == self.1 - spec_coord_of_dir(rhs).1,
    {
        self.sub(Coord::from(rhs))
    }

    /// The unit offset nearest in angle to this offset.
    pub fn normalize(&self) -> (r: Coord)
        ensures
            r == spec_coord_of_dir(spec_dir_of_coord(*self)),
    {
        let dir: Dir = Dir::from(*self);
        Coord::from(dir)
    }

    /// Whether both components lie in `[-1, 1]`.
    pub fn is_normalized(&self) -> (r: bool)
        ensures
            r == (-1 <= self.0 <= 1 && -1 <= self.1 <= 1),
    {
        self.0 >= -1 && self.0 <= 1 && self.1 >= -1 && self.1 <= 1
    }
}

impl From<Dir> for Coord {
    /// The unit offset of a heading.
    fn from(d: Dir) -> (r: Coord) {
        match d.0 {
            Compass::SouthWest => Coord(-1, -1),
            Compass::South => Coord(0, -1),
            Compass::SouthEast => Coord(1, -1),
            Compass::West => Coord(-1, 0),
            Compass::Center => Coord(0, 0),
            Compass::East => Coord(1, 0),
            Compass::NorthWest => Coord(-1, 1),
            Compass::North => Coord(0, 1),
            Compass::NorthEast => Coord(1, 1),
        }
    }
}

impl vstd::std_specs::convert::FromSpecImpl<Dir> for Coord {
    open spec fn obeys_from_spec() -> bool {
        true
    }

    open spec fn from_spec(d: Dir) -> Coord {
        spec_coord_of_dir(d)
    }
}

impl From<Coord> for Dir {
    /// Quantises an offset's angle into the eight octants; the zero
    /// offset maps to `Center`.
    fn from(c: Coord) -> (r: Dir) {
        if c.0 == 0 && c.1 == 0 {
            return Dir(Compass::Center);
        }
        let x: i64 = c.0 as i64;
        let y: i64 = c.1 as i64;
        let ax: i64 = if x >= 0 { x } else { -x };
        let ay: i64 = if y >= 0 { y } else { -y };
        proof {
            assert((ay + ax) * (ay + ax) <= 65536 * 65536 && ax * ax <= 32768 * 32768
                && (ay - ax) * (ay - ax) <= 65536 * 65536) by (nonlinear_arith)
                requires
                    0 <= ax <= 32768,
                    0 <= ay <= 32768,
            ;
        }
        if (ay + ax) * (ay + ax) < 2 * (ax * ax) {
            if x > 0 { Dir(Compass::East) } else { Dir(Compass::West) }
        } else if ay > ax && (ay - ax) * (ay - ax) > 2 * (ax * ax) {
            if y > 0 { Dir(Compass::North) } else { Dir(Compass::South) }
        } else {
            if x > 0 {
                if y > 0 { Dir(Compass::NorthEast) } else { Dir(Compass::SouthEast) }
            } else {
                if y > 0 { Dir(Compass::NorthWest) } else { Dir(Compass::SouthWest) }
            }
        }
    }
}

impl vstd::std_specs::convert::FromSpecImpl<Coord> for Dir {
    open spec fn obeys_from_spec() -> bool {
        true
    }

    open spec fn from_spec(c: Coord) -> Dir {
        spec_dir_of_coord(c)
    }
}

impl From<Polar> for Dir {
    /// The heading of a polar value.
    fn from(p: Polar) -> (r: Dir) {
        p.direction
    }
}

impl vstd::std_specs::convert::FromSpecImpl<Polar> for Dir {
    open spec fn obeys_from_spec() -> bool {
        true
    }

    open spec fn from_spec(p: Polar) -> Dir {
        p.direction
    }
}

impl From<Dir> for Polar {
    /// A heading as a polar value of magnitude one.
    fn from(d: Dir) -> (r: Polar) {
        Polar { magnitude: 1, direction: d }
    }
}

impl vstd::std_specs::convert::FromSpecImpl<Dir> for Polar {
    open spec fn obeys_from_spec() -> bool {
        true
    }

    open spec fn from_spec(d: Dir) -> Polar {
        Polar { magnitude: 1, direction: d }
    }
}

impl Dir {
    /// A uniformly random one of the eight compass headings.
    pub fn random() -> (r: Dir)
        ensures
            r.0 != Compass::Center,
    {
        let pick = crate::rng::random_below(8);
        if pick == 0 { Dir(Compass::East) }
        else if pick == 1 { Dir(Compass::NorthEast) }
        else if pick == 2 { Dir(Compass::North) }
        else if pick == 3 { Dir(Compass::NorthWest) }
        else if pick == 4 { Dir(Compass::West) }
        else if pick == 5 { Dir(Compass::SouthWest) }
        else if pick == 6 { Dir(Compass::South) }
        else { Dir(Compass::SouthEast) }
    }
}

impl Polar {
    /// A polar value from its magnitude and heading.
    pub fn new(magnitude: u32, direction: Dir) -> (r: Polar)
        ensures
            r.magnitude == magnitude,
            r.direction == direction,
    {
        Polar { magnitude, direction }
    }
}

} // verus!
