//! World-space axes and face directions.

use vstd::prelude::*;

verus! {

/// One of the three coordinate axes.
#[derive(Debug, PartialEq, Eq, Structural, Clone, Copy)]
pub enum Axis {
    X,
    Y,
    Z,
}

/// One of the six face directions of a cube. North and South run along the
/// Z axis (North toward negative Z), East and West along the X axis (East
/// toward positive X), Up and Down along the Y axis.
#[derive(Debug, PartialEq, Eq, Structural, Clone, Copy)]
pub enum Direction {
    North,
    South,
    East,
    West,
    Up,
    Down,
}

impl Direction {
    /// The unit offset a step in this direction adds to a position.
    pub open spec fn spec_offset(&self) -> (i8, i8, i8) {
        match self {
            Direction::North => (0i8, 0i8, -1i8),
            Direction::South => (0i8, 0i8, 1i8),
            Direction::East => (1i8, 0i8, 0i8),
            Direction::West => (-1i8, 0i8, 0i8),
            Direction::Up => (0i8, 1i8, 0i8),
            Direction::Down => (0i8, -1i8, 0i8),
        }
    }

    /// The direction that points the opposite way.
    pub open spec fn spec_opposite(&self) -> Direction {
        match self {
            Direction::North => Direction::South,
            Direction::South => Direction::North,
            Direction::East => Direction::West,
            Direction::West => Direction::East,
            Direction::Up => Direction::Down,
            Direction::Down => Direction::Up,
        }
    }

    #[verifier::when_used_as_spec(spec_offset)]
    pub fn offset(&self) -> (o: (i8, i8, i8))
        ensures
            o == self.spec_offset(),
    {
        match self {
            Self::North => (0, 0, -1),
            Self::South => (0, 0, 1),
            Self::East => (1, 0, 0),
            Self::West => (-1, 0, 0),
            Self::Up => (0, 1, 0),
            Self::Down => (0, -1, 0),
        }
    }

    #[verifier::when_used_as_spec(spec_opposite)]
    pub fn opposite(&self) -> (o: Direction)
        ensures
            o == self.spec_opposite(),
    {
        match self {
            Self::North => Self::South,
            Self::South => Self::North,
            Self::East => Self::West,
            Self::West => Self::East,
            Self::Up => Self::Down,
            Self::Down => Self::Up,
        }
    }

    /// Adds this direction's unit offset to a position, component-wise.
    pub fn offset_with_position(&self, position: (isize, isize, isize)) -> (r: (
        isize,
        isize,
        isize,
    ))
        requires
            isize::MIN < position.0 < isize::MAX,
            isize::MIN < position.1 < isize::MAX,
            isize::MIN < position.2 < isize::MAX,
        ensures
            r.0 == position.0 + self.spec_offset().0,
            r.1 == position.1 + self.spec_offset().1,
            r.2 == position.2 + self.spec_offset().2,
    {
        let o = self.offset();

        let o = (o.0 as isize, o.1 as isize, o.2 as isize);

        (position.0 + o.0, position.1 + o.1, position.2 + o.2)
    }

    /// The fixed order in which the six directions are enumerated.
    pub open spec fn all_directions() -> Seq<Direction> {
        seq![
            Direction::North,
            Direction::South,
            Direction::East,
            Direction::West,
            Direction::Up,
            Direction::Down,
        ]
    }

    /// Every direction, in the order of [`Direction::all_directions`].
    pub fn all() -> (r: Vec<Self>)
        ensures
            r@ == Self::all_directions(),
    {
        let r = vec![
            Self::North,
            Self::South,
            Self::East,
            Self::West,
            Self::Up,
            Self::Down,
        ];
        proof {
            assert(r@ =~= Self::all_directions());
        }
        r
    }
}

} // verus!
