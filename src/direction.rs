use vstd::prelude::*;

verus! {

/// A grid coordinate: `(row, column)`, both counted from the top-left corner.
pub type Position = (usize, usize);

/// One of the four compass headings.
///
/// The derived order (East < South < West < North) carries no spatial meaning:
/// it only breaks ties between equally good ghost moves.
#[derive(Debug, Clone, Copy, PartialEq, Eq, Structural, PartialOrd, Ord)]
pub enum Direction {
    East,
    South,
    West,
    North,
}

/// Errors raised while moving on a board whose geometry is malformed.
#[derive(Debug, Clone, Copy, PartialEq, Eq, Structural)]
pub enum GameError {
    /// A step would land on no tile of the grid: past any edge of it, or
    /// beyond the range of coordinates.
    OutOfBounds,
    /// A ghost found no direction that it may legally take.
    NoLegalDirection,
}

/// Position of a heading in the tie-break order.
pub open spec fn rank(d: Direction) -> int {
    match d {
        Direction::East => 0,
        Direction::South => 1,
        Direction::West => 2,
        Direction::North => 3,
    }
}

pub open spec fn opposite(d: Direction) -> Direction {
    match d {
        Direction::North => Direction::South,
        Direction::South => Direction::North,
        Direction::East => Direction::West,
        Direction::West => Direction::East,
    }
}

/// The tile one unit away from `p` along `d`, or `OutOfBounds` when a
/// coordinate would leave the range of `usize`.
pub open spec fn next_square(p: Position, d: Direction) -> Result<Position, GameError> {
    match d {
        Direction::North => if p.0 >= 1 {
            Ok(((p.0 - 1) as usize, p.1))
        } else {
            Err(GameError::OutOfBounds)
        },
        Direction::South => if p.0 < usize::MAX {
            Ok(((p.0 + 1) as usize, p.1))
        } else {
            Err(GameError::OutOfBounds)
        },
        Direction::East => if p.1 < usize::MAX {
            Ok((p.0, (p.1 + 1) as usize))
        } else {
            Err(GameError::OutOfBounds)
        },
        Direction::West => if p.1 >= 1 {
            Ok((p.0, (p.1 - 1) as usize))
        } else {
            Err(GameError::OutOfBounds)
        },
    }
}

/// Turning around twice faces the original way, and no heading is its own reverse.
pub proof fn lemma_opposite_involution(d: Direction)
    ensures
        opposite(opposite(d)) == d,
        opposite(d) != d,
{
}

/// No two headings share a rank, so the tie-break order is strict.
pub proof fn lemma_rank_distinct(a: Direction, b: Direction)
    ensures
        rank(a) == rank(b) <==> a == b,
{
}

pub fn opposite_direction(dir: &Direction) -> (r: Direction)
    ensures
        r == opposite(*dir),
{
    match dir {
        Direction::North => Direction::South,
        Direction::West => Direction::East,
        Direction::South => Direction::North,
        Direction::East => Direction::West,
    }
}

pub fn direction_rank(dir: &Direction) -> (r: u8)
    ensures
        r as int == rank(*dir),
{
    match dir {
        Direction::East => 0,
        Direction::South => 1,
        Direction::West => 2,
        Direction::North => 3,
    }
}

pub fn get_next_square(pos: &Position, dir: &Direction) -> (r: Result<Position, GameError>)
    ensures
        r == next_square(*pos, *dir),
{
    match dir {
        Direction::North => if pos.0 >= 1 {
            Ok((pos.0 - 1, pos.1))
        } else {
            Err(GameError::OutOfBounds)
        },
        Direction::South => if pos.0 < usize::MAX {
            Ok((pos.0 + 1, pos.1))
        } else {
            Err(GameError::OutOfBounds)
        },
        Direction::East => if pos.1 < usize::MAX {
            Ok((pos.0, pos.1 + 1))
        } else {
            Err(GameError::OutOfBounds)
        },
        Direction::West => if pos.1 >= 1 {
            Ok((pos.0, pos.1 - 1))
        } else {
            Err(GameError::OutOfBounds)
        },
    }
}

} // verus!
