use vstd::prelude::*;
use crate::board::{dest, dest_in, grid_view, in_grid, is_wall, tile_at, tile_in, wall_at, Tile};
use crate::direction::{
    direction_rank, get_next_square, lemma_rank_distinct, next_square, opposite, opposite_direction,
    rank, Direction, GameError, Position,
};

verus! {

/// What a ghost is currently doing.
#[derive(Debug, Clone, Copy, PartialEq, Eq, Structural)]
pub enum Mode {
    Chase,
    Scatter,
    Frightened,
}

/// Selects a ghost's targeting rule.
///
/// In Chase mode: `Blinky` pursues the player's tile; `Pinky` ambushes four
/// tiles ahead of the player's heading; `Inky` flanks, aiming at its own
/// position mirrored through the tile two ahead of the player; `Clyde`
/// pursues while at least eight tiles away (squared distance 64) and falls
/// back to its corner when closer. In Scatter mode each heads for its corner.
#[derive(Debug, Clone, Copy, PartialEq, Eq, Structural)]
pub enum Personality {
    Blinky,
    Pinky,
    Inky,
    Clyde,
}

/// A ghost: where it stands, the way it moves, and its current mode.
#[derive(Debug, Clone, Copy)]
pub struct GhostAgent {
    pub pos: Position,
    pub dir: Direction,
    pub mode: Mode,
}

impl GhostAgent {
    /// A ghost at `pos`, facing North.
    pub fn new(pos: Position, mode: Mode) -> (r: GhostAgent)
        ensures
            r == (GhostAgent { pos, dir: Direction::North, mode }),
    {
        let dir = Direction::North;
        GhostAgent { pos, dir, mode }
    }
}

/// The target of a frightened ghost.
pub open spec fn retreat_tile() -> Position {
    (0, 0)
}

/// Each personality's corner of the classic maze, its Scatter-mode target.
pub open spec fn scatter_corner(who: Personality) -> Position {
    match who {
        Personality::Blinky => (0, 25),
        Personality::Pinky => (0, 2),
        Personality::Inky => (35, 27),
        Personality::Clyde => (35, 0),
    }
}

/// An integer held to the range of `usize`.
pub open spec fn clamp(x: int) -> usize {
    if x < 0 {
        0
    } else if x > usize::MAX {
        usize::MAX
    } else {
        x as usize
    }
}

/// The tile `n` steps from `p` along `d`, held to the coordinate range.
pub open spec fn ahead(p: Position, d: Direction, n: int) -> Position {
    match d {
        Direction::North => (clamp(p.0 - n), p.1),
        Direction::South => (clamp(p.0 + n), p.1),
        Direction::East => (p.0, clamp(p.1 + n)),
        Direction::West => (p.0, clamp(p.1 - n)),
    }
}

/// `p` mirrored through `center`, held to the coordinate range.
pub open spec fn mirror(center: Position, p: Position) -> Position {
    (clamp(2 * center.0 - p.0), clamp(2 * center.1 - p.1))
}

pub open spec fn sq_dist(a: Position, b: Position) -> int {
    (a.0 - b.0) * (a.0 - b.0) + (a.1 - b.1) * (a.1 - b.1)
}

/// The tile a ghost steers toward, given the player's position and heading.
pub open spec fn target_of(who: Personality, g: GhostAgent, player: Position, heading: Direction) -> Position {
    match g.mode {
        Mode::Frightened => retreat_tile(),
        Mode::Scatter => scatter_corner(who),
        Mode::Chase => match who {
            Personality::Blinky => player,
            Personality::Pinky => ahead(player, heading, 4),
            Personality::Inky => mirror(ahead(player, heading, 2), g.pos),
            Personality::Clyde => if sq_dist(g.pos, player) >= 64 {
                player
            } else {
                scatter_corner(Personality::Clyde)
            },
        },
    }
}

/// A heading the filter looks at: not a reversal, and not North on a special tile.
pub open spec fn considered(heading: Direction, special: bool, d: Direction) -> bool {
    d != opposite(heading) && !(special && d == Direction::North)
}

/// Every heading the filter looks at has a destination tile on the grid.
pub open spec fn candidates_defined(
    g: Seq<Seq<Tile>>,
    p: Position,
    heading: Direction,
    special: bool,
) -> bool {
    forall|d: Direction| considered(heading, special, d) ==> (#[trigger] dest(g, p, d)) is Ok
}

pub open spec fn pick(
    g: Seq<Seq<Tile>>,
    p: Position,
    heading: Direction,
    special: bool,
    d: Direction,
) -> Seq<Direction> {
    if considered(heading, special, d) && dest(g, p, d) is Ok && !is_wall(g, dest(g, p, d)->Ok_0) {
        seq![d]
    } else {
        seq![]
    }
}

/// The legal outgoing headings at `p`, in the order North, West, South, East.
pub open spec fn candidate_dirs(
    g: Seq<Seq<Tile>>,
    p: Position,
    heading: Direction,
    special: bool,
) -> Seq<Direction> {
    pick(g, p, heading, special, Direction::North) + pick(g, p, heading, special, Direction::West)
        + pick(g, p, heading, special, Direction::South) + pick(g, p, heading, special, Direction::East)
}

/// Where a step along `d` lands; `p` itself when the step has no destination.
pub open spec fn landing(p: Position, d: Direction) -> Position {
    match next_square(p, d) {
        Ok(q) => q,
        Err(_) => p,
    }
}

/// `d` wins over `c`: it lands nearer the target, or as near with a higher rank.
pub open spec fn beats(from: Position, target: Position, d: Direction, c: Direction) -> bool {
    sq_dist(landing(from, d), target) < sq_dist(landing(from, c), target) || (sq_dist(
        landing(from, d),
        target,
    ) == sq_dist(landing(from, c), target) && rank(d) > rank(c))
}

/// `d` is among the candidates and lands nearest the target, with the highest
/// rank among those that land as near.
pub open spec fn is_best(cands: Seq<Direction>, from: Position, target: Position, d: Direction) -> bool {
    &&& cands.contains(d)
    &&& forall|i: int| 0 <= i < cands.len() ==> !beats(from, target, #[trigger] cands[i], d)
}

/// The best candidate, scanning left to right and keeping the winner.
pub open spec fn best_of(cands: Seq<Direction>, from: Position, target: Position) -> Direction
    decreases cands.len(),
{
    if cands.len() <= 1 {
        cands[0]
    } else {
        let prev = best_of(cands.drop_last(), from, target);
        if beats(from, target, cands.last(), prev) {
            cands.last()
        } else {
            prev
        }
    }
}

/// Proves the left-to-right scan yields the candidate that `is_best` describes.
pub proof fn lemma_best_of_is_best(cands: Seq<Direction>, from: Position, target: Position)
    requires
        cands.len() > 0,
    ensures
        is_best(cands, from, target, best_of(cands, from, target)),
    decreases cands.len(),
{
    let b = best_of(cands, from, target);
    if cands.len() == 1 {
        assert(cands[0] == b);
        assert(cands.contains(b));
    } else {
        let front = cands.drop_last();
        lemma_best_of_is_best(front, from, target);
        let prev = best_of(front, from, target);
        let j = choose|j: int| 0 <= j < front.len() && front[j] == prev;
        assert(cands[j] == prev);
        if b == cands.last() {
            assert(cands[cands.len() - 1] == b);
        }
        assert(cands.contains(b));
        assert forall|i: int| 0 <= i < cands.len() implies !beats(from, target, #[trigger] cands[i], b) by {
            if i < cands.len() - 1 {
                assert(front[i] == cands[i]);
                lemma_rank_distinct(cands[i], prev);
                lemma_rank_distinct(cands[i], b);
            } else {
                lemma_rank_distinct(cands[i], b);
            }
        }
    }
}

/// At most one candidate is best.
pub proof fn lemma_best_unique(
    cands: Seq<Direction>,
    from: Position,
    target: Position,
    a: Direction,
    b: Direction,
)
    requires
        is_best(cands, from, target, a),
        is_best(cands, from, target, b),
    ensures
        a == b,
{
    let i = choose|i: int| 0 <= i < cands.len() && cands[i] == a;
    let j = choose|j: int| 0 <= j < cands.len() && cands[j] == b;
    assert(!beats(from, target, cands[i], b));
    assert(!beats(from, target, cands[j], a));
    lemma_rank_distinct(a, b);
}

/// Of two candidates that both land at the least distance from the target,
/// the one of lower rank is never chosen; the higher one is chosen when no
/// other candidate as near outranks it.
pub proof fn lemma_tie_goes_to_higher_rank(
    cands: Seq<Direction>,
    from: Position,
    target: Position,
    a: Direction,
    b: Direction,
)
    requires
        cands.contains(a),
        cands.contains(b),
        sq_dist(landing(from, a), target) == sq_dist(landing(from, b), target),
        forall|i: int|
            0 <= i < cands.len() ==> sq_dist(landing(from, a), target) <= sq_dist(
                landing(from, #[trigger] cands[i]),
                target,
            ),
        rank(a) < rank(b),
    ensures
        best_of(cands, from, target) != a,
        (forall|i: int|
            0 <= i < cands.len() && sq_dist(landing(from, #[trigger] cands[i]), target) == sq_dist(
                landing(from, b),
                target,
            ) ==> rank(cands[i]) <= rank(b)) ==> best_of(cands, from, target) == b,
{
    lemma_best_of_is_best(cands, from, target);
    let w = best_of(cands, from, target);
    let j = choose|j: int| 0 <= j < cands.len() && cands[j] == b;
    let k = choose|k: int| 0 <= k < cands.len() && cands[k] == w;
    assert(!beats(from, target, cands[j], w));
    assert(sq_dist(landing(from, a), target) <= sq_dist(landing(from, cands[k]), target));
    lemma_rank_distinct(w, b);
}

fn ahead_of(p: Position, d: Direction, n: usize) -> (r: Position)
    ensures
        r == ahead(p, d, n as int),
{
    match d {
        Direction::North => (p.0.saturating_sub(n), p.1),
        Direction::South => (p.0.saturating_add(n), p.1),
        Direction::East => (p.0, p.1.saturating_add(n)),
        Direction::West => (p.0, p.1.saturating_sub(n)),
    }
}

fn mirror_coord(center: usize, p: usize) -> (r: usize)
    ensures
        r == clamp(2 * center - p),
{
    if center >= p {
        center.saturating_add(center - p)
    } else {
        center.saturating_sub(p - center)
    }
}

fn square_gap(a: usize, b: usize) -> (r: u128)
    ensures
        r == (a - b) * (a - b),
{
    let d: u128 = if a >= b { (a - b) as u128 } else { (b - a) as u128 };
    assert(d <= 0xffff_ffff_ffff_ffffu128);
    assert(d * d <= 0xffff_ffff_ffff_ffffu128 * 0xffff_ffff_ffff_ffffu128) by (nonlinear_arith)
        requires
            d <= 0xffff_ffff_ffff_ffffu128,
    ;
    assert(d * d == (a - b) * (a - b)) by (nonlinear_arith)
        requires
            d == a - b || d == b - a,
    ;
    d * d
}

/// The squared distance between `a` and `b`, as its row and column parts.
fn sq_dist_parts(a: Position, b: Position) -> (r: (u128, u128))
    ensures
        r.0 + r.1 == sq_dist(a, b),
{
    (square_gap(a.0, b.0), square_gap(a.1, b.1))
}

/// Compares two sums of two terms without forming either sum.
fn sum_lt(x1: u128, y1: u128, x2: u128, y2: u128) -> (r: bool)
    ensures
        r == (x1 + y1 < x2 + y2),
{
    if x1 >= x2 {
        if y2 > y1 {
            x1 - x2 < y2 - y1
        } else {
            false
        }
    } else {
        if y1 > y2 {
            y1 - y2 < x2 - x1
        } else {
            true
        }
    }
}

/// The tile the ghost steers toward this tick.
pub fn target_tile(who: Personality, g: &GhostAgent, player: Position, heading: Direction) -> (r: Position)
    ensures
        r == target_of(who, *g, player, heading),
{
    let corner: Position = match who {
        Personality::Blinky => (0, 25),
        Personality::Pinky => (0, 2),
        Personality::Inky => (35, 27),
        Personality::Clyde => (35, 0),
    };
    match g.mode {
        Mode::Frightened => (0, 0),
        Mode::Scatter => corner,
        Mode::Chase => match who {
            Personality::Blinky => player,
            Personality::Pinky => ahead_of(player, heading, 4),
            Personality::Inky => {
                let pivot = ahead_of(player, heading, 2);
                (mirror_coord(pivot.0, g.pos.0), mirror_coord(pivot.1, g.pos.1))
            },
            Personality::Clyde => {
                let d = sq_dist_parts(g.pos, player);
                if sum_lt(d.0, d.1, 64, 0) {
                    corner
                } else {
                    player
                }
            },
        },
    }
}

/// The legal outgoing headings for a ghost at its tile: no reversal, no North
/// when `special`, and none into a wall, in the order North, West, South, East.
///
/// Fails with `OutOfBounds` when a heading it looks at has no destination tile on the grid.
pub fn check_dirs(
    tiles: &Vec<Vec<Tile>>,
    ghost: &GhostAgent,
    special: bool,
) -> (r: Result<Vec<Direction>, GameError>)
    ensures
        match r {
            Ok(v) => candidates_defined(grid_view(tiles), ghost.pos, ghost.dir, special) && v@ == candidate_dirs(
                grid_view(tiles),
                ghost.pos,
                ghost.dir,
                special,
            ),
            Err(e) => !candidates_defined(grid_view(tiles), ghost.pos, ghost.dir, special) && e
                == GameError::OutOfBounds,
        },
{
    let ghost g = grid_view(tiles);
    let opp_dir = opposite_direction(&ghost.dir);
    let order: [Direction; 4] = [Direction::North, Direction::West, Direction::South, Direction::East];
    let mut dirs: Vec<Direction> = Vec::new();
    let mut k: usize = 0;
    while k < 4
        invariant
            g == grid_view(tiles),
            k <= 4,
            order@ == seq![Direction::North, Direction::West, Direction::South, Direction::East],
            opp_dir == opposite(ghost.dir),
            forall|i: int|
                0 <= i < k && considered(ghost.dir, special, #[trigger] order@[i]) ==> dest(
                    g,
                    ghost.pos,
                    order@[i],
                ) is Ok,
            k == 0 ==> dirs@ == Seq::<Direction>::empty(),
            k == 1 ==> dirs@ == pick(g, ghost.pos, ghost.dir, special, Direction::North),
            k == 2 ==> dirs@ == pick(g, ghost.pos, ghost.dir, special, Direction::North) + pick(
                g,
                ghost.pos,
                ghost.dir,
                special,
                Direction::West,
            ),
            k == 3 ==> dirs@ == pick(g, ghost.pos, ghost.dir, special, Direction::North) + pick(
                g,
                ghost.pos,
                ghost.dir,
                special,
                Direction::West,
            ) + pick(g, ghost.pos, ghost.dir, special, Direction::South),
            k == 4 ==> dirs@ == candidate_dirs(g, ghost.pos, ghost.dir, special),
        decreases 4 - k,
    {
        let dir = order[k];
        let ghost before = dirs@;
        if dir != opp_dir && !(special && dir == Direction::North) {
            match dest_in(tiles, ghost.pos, dir) {
                Ok(next) => {
                    if !wall_at(tiles, next) {
                        dirs.push(dir);
                    }
                },
                Err(_) => {
                    assert(considered(ghost.dir, special, dir));
                    return Err(GameError::OutOfBounds);
                },
            }
        }
        assert(dirs@ =~= before + pick(g, ghost.pos, ghost.dir, special, dir));
        k = k + 1;
    }
    assert forall|d: Direction| considered(ghost.dir, special, d) implies (#[trigger] dest(
        g,
        ghost.pos,
        d,
    )) is Ok by {
        match d {
            Direction::North => assert(order@[0] == d),
            Direction::West => assert(order@[1] == d),
            Direction::South => assert(order@[2] == d),
            Direction::East => assert(order@[3] == d),
        }
    }
    Ok(dirs)
}

/// The candidate whose landing tile is nearest the target; among equally
/// near ones, the highest in the order East < South < West < North.
pub fn choose_heading(cands: &Vec<Direction>, from: Position, target: Position) -> (r: Direction)
    requires
        cands@.len() > 0,
    ensures
        r == best_of(cands@, from, target),
        is_best(cands@, from, target, r),
{
    let mut best = cands[0];
    let mut best_dist = sq_dist_parts(landing_of(from, best), target);
    let mut i: usize = 1;
    assert(cands@.take(1).drop_last().len() == 0);
    assert(best_of(cands@.take(1), from, target) == cands@[0]);
    while i < cands.len()
        invariant
            1 <= i <= cands@.len(),
            best == best_of(cands@.take(i as int), from, target),
            best_dist.0 + best_dist.1 == sq_dist(landing(from, best), target),
        decreases cands@.len() - i,
    {
        let c = cands[i];
        let d = sq_dist_parts(landing_of(from, c), target);
        let nearer = sum_lt(d.0, d.1, best_dist.0, best_dist.1);
        let farther = sum_lt(best_dist.0, best_dist.1, d.0, d.1);
        assert(cands@.take(i as int + 1).drop_last() =~= cands@.take(i as int));
        assert(cands@.take(i as int + 1).last() == c);
        if nearer || (!farther && direction_rank(&c) > direction_rank(&best)) {
            best = c;
            best_dist = d;
        }
        i = i + 1;
    }
    assert(cands@.take(cands@.len() as int) =~= cands@);
    proof {
        lemma_best_of_is_best(cands@, from, target);
    }
    best
}

fn landing_of(p: Position, d: Direction) -> (r: Position)
    ensures
        r == landing(p, d),
{
    match get_next_square(&p, &d) {
        Ok(q) => q,
        Err(_) => p,
    }
}

/// The ghost's heading after this tick's decision: re-chosen on every tick
/// spent on an intersection, kept elsewhere.
pub open spec fn decided_heading(
    g: Seq<Seq<Tile>>,
    who: Personality,
    ghost: GhostAgent,
    player: Position,
    heading: Direction,
) -> Result<Direction, GameError> {
    let t = tile_at(g, ghost.pos);
    if !t.intersection {
        Ok(ghost.dir)
    } else if !candidates_defined(g, ghost.pos, ghost.dir, t.special) {
        Err(GameError::OutOfBounds)
    } else {
        let cands = candidate_dirs(g, ghost.pos, ghost.dir, t.special);
        if cands.len() == 0 {
            Err(GameError::NoLegalDirection)
        } else {
            Ok(best_of(cands, ghost.pos, target_of(who, ghost, player, heading)))
        }
    }
}

/// The ghost after one tick: it decides its heading and advances one tile;
/// if that tile is a wall it takes the first legal heading instead.
pub open spec fn ghost_step(
    g: Seq<Seq<Tile>>,
    who: Personality,
    ghost: GhostAgent,
    player: Position,
    heading: Direction,
) -> Result<GhostAgent, GameError> {
    match decided_heading(g, who, ghost, player, heading) {
        Err(e) => Err(e),
        Ok(h) => match dest(g, ghost.pos, h) {
            Err(e) => Err(e),
            Ok(n) => if !is_wall(g, n) {
                Ok(GhostAgent { pos: n, dir: h, ..ghost })
            } else if !candidates_defined(g, ghost.pos, h, false) {
                Err(GameError::OutOfBounds)
            } else {
                let c = candidate_dirs(g, ghost.pos, h, false);
                if c.len() == 0 {
                    Err(GameError::NoLegalDirection)
                } else {
                    Ok(GhostAgent { pos: landing(ghost.pos, c[0]), dir: c[0], ..ghost })
                }
            },
        },
    }
}

/// Every candidate heading is considered and leads onto an open tile of the grid.
pub proof fn lemma_candidates_open(g: Seq<Seq<Tile>>, p: Position, heading: Direction, special: bool)
    ensures
        forall|i: int|
            0 <= i < candidate_dirs(g, p, heading, special).len() ==> {
                let d = #[trigger] candidate_dirs(g, p, heading, special)[i];
                &&& considered(heading, special, d)
                &&& dest(g, p, d) is Ok
                &&& !is_wall(g, dest(g, p, d)->Ok_0)
            },
{
    let a = pick(g, p, heading, special, Direction::North);
    let b = pick(g, p, heading, special, Direction::West);
    let c = pick(g, p, heading, special, Direction::South);
    let e = pick(g, p, heading, special, Direction::East);
    let all = candidate_dirs(g, p, heading, special);
    assert(all == a + b + c + e);
    assert forall|i: int| 0 <= i < all.len() implies {
        let d = #[trigger] all[i];
        &&& considered(heading, special, d)
        &&& dest(g, p, d) is Ok
        &&& !is_wall(g, dest(g, p, d)->Ok_0)
    } by {
        if i < a.len() {
            assert(all[i] == a[i]);
        } else if i < a.len() + b.len() {
            assert(all[i] == b[i - a.len()]);
        } else if i < a.len() + b.len() + c.len() {
            assert(all[i] == c[i - a.len() - b.len()]);
        } else {
            assert(all[i] == e[i - a.len() - b.len() - c.len()]);
        }
    }
}

/// Moves one ghost by a tick, given the player's position and heading.
pub fn move_ghost(
    tiles: &Vec<Vec<Tile>>,
    who: Personality,
    ghost: &GhostAgent,
    player: Position,
    heading: Direction,
) -> (r: Result<GhostAgent, GameError>)
    ensures
        r == ghost_step(grid_view(tiles), who, *ghost, player, heading),
        ({
            let g = grid_view(tiles);
            let t = tile_at(g, ghost.pos);
            let cands = candidate_dirs(g, ghost.pos, ghost.dir, t.special);
            t.intersection && candidates_defined(g, ghost.pos, ghost.dir, t.special) && cands.len() > 0
                ==> r is Ok && r->Ok_0.pos == dest(g, ghost.pos, r->Ok_0.dir)->Ok_0 && is_best(
                cands,
                ghost.pos,
                target_of(who, *ghost, player, heading),
                r->Ok_0.dir,
            )
        }),
{
    let ghost g = grid_view(tiles);
    let mut moved = *ghost;
    let here = tile_in(tiles, ghost.pos);
    if here.intersection {
        let target = target_tile(who, ghost, player, heading);
        let dirs = match check_dirs(tiles, ghost, here.special) {
            Ok(v) => v,
            Err(e) => {
                return Err(e);
            },
        };
        if dirs.len() == 0 {
            return Err(GameError::NoLegalDirection);
        }
        moved.dir = choose_heading(&dirs, ghost.pos, target);
        proof {
            lemma_candidates_open(g, ghost.pos, ghost.dir, here.special);
        }
    }
    assert(decided_heading(g, who, *ghost, player, heading) == Ok::<Direction, GameError>(moved.dir));
    let next = match dest_in(tiles, moved.pos, moved.dir) {
        Ok(q) => q,
        Err(e) => {
            return Err(e);
        },
    };
    if !wall_at(tiles, next) {
        moved.pos = next;
        return Ok(moved);
    }
    let dirs = match check_dirs(tiles, &moved, false) {
        Ok(v) => v,
        Err(e) => {
            return Err(e);
        },
    };
    if dirs.len() == 0 {
        return Err(GameError::NoLegalDirection);
    }
    moved.dir = dirs[0];
    moved.pos = landing_of(moved.pos, moved.dir);
    Ok(moved)
}

} // verus!
