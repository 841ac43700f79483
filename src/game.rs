use vstd::prelude::*;
use crate::board::{
    decode_grid, decode_layout, dest, dest_in, encode_grid, encode_layout, grid_view, in_grid, is_start, is_wall,
    layout_view, seen_before, set_tile, symbols_valid, tile_at, tile_in, unique_start, wall_at,
    BoardError, Tile,
};
use crate::classic::{classic_board, classic_layout};
use crate::direction::{Direction, GameError, Position};
use crate::ghost::{ghost_step, move_ghost, GhostAgent, Personality};

verus! {

/// The player: where it stands, the way it walks, and the way it was last asked to turn.
#[derive(Debug, Clone, Copy)]
pub struct Pacman {
    pub pos: Position,
    pub current_dir: Direction,
    pub desired_dir: Direction,
}

impl Pacman {
    /// The player at `pos`, walking and wanting to walk West.
    pub fn new(pos: Position) -> (r: Pacman)
        ensures
            r == (Pacman { pos, current_dir: Direction::West, desired_dir: Direction::West }),
    {
        let current_dir = Direction::West;
        let desired_dir = Direction::West;
        Pacman { pos, current_dir, desired_dir }
    }
}

/// The whole simulation: the tile grid with what remains on it, the agents, and the score.
#[derive(Debug)]
pub struct GameState {
    pub pacman: Pacman,
    pub ghosts: Vec<(Personality, GhostAgent)>,
    pub tiles: Vec<Vec<Tile>>,
    pub score: usize,
}

/// The mathematical value of a `GameState`.
pub struct GameModel {
    pub grid: Seq<Seq<Tile>>,
    pub pacman: Pacman,
    pub ghosts: Seq<(Personality, GhostAgent)>,
    pub score: int,
}

impl View for GameState {
    type V = GameModel;

    open spec fn view(&self) -> GameModel {
        GameModel {
            grid: grid_view(&self.tiles),
            pacman: self.pacman,
            ghosts: self.ghosts@,
            score: self.score as int,
        }
    }
}

/// Where the player goes this tick: `Some` of the moved player, `None` when
/// both the desired and the current heading run into walls.
pub open spec fn player_move(g: Seq<Seq<Tile>>, pac: Pacman) -> Result<Option<Pacman>, GameError> {
    match dest(g, pac.pos, pac.desired_dir) {
        Err(e) => Err(e),
        Ok(t) => if !is_wall(g, t) {
            Ok(Some(Pacman { pos: t, current_dir: pac.desired_dir, ..pac }))
        } else {
            match dest(g, pac.pos, pac.current_dir) {
                Err(e) => Err(e),
                Ok(t2) => if !is_wall(g, t2) {
                    Ok(Some(Pacman { pos: t2, ..pac }))
                } else {
                    Ok(None)
                },
            }
        },
    }
}

/// Points for arriving at `p`: a fruit is worth 1, else a power-up 10.
pub open spec fn gain(g: Seq<Seq<Tile>>, p: Position) -> int {
    if tile_at(g, p).fruit {
        1
    } else if tile_at(g, p).power_up {
        10
    } else {
        0
    }
}

/// The grid once the player has taken what lies at `p`.
pub open spec fn collect(g: Seq<Seq<Tile>>, p: Position) -> Seq<Seq<Tile>> {
    let t = tile_at(g, p);
    if t.fruit {
        set_tile(g, p, Tile { fruit: false, ..t })
    } else if t.power_up {
        set_tile(g, p, Tile { power_up: false, ..t })
    } else {
        g
    }
}

/// No two ghosts share a personality.
pub open spec fn personalities_distinct(gs: Seq<(Personality, GhostAgent)>) -> bool {
    forall|i: int, j: int|
        0 <= i < gs.len() && 0 <= j < gs.len() && i != j ==> (#[trigger] gs[i]).0 != (#[trigger] gs[j]).0
}

/// Every ghost moved by a tick, in order; the first failure stops it.
pub open spec fn ghosts_step(
    g: Seq<Seq<Tile>>,
    ghosts: Seq<(Personality, GhostAgent)>,
    player: Pacman,
) -> Result<Seq<(Personality, GhostAgent)>, GameError>
    decreases ghosts.len(),
{
    if ghosts.len() == 0 {
        Ok(Seq::empty())
    } else {
        match ghosts_step(g, ghosts.drop_last(), player) {
            Err(e) => Err(e),
            Ok(done) => match ghost_step(
                g,
                ghosts.last().0,
                ghosts.last().1,
                player.pos,
                player.current_dir,
            ) {
                Err(e) => Err(e),
                Ok(x) => Ok(done.push((ghosts.last().0, x))),
            },
        }
    }
}

/// One tick: the player moves and collects, then every ghost moves, steering
/// by the player's new position. A step onto no tile of the grid, or a ghost
/// left with no legal heading, fails the tick and leaves the state as it was.
pub open spec fn tick_spec(m: GameModel) -> Result<GameModel, GameError> {
    match player_move(m.grid, m.pacman) {
        Err(e) => Err(e),
        Ok(mv) => {
            let player = match mv {
                Some(p) => p,
                None => m.pacman,
            };
            match ghosts_step(m.grid, m.ghosts, player) {
                Err(e) => Err(e),
                Ok(gs) => match mv {
                    Some(p) => Ok(
                        GameModel {
                            grid: collect(m.grid, p.pos),
                            pacman: p,
                            ghosts: gs,
                            score: m.score + gain(m.grid, p.pos),
                        },
                    ),
                    None => Ok(GameModel { ghosts: gs, ..m }),
                },
            }
        },
    }
}

impl GameState {
    /// Where the player goes this tick, without moving it.
    fn plan_pacman(&self) -> (r: Result<Option<Pacman>, GameError>)
        ensures
            r == player_move(self@.grid, self.pacman),
    {
        let pac = self.pacman;
        let next = match dest_in(&self.tiles, pac.pos, pac.desired_dir) {
            Ok(q) => q,
            Err(e) => {
                return Err(e);
            },
        };
        if !wall_at(&self.tiles, next) {
            return Ok(Some(Pacman { pos: next, current_dir: pac.desired_dir, ..pac }));
        }
        let next = match dest_in(&self.tiles, pac.pos, pac.current_dir) {
            Ok(q) => q,
            Err(e) => {
                return Err(e);
            },
        };
        if !wall_at(&self.tiles, next) {
            Ok(Some(Pacman { pos: next, ..pac }))
        } else {
            Ok(None)
        }
    }

    /// Puts the player at `moved` and resolves what lies on its new tile.
    fn update_pacman(&mut self, moved: Pacman)
        requires
            old(self).score <= usize::MAX - 10,
        ensures
            final(self)@ == (GameModel {
                grid: collect(old(self)@.grid, moved.pos),
                pacman: moved,
                score: old(self)@.score + gain(old(self)@.grid, moved.pos),
                ..old(self)@
            }),
    {
        let ghost g = self@.grid;
        self.pacman = moved;
        let p = moved.pos;
        let t = tile_in(&self.tiles, p);
        if t.fruit {
            self.tiles[p.0][p.1].fruit = false;
            self.score = self.score + 1;
        } else if t.power_up {
            self.tiles[p.0][p.1].power_up = false;
            self.score = self.score + 10;
        }
        assert(self@.grid =~= collect(g, p));
    }

    /// Every ghost after this tick, steering by `player`; nothing is changed.
    fn update_ghosts(&self, player: &Pacman) -> (r: Result<Vec<(Personality, GhostAgent)>, GameError>)
        ensures
            match r {
                Ok(v) => ghosts_step(self@.grid, self@.ghosts, *player) == Ok::<
                    Seq<(Personality, GhostAgent)>,
                    GameError,
                >(v@),
                Err(e) => ghosts_step(self@.grid, self@.ghosts, *player) == Err::<
                    Seq<(Personality, GhostAgent)>,
                    GameError,
                >(e),
            },
    {
        let ghost g = self@.grid;
        let mut out: Vec<(Personality, GhostAgent)> = Vec::new();
        let mut i: usize = 0;
        assert(self.ghosts@.take(0) =~= Seq::<(Personality, GhostAgent)>::empty());
        while i < self.ghosts.len()
            invariant
                g == self@.grid,
                i <= self.ghosts@.len(),
                ghosts_step(g, self.ghosts@.take(i as int), *player) == Ok::<
                    Seq<(Personality, GhostAgent)>,
                    GameError,
                >(out@),
            decreases self.ghosts@.len() - i,
        {
            let (who, gh) = self.ghosts[i];
            assert(self.ghosts@.take(i as int + 1).drop_last() =~= self.ghosts@.take(i as int));
            assert(self.ghosts@.take(i as int + 1).last() == (who, gh));
            match move_ghost(&self.tiles, who, &gh, player.pos, player.current_dir) {
                Ok(x) => {
                    out.push((who, x));
                },
                Err(e) => {
                    assert(ghosts_step(g, self.ghosts@.take(i as int + 1), *player) is Err);
                    proof {
                        lemma_ghosts_step_err_extends(g, self.ghosts@, *player, i as int + 1, e);
                    }
                    return Err(e);
                },
            }
            i = i + 1;
        }
        assert(self.ghosts@.take(i as int) =~= self.ghosts@);
        Ok(out)
    }

    /// Advances the game by one tick: the player moves and collects, then
    /// every ghost moves. A step onto no tile of the grid fails with
    /// `OutOfBounds`, a ghost boxed in fails with `NoLegalDirection`; either
    /// way the state is left unchanged.
    pub fn tick(&mut self) -> (r: Result<(), GameError>)
        requires
            old(self).score <= usize::MAX - 10,
        ensures
            match tick_spec(old(self)@) {
                Ok(m) => r == Ok::<(), GameError>(()) && final(self)@ == m,
                Err(e) => r == Err::<(), GameError>(e) && final(self)@ == old(self)@,
            },
            // The score only grows, by 1 for a fruit or 10 for a power-up.
            final(self).score == old(self).score || final(self).score == old(self).score + 1
                || final(self).score == old(self).score + 10,
            // Ghosts keep their order and personalities.
            final(self)@.ghosts.len() == old(self)@.ghosts.len(),
            forall|i: int|
                0 <= i < old(self)@.ghosts.len() ==> (#[trigger] final(self)@.ghosts[i]).0
                    == old(self)@.ghosts[i].0,
            // A player facing walls both ways stays put, and nothing is collected.
            player_move(old(self)@.grid, old(self).pacman) == Ok::<Option<Pacman>, GameError>(None)
                ==> final(self).pacman == old(self).pacman && final(self).score == old(self).score
                && final(self)@.grid == old(self)@.grid,
            // Arriving on a fruit takes it and scores 1.
            r is Ok && (player_move(old(self)@.grid, old(self).pacman) matches Ok(Some(_)))
                && tile_at(old(self)@.grid, final(self).pacman.pos).fruit ==> final(self).score
                == old(self).score + 1 && !tile_at(final(self)@.grid, final(self).pacman.pos).fruit,
    {
        let mv = match self.plan_pacman() {
            Ok(mv) => mv,
            Err(e) => {
                return Err(e);
            },
        };
        let player = match mv {
            Some(p) => p,
            None => self.pacman,
        };
        let ghosts = match self.update_ghosts(&player) {
            Ok(v) => v,
            Err(e) => {
                return Err(e);
            },
        };
        proof {
            lemma_ghosts_step_keeps_personalities(self@.grid, self@.ghosts, player);
        }
        if let Some(p) = mv {
            self.update_pacman(p);
            proof {
                assert(in_grid(old(self)@.grid, p.pos));
            }
        }
        self.ghosts = ghosts;
        Ok(())
    }
}

/// The state a well-formed layout starts a game in: its decoded grid, the
/// player at `start` facing West, no ghosts and no score.
pub open spec fn initial_model(b: Seq<Seq<char>>, start: Position) -> GameModel {
    GameModel {
        grid: decode_grid(b),
        pacman: Pacman { pos: start, current_dir: Direction::West, desired_dir: Direction::West },
        ghosts: Seq::empty(),
        score: 0,
    }
}

/// What building a game from layout `b` gives: `Ok` exactly when every cell
/// is in the alphabet and exactly one is the start, and then the initial state.
pub open spec fn built_from(b: Seq<Seq<char>>, r: Result<GameState, BoardError>) -> bool {
    match r {
        Ok(gs) => {
            &&& symbols_valid(b)
            &&& unique_start(b)
            &&& is_start(b, gs.pacman.pos.0 as int, gs.pacman.pos.1 as int)
            &&& gs@ == initial_model(b, gs.pacman.pos)
        },
        Err(e) => {
            &&& !(symbols_valid(b) && unique_start(b))
            &&& e == if symbols_valid(b) {
                BoardError::MissingOrDuplicateStart
            } else {
                BoardError::InvalidBoardSymbol
            }
        },
    }
}

impl GameState {
    /// Builds a game from a layout.
    pub fn from_board(board: &Vec<Vec<char>>) -> (r: Result<GameState, BoardError>)
        ensures
            built_from(layout_view(board), r),
    {
        match decode_layout(board) {
            Ok((tiles, start)) => {
                let gs = GameState {
                    pacman: Pacman::new(start),
                    ghosts: Vec::new(),
                    tiles,
                    score: 0,
                };
                assert(gs@.ghosts =~= Seq::<(Personality, GhostAgent)>::empty());
                Ok(gs)
            },
            Err(e) => Err(e),
        }
    }

    /// Builds a game on the classic maze.
    pub fn new() -> (r: Result<GameState, BoardError>)
        ensures
            built_from(classic_layout(), r),
    {
        GameState::from_board(&classic_board())
    }

    /// The board as it stands, written in the layout alphabet with `'p'` at the player.
    pub fn to_layout(&self) -> (r: Vec<Vec<char>>)
        ensures
            layout_view(&r) == encode_grid(self@.grid, self.pacman.pos),
    {
        encode_layout(&self.tiles, self.pacman.pos)
    }
}

/// A flag of a tile that the accessors list positions by.
#[derive(Debug, Clone, Copy, PartialEq, Eq, Structural)]
pub enum Feature {
    Wall,
    Fruit,
    PowerUp,
    Intersection,
    Special,
}

pub open spec fn has_feature(t: Tile, f: Feature) -> bool {
    match f {
        Feature::Wall => t.wall,
        Feature::Fruit => t.fruit,
        Feature::PowerUp => t.power_up,
        Feature::Intersection => t.intersection,
        Feature::Special => t.special,
    }
}

/// The positions whose tile has feature `f`.
pub open spec fn feature_set(g: Seq<Seq<Tile>>, f: Feature) -> Set<Position> {
    Set::new(|p: Position| in_grid(g, p) && has_feature(tile_at(g, p), f))
}

impl GameState {
    /// Every position of the grid whose tile has `f`, each once, row by row.
    pub fn positions_with(&self, f: Feature) -> (r: Vec<Position>)
        ensures
            r@.to_set() == feature_set(self@.grid, f),
            r@.no_duplicates(),
    {
        let ghost g = self@.grid;
        let mut out: Vec<Position> = Vec::new();
        let mut r: usize = 0;
        while r < self.tiles.len()
            invariant
                g == self@.grid,
                r <= g.len(),
                out@.no_duplicates(),
                forall|q: Position|
                    #[trigger] out@.contains(q) <==> (in_grid(g, q) && has_feature(tile_at(g, q), f)
                        && seen_before(r as int, 0, q.0 as int, q.1 as int)),
            decreases g.len() - r,
        {
            let row = &self.tiles[r];
            let mut c: usize = 0;
            while c < row.len()
                invariant
                    g == self@.grid,
                    r < g.len(),
                    row@ == g[r as int],
                    c <= row@.len(),
                    out@.no_duplicates(),
                    forall|q: Position|
                        #[trigger] out@.contains(q) <==> (in_grid(g, q) && has_feature(tile_at(g, q), f)
                            && seen_before(r as int, c as int, q.0 as int, q.1 as int)),
                decreases row@.len() - c,
            {
                let t = row[c];
                let hit = match f {
                    Feature::Wall => t.wall,
                    Feature::Fruit => t.fruit,
                    Feature::PowerUp => t.power_up,
                    Feature::Intersection => t.intersection,
                    Feature::Special => t.special,
                };
                let ghost before = out@;
                assert(tile_at(g, (r, c)) == t);
                assert(hit == has_feature(t, f));
                if hit {
                    proof {
                        if before.contains((r, c)) {
                            assert(seen_before(r as int, c as int, r as int, c as int));
                        }
                    }
                    out.push((r, c));
                }
                assert forall|q: Position|
                    #[trigger] out@.contains(q) <==> (in_grid(g, q) && has_feature(tile_at(g, q), f)
                        && seen_before(r as int, c as int + 1, q.0 as int, q.1 as int)) by {
                    if hit {
                        if before.contains(q) {
                            let k = choose|k: int| 0 <= k < before.len() && before[k] == q;
                            assert(out@[k] == q);
                        }
                        if q == (r, c) {
                            assert(out@[before.len() as int] == q);
                        }
                        if out@.contains(q) && q != (r, c) {
                            let k = choose|k: int| 0 <= k < out@.len() && out@[k] == q;
                            assert(before[k] == q);
                        }
                    }
                    if q == (r, c) && !hit {
                        assert(!before.contains(q));
                    }
                }
                c = c + 1;
            }
            r = r + 1;
        }
        proof {
            assert forall|q: Position| #[trigger] out@.to_set().contains(q) == feature_set(g, f).contains(q) by {
                if in_grid(g, q) {
                    assert(seen_before(r as int, 0, q.0 as int, q.1 as int));
                }
            }
            assert(out@.to_set() =~= feature_set(g, f));
        }
        out
    }

    pub fn walls(&self) -> (r: Vec<Position>)
        ensures
            r@.to_set() == feature_set(self@.grid, Feature::Wall),
            r@.no_duplicates(),
    {
        self.positions_with(Feature::Wall)
    }

    pub fn fruits(&self) -> (r: Vec<Position>)
        ensures
            r@.to_set() == feature_set(self@.grid, Feature::Fruit),
            r@.no_duplicates(),
    {
        self.positions_with(Feature::Fruit)
    }

    pub fn power_ups(&self) -> (r: Vec<Position>)
        ensures
            r@.to_set() == feature_set(self@.grid, Feature::PowerUp),
            r@.no_duplicates(),
    {
        self.positions_with(Feature::PowerUp)
    }

    pub fn intersections(&self) -> (r: Vec<Position>)
        ensures
            r@.to_set() == feature_set(self@.grid, Feature::Intersection),
            r@.no_duplicates(),
    {
        self.positions_with(Feature::Intersection)
    }

    pub fn special_intersections(&self) -> (r: Vec<Position>)
        ensures
            r@.to_set() == feature_set(self@.grid, Feature::Special),
            r@.no_duplicates(),
    {
        self.positions_with(Feature::Special)
    }

    /// Records the heading the player asks for; it takes effect on the next
    /// tick whose move in that heading is open.
    pub fn set_desired_direction(&mut self, dir: Direction)
        ensures
            final(self)@ == (GameModel {
                pacman: Pacman { desired_dir: dir, ..old(self)@.pacman },
                ..old(self)@
            }),
    {
        self.pacman.desired_dir = dir;
    }

    /// Places a ghost of the given personality, replacing any ghost that
    /// already has it; a new personality joins at the end.
    pub fn add_ghost(&mut self, who: Personality, ghost: GhostAgent)
        ensures
            ({
                let gs = old(self)@.ghosts;
                &&& final(self)@.grid == old(self)@.grid
                &&& final(self)@.pacman == old(self)@.pacman
                &&& final(self)@.score == old(self)@.score
                &&& (forall|k: int| 0 <= k < gs.len() ==> (#[trigger] gs[k]).0 != who)
                    ==> final(self)@.ghosts == gs.push((who, ghost))
                &&& (exists|k: int| 0 <= k < gs.len() && (#[trigger] gs[k]).0 == who) ==> exists|j: int|
                    0 <= j < gs.len() && gs[j].0 == who && (forall|k: int|
                        0 <= k < j ==> (#[trigger] gs[k]).0 != who) && final(self)@.ghosts
                        == gs.update(j, (who, ghost))
                &&& personalities_distinct(gs) ==> personalities_distinct(final(self)@.ghosts)
            }),
    {
        let mut i: usize = 0;
        while i < self.ghosts.len()
            invariant
                i <= self.ghosts@.len(),
                self@ == old(self)@,
                forall|k: int| 0 <= k < i ==> (#[trigger] self.ghosts@[k]).0 != who,
            decreases self.ghosts@.len() - i,
        {
            if self.ghosts[i].0 == who {
                self.ghosts.set(i, (who, ghost));
                assert(self.ghosts@ == old(self)@.ghosts.update(i as int, (who, ghost)));
                assert(personalities_distinct(old(self)@.ghosts) ==> personalities_distinct(self.ghosts@));
                return;
            }
            i = i + 1;
        }
        let ghost before = self.ghosts@;
        self.ghosts.push((who, ghost));
        assert forall|a: int, b: int|
            0 <= a < self.ghosts@.len() && 0 <= b < self.ghosts@.len() && a != b
                && personalities_distinct(before) implies (#[trigger] self.ghosts@[a]).0
            != (#[trigger] self.ghosts@[b]).0 by {
            if a < before.len() && b < before.len() {
                assert(before[a] == self.ghosts@[a] && before[b] == self.ghosts@[b]);
            } else if a < before.len() {
                assert(before[a] == self.ghosts@[a]);
            } else {
                assert(before[b] == self.ghosts@[b]);
            }
        }
    }
}

/// Moving the ghosts keeps their number, order and personalities.
pub proof fn lemma_ghosts_step_keeps_personalities(
    g: Seq<Seq<Tile>>,
    ghosts: Seq<(Personality, GhostAgent)>,
    player: Pacman,
)
    ensures
        ghosts_step(g, ghosts, player) is Ok ==> {
            let out = ghosts_step(g, ghosts, player)->Ok_0;
            &&& out.len() == ghosts.len()
            &&& forall|i: int| 0 <= i < ghosts.len() ==> (#[trigger] out[i]).0 == ghosts[i].0
        },
    decreases ghosts.len(),
{
    if ghosts.len() > 0 {
        lemma_ghosts_step_keeps_personalities(g, ghosts.drop_last(), player);
    }
}

/// Once moving the first `n` ghosts fails, moving them all fails the same way.
proof fn lemma_ghosts_step_err_extends(
    g: Seq<Seq<Tile>>,
    ghosts: Seq<(Personality, GhostAgent)>,
    player: Pacman,
    n: int,
    e: GameError,
)
    requires
        0 <= n <= ghosts.len(),
        ghosts_step(g, ghosts.take(n), player) == Err::<Seq<(Personality, GhostAgent)>, GameError>(e),
    ensures
        ghosts_step(g, ghosts, player) == Err::<Seq<(Personality, GhostAgent)>, GameError>(e),
    decreases ghosts.len() - n,
{
    if n < ghosts.len() {
        assert(ghosts.take(n + 1).drop_last() =~= ghosts.take(n));
        lemma_ghosts_step_err_extends(g, ghosts, player, n + 1, e);
    } else {
        assert(ghosts.take(n) =~= ghosts);
    }
}

} // verus!
