use vstd::prelude::*;
use crate::board::{
    dest, encode_grid, in_grid, is_start, is_wall, lemma_layout_round_trip, symbols_valid, tile_at,
    unique_start,
};
use crate::direction::Position;
use crate::game::{gain, initial_model, player_move, tick_spec, GameModel, Pacman};

verus! {

/// The state after `n` ticks from `m`, or the first failure.
pub open spec fn run(m: GameModel, n: nat) -> Result<GameModel, crate::direction::GameError>
    decreases n,
{
    if n == 0 {
        Ok(m)
    } else {
        match run(m, (n - 1) as nat) {
            Ok(m1) => tick_spec(m1),
            Err(e) => Err(e),
        }
    }
}

/// A game built from a well-formed layout, written back in the layout
/// alphabet, is that layout.
pub proof fn lemma_build_then_encode(b: Seq<Seq<char>>, start: Position)
    requires
        symbols_valid(b),
        unique_start(b),
        is_start(b, start.0 as int, start.1 as int),
    ensures
        encode_grid(initial_model(b, start).grid, initial_model(b, start).pacman.pos) == b,
{
    lemma_layout_round_trip(b, start);
}

/// A tick raises the score by 0, by 1 (a fruit) or by 10 (a power-up), and never lowers it.
pub proof fn lemma_tick_score_step(m: GameModel)
    requires
        tick_spec(m) is Ok,
    ensures
        ({
            let d = tick_spec(m)->Ok_0.score - m.score;
            d == 0 || d == 1 || d == 10
        }),
{
}

/// Over any run of ticks the score never decreases.
pub proof fn lemma_score_monotone(m: GameModel, n: nat)
    requires
        run(m, n) is Ok,
    ensures
        run(m, n)->Ok_0.score >= m.score,
    decreases n,
{
    if n > 0 {
        lemma_score_monotone(m, (n - 1) as nat);
        lemma_tick_score_step(run(m, (n - 1) as nat)->Ok_0);
    }
}

/// When both the desired and the current heading lead into walls, a tick
/// leaves the player, the grid and the score as they were.
pub proof fn lemma_blocked_player_stays(m: GameModel)
    requires
        dest(m.grid, m.pacman.pos, m.pacman.desired_dir) is Ok,
        is_wall(m.grid, dest(m.grid, m.pacman.pos, m.pacman.desired_dir)->Ok_0),
        dest(m.grid, m.pacman.pos, m.pacman.current_dir) is Ok,
        is_wall(m.grid, dest(m.grid, m.pacman.pos, m.pacman.current_dir)->Ok_0),
    ensures
        player_move(m.grid, m.pacman) == Ok::<Option<Pacman>, crate::direction::GameError>(None),
        tick_spec(m) is Ok ==> {
            &&& tick_spec(m)->Ok_0.pacman == m.pacman
            &&& tick_spec(m)->Ok_0.grid == m.grid
            &&& tick_spec(m)->Ok_0.score == m.score
        },
{
}

/// A tick never puts a fruit or a power-up where there was none.
pub proof fn lemma_tick_adds_no_items(m: GameModel, p: Position)
    requires
        tick_spec(m) is Ok,
    ensures
        tile_at(tick_spec(m)->Ok_0.grid, p).fruit ==> tile_at(m.grid, p).fruit,
        tile_at(tick_spec(m)->Ok_0.grid, p).power_up ==> tile_at(m.grid, p).power_up,
{
    let m2 = tick_spec(m)->Ok_0;
    if m2.grid != m.grid {
        let q = m2.pacman.pos;
        assert(in_grid(m.grid, q));
        if p != q {
            assert(tile_at(m2.grid, p) == tile_at(m.grid, p));
        }
    }
}

/// No run of ticks puts a fruit or a power-up where there was none.
pub proof fn lemma_run_adds_no_items(m: GameModel, n: nat, p: Position)
    requires
        run(m, n) is Ok,
    ensures
        tile_at(run(m, n)->Ok_0.grid, p).fruit ==> tile_at(m.grid, p).fruit,
        tile_at(run(m, n)->Ok_0.grid, p).power_up ==> tile_at(m.grid, p).power_up,
    decreases n,
{
    if n > 0 {
        lemma_run_adds_no_items(m, (n - 1) as nat, p);
        lemma_tick_adds_no_items(run(m, (n - 1) as nat)->Ok_0, p);
    }
}

/// Arriving on a fruit takes it and scores 1, and changes no other tile.
pub proof fn lemma_fruit_taken(m: GameModel, p: Position)
    requires
        tick_spec(m) is Ok,
        tick_spec(m)->Ok_0.pacman.pos == p,
        player_move(m.grid, m.pacman) is Ok,
        player_move(m.grid, m.pacman)->Ok_0 is Some,
        tile_at(m.grid, p).fruit,
    ensures
        tick_spec(m)->Ok_0.score == m.score + 1,
        !tile_at(tick_spec(m)->Ok_0.grid, p).fruit,
        forall|q: Position| q != p ==> tile_at(tick_spec(m)->Ok_0.grid, q) == tile_at(m.grid, q),
{
    let m2 = tick_spec(m)->Ok_0;
    assert(in_grid(m.grid, p));
    assert forall|q: Position| q != p implies tile_at(m2.grid, q) == tile_at(m.grid, q) by {}
}

/// A fruit scores once: after the tick that takes it at `p`, and any number
/// of further ticks, arriving at `p` again scores nothing (`p` held no power-up).
pub proof fn lemma_fruit_scores_once(m: GameModel, n: nat, p: Position)
    requires
        tick_spec(m) is Ok,
        tick_spec(m)->Ok_0.pacman.pos == p,
        player_move(m.grid, m.pacman) is Ok,
        player_move(m.grid, m.pacman)->Ok_0 is Some,
        tile_at(m.grid, p).fruit,
        !tile_at(m.grid, p).power_up,
        run(tick_spec(m)->Ok_0, n) is Ok,
        tick_spec(run(tick_spec(m)->Ok_0, n)->Ok_0) is Ok,
        player_move(run(tick_spec(m)->Ok_0, n)->Ok_0.grid, run(tick_spec(m)->Ok_0, n)->Ok_0.pacman) is Ok,
        player_move(run(tick_spec(m)->Ok_0, n)->Ok_0.grid, run(tick_spec(m)->Ok_0, n)->Ok_0.pacman)->Ok_0 is Some,
        tick_spec(run(tick_spec(m)->Ok_0, n)->Ok_0)->Ok_0.pacman.pos == p,
    ensures
        tick_spec(m)->Ok_0.score == m.score + 1,
        tick_spec(run(tick_spec(m)->Ok_0, n)->Ok_0)->Ok_0.score == run(tick_spec(m)->Ok_0, n)->Ok_0.score,
{
    let m2 = tick_spec(m)->Ok_0;
    lemma_fruit_taken(m, p);
    lemma_tick_adds_no_items(m, p);
    lemma_run_adds_no_items(m2, n, p);
    let m3 = run(m2, n)->Ok_0;
    assert(gain(m3.grid, p) == 0);
}

} // verus!
