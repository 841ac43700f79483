use pacman::board::BoardError;
use pacman::classic::classic_board;
use pacman::direction::{opposite_direction, Direction, GameError};
use pacman::game::GameState;
use pacman::ghost::{choose_heading, target_tile, GhostAgent, Mode, Personality};

fn layout(rows: &[&str]) -> Vec<Vec<char>> {
    rows.iter().map(|r| r.chars().collect()).collect()
}

#[test]
fn construct_deconstruct_board() {
    let gs = GameState::new().unwrap();

    let mut test_board: Vec<Vec<char>> = vec![vec![' '; 28]; 36];

    for fruit in gs.fruits() {
        test_board[fruit.0][fruit.1] = '.';
    }

    for wall in gs.walls() {
        test_board[wall.0][wall.1] = 'w';
    }

    for power_up in gs.power_ups() {
        test_board[power_up.0][power_up.1] = '*';
    }

    for intersection in gs.intersections() {
        if test_board[intersection.0][intersection.1] == ' ' {
            test_board[intersection.0][intersection.1] = 'j';
        } else {
            test_board[intersection.0][intersection.1] = 'i';
        }
    }

    for sp_intersection in gs.special_intersections() {
        if test_board[sp_intersection.0][sp_intersection.1] == 'j' {
            test_board[sp_intersection.0][sp_intersection.1] = 'k';
        } else {
            test_board[sp_intersection.0][sp_intersection.1] = 'o';
        }
    }

    test_board[gs.pacman.pos.0][gs.pacman.pos.1] = 'p';

    for r in &test_board {
        println!("{:?}", r);
    }

    assert_eq!(test_board, classic_board());
}

#[test]
fn tick_test() {
    let mut gs = GameState::new().unwrap();

    for _ in 0..4 {
        gs.tick().unwrap();
        println!("Score: {:?}, Pacman: {:?}", gs.score, gs.pacman);
    }

    assert_eq!(gs.score, 3);
}

#[test]
fn direction_ordering() {
    assert!(
        Direction::North > Direction::West
            && Direction::West > Direction::South
            && Direction::South > Direction::East
    )
}

#[test]
fn classic_board_round_trips() {
    let gs = GameState::new().unwrap();
    assert_eq!(gs.to_layout(), classic_board());
    assert_eq!(gs.pacman.pos, (26, 14));
    assert_eq!(gs.score, 0);
    assert!(gs.ghosts.is_empty());
}

#[test]
fn small_board_round_trips() {
    let b = layout(&["wwwww", "wi*kw", "wojpw", "w. ww"]);
    let gs = GameState::from_board(&b).unwrap();
    assert_eq!(gs.to_layout(), b);
}

#[test]
fn unknown_symbol_is_rejected() {
    let b = layout(&["www", "wpx", "www"]);
    assert_eq!(GameState::from_board(&b).unwrap_err(), BoardError::InvalidBoardSymbol);
}

#[test]
fn unknown_symbol_wins_over_missing_start() {
    let b = layout(&["www", "w?w"]);
    assert_eq!(GameState::from_board(&b).unwrap_err(), BoardError::InvalidBoardSymbol);
}

#[test]
fn missing_start_is_rejected() {
    let b = layout(&["www", "w.w", "www"]);
    assert_eq!(GameState::from_board(&b).unwrap_err(), BoardError::MissingOrDuplicateStart);
}

#[test]
fn duplicate_start_is_rejected() {
    let b = layout(&["wwww", "wppw", "wwww"]);
    assert_eq!(GameState::from_board(&b).unwrap_err(), BoardError::MissingOrDuplicateStart);
}

#[test]
fn empty_layout_has_no_start() {
    let b: Vec<Vec<char>> = Vec::new();
    assert_eq!(GameState::from_board(&b).unwrap_err(), BoardError::MissingOrDuplicateStart);
}

#[test]
fn opposite_is_an_involution() {
    for d in [Direction::North, Direction::South, Direction::East, Direction::West] {
        assert_eq!(opposite_direction(&opposite_direction(&d)), d);
        assert_ne!(opposite_direction(&d), d);
    }
    assert_eq!(opposite_direction(&Direction::North), Direction::South);
    assert_eq!(opposite_direction(&Direction::East), Direction::West);
}

#[test]
fn step_west_onto_fruit() {
    let mut gs = GameState::from_board(&layout(&["wwwww", "w .pw", "wwwww"])).unwrap();
    gs.tick().unwrap();
    assert_eq!(gs.pacman.pos, (1, 2));
    assert_eq!(gs.score, 1);
    assert!(!gs.fruits().contains(&(1, 2)));
    assert!(gs.fruits().is_empty());
}

#[test]
fn power_up_scores_ten() {
    let mut gs = GameState::from_board(&layout(&["wwwww", "w *pw", "wwwww"])).unwrap();
    gs.tick().unwrap();
    assert_eq!(gs.score, 10);
    assert!(gs.power_ups().is_empty());
    gs.tick().unwrap();
    assert_eq!(gs.pacman.pos, (1, 1));
    assert_eq!(gs.score, 10);
}

#[test]
fn four_ticks_on_classic_board() {
    let mut gs = GameState::new().unwrap();
    let mut scores = Vec::new();
    for _ in 0..4 {
        gs.tick().unwrap();
        scores.push(gs.score);
    }
    assert_eq!(scores, vec![0, 1, 2, 3]);
    assert_eq!(gs.pacman.pos, (26, 10));
    assert_eq!(gs.pacman.current_dir, Direction::West);
}

#[test]
fn score_never_decreases() {
    let mut gs = GameState::new().unwrap();
    let turns = [Direction::West, Direction::North, Direction::East, Direction::South];
    let mut last = gs.score;
    for i in 0..200 {
        gs.set_desired_direction(turns[(i / 7) % 4]);
        gs.tick().unwrap();
        let d = gs.score - last;
        assert!(d == 0 || d == 1 || d == 10);
        last = gs.score;
    }
    assert!(gs.score > 0);
}

#[test]
fn blocked_player_stays_put() {
    let mut gs = GameState::from_board(&layout(&["www", "wpw", "www"])).unwrap();
    gs.set_desired_direction(Direction::North);
    gs.tick().unwrap();
    assert_eq!(gs.pacman.pos, (1, 1));
    assert_eq!(gs.score, 0);
    gs.tick().unwrap();
    assert_eq!(gs.pacman.pos, (1, 1));
}

#[test]
fn desired_heading_waits_for_an_opening() {
    // Walking West along the corridor, asking for North until the gap.
    let mut gs = GameState::from_board(&layout(&["wwwww", "w www", "w  pw", "wwwww"])).unwrap();
    gs.set_desired_direction(Direction::North);
    gs.tick().unwrap();
    assert_eq!(gs.pacman.pos, (2, 2));
    assert_eq!(gs.pacman.current_dir, Direction::West);
    gs.tick().unwrap();
    assert_eq!(gs.pacman.pos, (2, 1));
    gs.tick().unwrap();
    assert_eq!(gs.pacman.pos, (1, 1));
    assert_eq!(gs.pacman.current_dir, Direction::North);
}

#[test]
fn fruit_scores_only_once() {
    let mut gs = GameState::from_board(&layout(&["wwwww", "w.p w", "wwwww"])).unwrap();
    gs.tick().unwrap();
    assert_eq!(gs.pacman.pos, (1, 1));
    assert_eq!(gs.score, 1);
    gs.set_desired_direction(Direction::East);
    gs.tick().unwrap();
    assert_eq!(gs.pacman.pos, (1, 2));
    gs.set_desired_direction(Direction::West);
    gs.tick().unwrap();
    assert_eq!(gs.pacman.pos, (1, 1));
    assert_eq!(gs.score, 1);
}

#[test]
fn stepping_off_the_grid_fails_and_changes_nothing() {
    let mut gs = GameState::from_board(&layout(&["p."])).unwrap();
    assert_eq!(gs.tick(), Err(GameError::OutOfBounds));
    assert_eq!(gs.pacman.pos, (0, 0));
    assert_eq!(gs.score, 0);
}

#[test]
fn boxed_in_ghost_has_no_legal_direction() {
    let mut gs = GameState::from_board(&layout(&["wwwww", "w wpw", "wwwww"])).unwrap();
    gs.add_ghost(Personality::Blinky, GhostAgent::new((1, 1), Mode::Chase));
    assert_eq!(gs.tick(), Err(GameError::NoLegalDirection));
    assert_eq!(gs.ghosts[0].1.pos, (1, 1));
}

#[test]
fn chasing_ghost_heads_for_the_player() {
    let b = layout(&["wwwwwww", "www www", "w  j pw", "www www", "wwwwwww"]);
    let mut gs = GameState::from_board(&b).unwrap();
    gs.add_ghost(Personality::Blinky, GhostAgent::new((2, 3), Mode::Chase));
    gs.tick().unwrap();
    assert_eq!(gs.pacman.pos, (2, 4));
    assert_eq!(gs.ghosts[0].1.dir, Direction::East);
    assert_eq!(gs.ghosts[0].1.pos, (2, 4));
}

#[test]
fn special_intersection_forbids_north_and_ties_go_west() {
    let b = layout(&["wwwwwww", "wwwpwww", "w  k  w", "wwwwwww"]);
    let mut gs = GameState::from_board(&b).unwrap();
    gs.set_desired_direction(Direction::North);
    gs.add_ghost(Personality::Blinky, GhostAgent::new((2, 3), Mode::Chase));
    gs.tick().unwrap();
    assert_eq!(gs.pacman.pos, (1, 3));
    assert_eq!(gs.ghosts[0].1.dir, Direction::West);
    assert_eq!(gs.ghosts[0].1.pos, (2, 2));
}

#[test]
fn plain_intersection_allows_north() {
    let b = layout(&["wwwwwww", "wwwpwww", "w  j  w", "wwwwwww"]);
    let mut gs = GameState::from_board(&b).unwrap();
    gs.set_desired_direction(Direction::North);
    gs.add_ghost(Personality::Blinky, GhostAgent::new((2, 3), Mode::Chase));
    gs.tick().unwrap();
    assert_eq!(gs.ghosts[0].1.dir, Direction::North);
    assert_eq!(gs.ghosts[0].1.pos, (1, 3));
}

#[test]
fn ghost_off_intersection_keeps_heading_or_turns_at_wall() {
    let b = layout(&["wwwww", "w   w", "w p w", "wwwww"]);
    let mut gs = GameState::from_board(&b).unwrap();
    gs.set_desired_direction(Direction::North);
    gs.add_ghost(Personality::Clyde, GhostAgent::new((2, 3), Mode::Scatter));
    gs.tick().unwrap();
    assert_eq!(gs.ghosts[0].1.pos, (1, 3));
    assert_eq!(gs.ghosts[0].1.dir, Direction::North);
    gs.tick().unwrap();
    // North is a wall now: the first legal heading in the order North, West, South, East.
    assert_eq!(gs.ghosts[0].1.dir, Direction::West);
    assert_eq!(gs.ghosts[0].1.pos, (1, 2));
}

#[test]
fn add_ghost_replaces_same_personality() {
    let mut gs = GameState::from_board(&layout(&["p"])).unwrap();
    gs.add_ghost(Personality::Inky, GhostAgent::new((5, 5), Mode::Chase));
    gs.add_ghost(Personality::Pinky, GhostAgent::new((6, 6), Mode::Chase));
    gs.add_ghost(Personality::Inky, GhostAgent::new((7, 7), Mode::Scatter));
    assert_eq!(gs.ghosts.len(), 2);
    assert_eq!(gs.ghosts[0].0, Personality::Inky);
    assert_eq!(gs.ghosts[0].1.pos, (7, 7));
    assert_eq!(gs.ghosts[0].1.mode, Mode::Scatter);
    assert_eq!(gs.ghosts[1].0, Personality::Pinky);
}

#[test]
fn tie_goes_to_the_highest_direction() {
    let all = vec![Direction::East, Direction::South, Direction::West, Direction::North];
    assert_eq!(choose_heading(&all, (5, 5), (5, 5)), Direction::North);
    let no_north = vec![Direction::East, Direction::West, Direction::South];
    assert_eq!(choose_heading(&no_north, (5, 5), (5, 5)), Direction::West);
    let two = vec![Direction::South, Direction::East];
    assert_eq!(choose_heading(&two, (5, 5), (5, 5)), Direction::South);
}

#[test]
fn nearest_direction_wins() {
    let all = vec![Direction::North, Direction::West, Direction::South, Direction::East];
    assert_eq!(choose_heading(&all, (5, 5), (9, 5)), Direction::South);
    assert_eq!(choose_heading(&all, (5, 5), (5, 0)), Direction::West);
    assert_eq!(choose_heading(&all, (5, 5), (4, 9)), Direction::East);
}

#[test]
fn ghost_targets() {
    let g = GhostAgent::new((12, 4), Mode::Chase);
    assert_eq!(target_tile(Personality::Blinky, &g, (10, 10), Direction::West), (10, 10));
    assert_eq!(target_tile(Personality::Pinky, &g, (10, 10), Direction::West), (10, 6));
    assert_eq!(target_tile(Personality::Pinky, &g, (2, 10), Direction::North), (0, 10));
    assert_eq!(target_tile(Personality::Inky, &g, (10, 10), Direction::North), (4, 16));
    assert_eq!(target_tile(Personality::Clyde, &g, (20, 10), Direction::West), (20, 10));
    assert_eq!(target_tile(Personality::Clyde, &g, (10, 10), Direction::West), (35, 0));
    assert_eq!(target_tile(Personality::Clyde, &g, (13, 5), Direction::West), (35, 0));
    let s = GhostAgent::new((12, 4), Mode::Scatter);
    assert_eq!(target_tile(Personality::Blinky, &s, (10, 10), Direction::West), (0, 25));
    assert_eq!(target_tile(Personality::Inky, &s, (10, 10), Direction::West), (35, 27));
    let f = GhostAgent::new((12, 4), Mode::Frightened);
    assert_eq!(target_tile(Personality::Pinky, &f, (10, 10), Direction::West), (0, 0));
}

#[test]
fn stepping_off_the_east_edge_fails() {
    let mut gs = GameState::from_board(&layout(&["wp"])).unwrap();
    gs.set_desired_direction(Direction::East);
    assert_eq!(gs.tick(), Err(GameError::OutOfBounds));
    assert_eq!(gs.pacman.pos, (0, 1));
    assert_eq!(gs.pacman.current_dir, Direction::West);
}

#[test]
fn stepping_off_the_south_edge_fails() {
    let mut gs = GameState::from_board(&layout(&["w", "p"])).unwrap();
    gs.set_desired_direction(Direction::South);
    assert_eq!(gs.tick(), Err(GameError::OutOfBounds));
    assert_eq!(gs.pacman.pos, (1, 0));
}

#[test]
fn stepping_past_a_short_row_fails() {
    let mut gs = GameState::from_board(&layout(&["wwww", "w p", "ww"])).unwrap();
    gs.set_desired_direction(Direction::East);
    assert_eq!(gs.tick(), Err(GameError::OutOfBounds));
    assert_eq!(gs.pacman.pos, (1, 2));
}

#[test]
fn classic_tunnel_ends_fail_at_both_edges() {
    let mut gs = GameState::new().unwrap();
    gs.pacman.pos = (17, 27);
    gs.set_desired_direction(Direction::East);
    assert_eq!(gs.tick(), Err(GameError::OutOfBounds));
    assert_eq!(gs.pacman.pos, (17, 27));
    gs.pacman.pos = (17, 0);
    gs.set_desired_direction(Direction::West);
    assert_eq!(gs.tick(), Err(GameError::OutOfBounds));
    assert_eq!(gs.pacman.pos, (17, 0));
}

#[test]
fn ghost_stepping_off_the_grid_fails_the_tick() {
    let mut gs = GameState::from_board(&layout(&["wwwww", "wp  ", "wwwww"])).unwrap();
    let mut g = GhostAgent::new((1, 3), Mode::Scatter);
    g.dir = Direction::East;
    gs.add_ghost(Personality::Pinky, g);
    assert_eq!(gs.tick(), Err(GameError::OutOfBounds));
    assert_eq!(gs.ghosts[0].1.pos, (1, 3));
    assert_eq!(gs.pacman.pos, (1, 1));
}
