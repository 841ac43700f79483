use vstd::prelude::*;
use crate::direction::{get_next_square, next_square, Direction, GameError, Position};

verus! {

/// What a single grid cell holds, as independent flags.
#[derive(Debug, Clone, Copy, PartialEq, Eq, Structural)]
pub struct Tile {
    pub wall: bool,
    pub fruit: bool,
    pub power_up: bool,
    /// Ghosts re-decide their heading on every tick spent here.
    pub intersection: bool,
    /// An intersection where a ghost may not choose North.
    pub special: bool,
}

/// Reasons a layout cannot be turned into a game.
#[derive(Debug, Clone, Copy, PartialEq, Eq, Structural)]
pub enum BoardError {
    /// A cell holds a character outside the layout alphabet.
    InvalidBoardSymbol,
    /// The layout has no start cell `'p'`, or more than one.
    MissingOrDuplicateStart,
}

pub open spec fn empty_tile() -> Tile {
    Tile { wall: false, fruit: false, power_up: false, intersection: false, special: false }
}

/// The tile a layout character stands for; `'p'` marks the start and is an empty tile.
pub open spec fn tile_of_symbol(ch: char) -> Option<Tile> {
    let e = empty_tile();
    if ch == 'w' {
        Some(Tile { wall: true, ..e })
    } else if ch == '.' {
        Some(Tile { fruit: true, ..e })
    } else if ch == '*' {
        Some(Tile { power_up: true, ..e })
    } else if ch == 'i' {
        Some(Tile { intersection: true, fruit: true, ..e })
    } else if ch == 'j' {
        Some(Tile { intersection: true, ..e })
    } else if ch == 'o' {
        Some(Tile { special: true, intersection: true, fruit: true, ..e })
    } else if ch == 'k' {
        Some(Tile { special: true, intersection: true, ..e })
    } else if ch == 'p' || ch == ' ' {
        Some(e)
    } else {
        None
    }
}

/// The layout character for a tile: structural roles first, then what lies on them.
pub open spec fn symbol_of_tile(t: Tile) -> char {
    if t.wall {
        'w'
    } else if t.special {
        if t.fruit { 'o' } else { 'k' }
    } else if t.intersection {
        if t.fruit { 'i' } else { 'j' }
    } else if t.power_up {
        '*'
    } else if t.fruit {
        '.'
    } else {
        ' '
    }
}

pub open spec fn in_layout(b: Seq<Seq<char>>, r: int, c: int) -> bool {
    0 <= r < b.len() && 0 <= c < b[r].len()
}

pub open spec fn symbols_valid(b: Seq<Seq<char>>) -> bool {
    forall|r: int, c: int| #[trigger] in_layout(b, r, c) ==> tile_of_symbol(b[r][c]).is_some()
}

pub open spec fn is_start(b: Seq<Seq<char>>, r: int, c: int) -> bool {
    in_layout(b, r, c) && b[r][c] == 'p'
}

/// Exactly one cell of the layout is the start cell.
pub open spec fn unique_start(b: Seq<Seq<char>>) -> bool {
    exists|r: int, c: int|
        #[trigger] is_start(b, r, c) && forall|r2: int, c2: int|
            #[trigger] is_start(b, r2, c2) ==> r2 == r && c2 == c
}

/// The grid of tiles a layout decodes to.
pub open spec fn decode_grid(b: Seq<Seq<char>>) -> Seq<Seq<Tile>> {
    Seq::new(
        b.len(),
        |r: int| Seq::new(b[r].len(), |c: int| tile_of_symbol(b[r][c]).unwrap_or(empty_tile())),
    )
}

/// The layout a grid encodes to, with `'p'` at `start`.
pub open spec fn encode_grid(g: Seq<Seq<Tile>>, start: Position) -> Seq<Seq<char>> {
    Seq::new(
        g.len(),
        |r: int|
            Seq::new(
                g[r].len(),
                |c: int|
                    if r == start.0 && c == start.1 {
                        'p'
                    } else {
                        symbol_of_tile(g[r][c])
                    },
            ),
    )
}

pub open spec fn grid_view(tiles: &Vec<Vec<Tile>>) -> Seq<Seq<Tile>> {
    tiles@.map_values(|row: Vec<Tile>| row@)
}

pub open spec fn in_grid(g: Seq<Seq<Tile>>, p: Position) -> bool {
    p.0 < g.len() && p.1 < g[p.0 as int].len()
}

/// The tile at `p`; positions beyond the grid hold nothing.
pub open spec fn tile_at(g: Seq<Seq<Tile>>, p: Position) -> Tile {
    if in_grid(g, p) {
        g[p.0 as int][p.1 as int]
    } else {
        empty_tile()
    }
}

pub open spec fn is_wall(g: Seq<Seq<Tile>>, p: Position) -> bool {
    tile_at(g, p).wall
}

/// The grid with the tile at `p` replaced; unchanged when `p` lies beyond it.
pub open spec fn set_tile(g: Seq<Seq<Tile>>, p: Position, t: Tile) -> Seq<Seq<Tile>> {
    if in_grid(g, p) {
        g.update(p.0 as int, g[p.0 as int].update(p.1 as int, t))
    } else {
        g
    }
}

/// The tile one step from `p` along `d`, or `OutOfBounds` when that step has
/// no tile of the grid to land on.
pub open spec fn dest(g: Seq<Seq<Tile>>, p: Position, d: Direction) -> Result<Position, GameError> {
    match next_square(p, d) {
        Ok(t) => if in_grid(g, t) {
            Ok(t)
        } else {
            Err(GameError::OutOfBounds)
        },
        Err(e) => Err(e),
    }
}

pub fn dest_in(tiles: &Vec<Vec<Tile>>, p: Position, d: Direction) -> (r: Result<Position, GameError>)
    ensures
        r == dest(grid_view(tiles), p, d),
{
    match get_next_square(&p, &d) {
        Ok(t) => if t.0 < tiles.len() && t.1 < tiles[t.0].len() {
            Ok(t)
        } else {
            Err(GameError::OutOfBounds)
        },
        Err(e) => Err(e),
    }
}

pub fn symbol_tile(ch: char) -> (r: Option<Tile>)
    ensures
        r == tile_of_symbol(ch),
{
    let e = Tile { wall: false, fruit: false, power_up: false, intersection: false, special: false };
    match ch {
        'w' => Some(Tile { wall: true, ..e }),
        '.' => Some(Tile { fruit: true, ..e }),
        '*' => Some(Tile { power_up: true, ..e }),
        'i' => Some(Tile { intersection: true, fruit: true, ..e }),
        'j' => Some(Tile { intersection: true, ..e }),
        'o' => Some(Tile { special: true, intersection: true, fruit: true, ..e }),
        'k' => Some(Tile { special: true, intersection: true, ..e }),
        'p' | ' ' => Some(e),
        _ => None,
    }
}

pub fn tile_symbol(t: &Tile) -> (r: char)
    ensures
        r == symbol_of_tile(*t),
{
    if t.wall {
        'w'
    } else if t.special {
        if t.fruit { 'o' } else { 'k' }
    } else if t.intersection {
        if t.fruit { 'i' } else { 'j' }
    } else if t.power_up {
        '*'
    } else if t.fruit {
        '.'
    } else {
        ' '
    }
}

pub fn tile_in(tiles: &Vec<Vec<Tile>>, p: Position) -> (r: Tile)
    ensures
        r == tile_at(grid_view(tiles), p),
{
    if p.0 < tiles.len() && p.1 < tiles[p.0].len() {
        tiles[p.0][p.1]
    } else {
        Tile { wall: false, fruit: false, power_up: false, intersection: false, special: false }
    }
}

pub fn wall_at(tiles: &Vec<Vec<Tile>>, p: Position) -> (r: bool)
    ensures
        r == is_wall(grid_view(tiles), p),
{
    tile_in(tiles, p).wall
}

pub open spec fn layout_view(board: &Vec<Vec<char>>) -> Seq<Seq<char>> {
    board@.map_values(|row: Vec<char>| row@)
}

/// Cell `(i, j)` comes before cell `(r, c)` in row-major order.
pub open spec fn seen_before(r: int, c: int, i: int, j: int) -> bool {
    i < r || (i == r && j < c)
}

/// The start cells among those before `(r, c)` are exactly as `start` and `dup` record.
pub open spec fn starts_recorded(
    b: Seq<Seq<char>>,
    r: int,
    c: int,
    start: Option<Position>,
    dup: bool,
) -> bool {
    &&& start is None ==> forall|i: int, j: int|
        #[trigger] is_start(b, i, j) ==> !seen_before(r, c, i, j)
    &&& start matches Some(p) ==> {
        &&& is_start(b, p.0 as int, p.1 as int)
        &&& seen_before(r, c, p.0 as int, p.1 as int)
        &&& !dup ==> forall|i: int, j: int|
            #[trigger] is_start(b, i, j) && seen_before(r, c, i, j) ==> i == p.0 && j == p.1
        &&& dup ==> exists|i: int, j: int|
            #[trigger] is_start(b, i, j) && !(i == p.0 && j == p.1)
    }
    &&& dup ==> start is Some
}

/// Decodes a layout into its grid of tiles and its start cell.
///
/// Fails with `InvalidBoardSymbol` when any cell holds a character outside the
/// alphabet, and otherwise with `MissingOrDuplicateStart` unless exactly one
/// cell is `'p'`.
pub fn decode_layout(board: &Vec<Vec<char>>) -> (r: Result<(Vec<Vec<Tile>>, Position), BoardError>)
    ensures
        match r {
            Ok((tiles, start)) => {
                &&& symbols_valid(layout_view(board))
                &&& unique_start(layout_view(board))
                &&& grid_view(&tiles) == decode_grid(layout_view(board))
                &&& is_start(layout_view(board), start.0 as int, start.1 as int)
            },
            Err(e) => {
                &&& !(symbols_valid(layout_view(board)) && unique_start(layout_view(board)))
                &&& e == if symbols_valid(layout_view(board)) {
                    BoardError::MissingOrDuplicateStart
                } else {
                    BoardError::InvalidBoardSymbol
                }
            },
        },
{
    let ghost b = layout_view(board);
    let mut tiles: Vec<Vec<Tile>> = Vec::new();
    let mut start: Option<Position> = None;
    let mut dup = false;
    let mut r: usize = 0;
    while r < board.len()
        invariant
            b == layout_view(board),
            r <= board.len(),
            tiles@.len() == r,
            forall|i: int| 0 <= i < r ==> #[trigger] tiles@[i]@ == decode_grid(b)[i],
            forall|i: int, j: int|
                #![trigger b[i][j]]
                0 <= i < r && in_layout(b, i, j) ==> tile_of_symbol(b[i][j]).is_some(),
            starts_recorded(b, r as int, 0, start, dup),
        decreases board.len() - r,
    {
        let row = &board[r];
        let mut out: Vec<Tile> = Vec::new();
        let mut c: usize = 0;
        while c < row.len()
            invariant
                b == layout_view(board),
                r < board.len(),
                row@ == b[r as int],
                c <= row.len(),
                out@.len() == c,
                forall|j: int| 0 <= j < c ==> #[trigger] out@[j] == decode_grid(b)[r as int][j],
                forall|j: int| 0 <= j < c ==> tile_of_symbol(#[trigger] b[r as int][j]).is_some(),
                starts_recorded(b, r as int, c as int, start, dup),
            decreases row.len() - c,
        {
            let ch = row[c];
            match symbol_tile(ch) {
                Some(t) => {
                    out.push(t);
                },
                None => {
                    assert(in_layout(b, r as int, c as int));
                    return Err(BoardError::InvalidBoardSymbol);
                },
            }
            if ch == 'p' {
                assert(is_start(b, r as int, c as int));
                match start {
                    None => {
                        start = Some((r, c));
                    },
                    Some(_) => {
                        dup = true;
                    },
                }
            }
            c = c + 1;
        }
        assert forall|i: int, j: int| #[trigger] is_start(b, i, j) && seen_before(r as int + 1, 0, i, j)
            implies seen_before(r as int, c as int, i, j) by {}
        assert forall|i: int, j: int|
            #![trigger b[i][j]]
            0 <= i < r + 1 && in_layout(b, i, j) implies tile_of_symbol(b[i][j]).is_some() by {
            if i == r {
                assert(0 <= j < c);
            }
        }
        assert(out@ == decode_grid(b)[r as int]);
        tiles.push(out);
        r = r + 1;
    }
    assert(symbols_valid(b));
    proof {
        assert forall|i: int| 0 <= i < tiles@.len() implies #[trigger] grid_view(&tiles)[i] == decode_grid(b)[i] by {}
        assert(grid_view(&tiles) =~= decode_grid(b));
    }
    match start {
        None => {
            assert(!unique_start(b));
            Err(BoardError::MissingOrDuplicateStart)
        },
        Some(p) => {
            if dup {
                assert(!unique_start(b));
                Err(BoardError::MissingOrDuplicateStart)
            } else {
                assert(is_start(b, p.0 as int, p.1 as int));
                assert(unique_start(b));
                Ok((tiles, p))
            }
        },
    }
}

/// Writes a grid back as a layout, with `'p'` at `start`.
pub fn encode_layout(tiles: &Vec<Vec<Tile>>, start: Position) -> (r: Vec<Vec<char>>)
    ensures
        layout_view(&r) == encode_grid(grid_view(tiles), start),
{
    let ghost g = grid_view(tiles);
    let ghost e = encode_grid(g, start);
    let mut out: Vec<Vec<char>> = Vec::new();
    let mut r: usize = 0;
    while r < tiles.len()
        invariant
            g == grid_view(tiles),
            e == encode_grid(g, start),
            r <= tiles.len(),
            out@.len() == r,
            forall|i: int| 0 <= i < r ==> #[trigger] out@[i]@ == e[i],
        decreases tiles.len() - r,
    {
        let row = &tiles[r];
        let mut line: Vec<char> = Vec::new();
        let mut c: usize = 0;
        while c < row.len()
            invariant
                g == grid_view(tiles),
                e == encode_grid(g, start),
                r < tiles.len(),
                row@ == g[r as int],
                c <= row.len(),
                line@.len() == c,
                forall|j: int| 0 <= j < c ==> #[trigger] line@[j] == e[r as int][j],
            decreases row.len() - c,
        {
            if r == start.0 && c == start.1 {
                line.push('p');
            } else {
                let ch = tile_symbol(&row[c]);
                line.push(ch);
            }
            c = c + 1;
        }
        assert(line@ =~= e[r as int]);
        out.push(line);
        r = r + 1;
    }
    proof {
        assert forall|i: int| 0 <= i < out@.len() implies #[trigger] layout_view(&out)[i] == e[i] by {}
        assert(layout_view(&out) =~= e);
    }
    out
}

/// Every character of the alphabet other than the start mark survives a
/// decode followed by an encode.
pub proof fn lemma_symbol_round_trip(ch: char)
    requires
        tile_of_symbol(ch).is_some(),
        ch != 'p',
    ensures
        symbol_of_tile(tile_of_symbol(ch).unwrap()) == ch,
{
}

/// Decoding a well-formed layout and encoding the grid back, with the start
/// mark at the decoded start cell, gives the layout again.
pub proof fn lemma_layout_round_trip(b: Seq<Seq<char>>, start: Position)
    requires
        symbols_valid(b),
        unique_start(b),
        is_start(b, start.0 as int, start.1 as int),
    ensures
        encode_grid(decode_grid(b), start) == b,
{
    let g = decode_grid(b);
    let e = encode_grid(g, start);
    assert forall|r: int| 0 <= r < b.len() implies #[trigger] e[r] == b[r] by {
        assert forall|c: int| 0 <= c < b[r].len() implies #[trigger] e[r][c] == b[r][c] by {
            assert(in_layout(b, r, c));
            if !(r == start.0 && c == start.1) {
                if b[r][c] == 'p' {
                    assert(is_start(b, r, c));
                    let (r0, c0) = choose|r0: int, c0: int|
                        #[trigger] is_start(b, r0, c0) && forall|r2: int, c2: int|
                            #[trigger] is_start(b, r2, c2) ==> r2 == r0 && c2 == c0;
                    assert(is_start(b, start.0 as int, start.1 as int));
                }
                lemma_symbol_round_trip(b[r][c]);
            }
        }
        assert(e[r] =~= b[r]);
    }
    assert(e =~= b);
}

} // verus!
