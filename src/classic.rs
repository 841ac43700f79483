use vstd::prelude::*;

verus! {

/// The classic maze: 36 rows of 28 cells.
///
/// `'w'` wall, `'.'` fruit, `'*'` power-up, `'p'` player start, `'i'`
/// intersection with fruit, `'j'` intersection, `'o'` special intersection with
/// fruit, `'k'` special intersection, `' '` empty.
pub open spec fn classic_layout() -> Seq<Seq<char>> {
    seq![
        seq![' ', ' ', ' ', ' ', ' ', ' ', ' ', ' ', ' ', ' ', ' ', ' ', ' ', ' ', ' ', ' ', ' ', ' ', ' ', ' ', ' ', ' ', ' ', ' ', ' ', ' ', ' ', ' '],
        seq![' ', ' ', ' ', ' ', ' ', ' ', ' ', ' ', ' ', ' ', ' ', ' ', ' ', ' ', ' ', ' ', ' ', ' ', ' ', ' ', ' ', ' ', ' ', ' ', ' ', ' ', ' ', ' '],
        seq![' ', ' ', ' ', ' ', ' ', ' ', ' ', ' ', ' ', ' ', ' ', ' ', ' ', ' ', ' ', ' ', ' ', ' ', ' ', ' ', ' ', ' ', ' ', ' ', ' ', ' ', ' ', ' '],
        seq!['w', 'w', 'w', 'w', 'w', 'w', 'w', 'w', 'w', 'w', 'w', 'w', 'w', 'w', 'w', 'w', 'w', 'w', 'w', 'w', 'w', 'w', 'w', 'w', 'w', 'w', 'w', 'w'],
        seq!['w', '.', '.', '.', '.', '.', 'i', '.', '.', '.', '.', '.', '.', 'w', 'w', '.', '.', '.', '.', '.', '.', 'i', '.', '.', '.', '.', '.', 'w'],
        seq!['w', '.', 'w', 'w', 'w', 'w', '.', 'w', 'w', 'w', 'w', 'w', '.', 'w', 'w', '.', 'w', 'w', 'w', 'w', 'w', '.', 'w', 'w', 'w', 'w', '.', 'w'],
        seq!['w', '*', 'w', ' ', ' ', 'w', '.', 'w', ' ', ' ', ' ', 'w', '.', 'w', 'w', '.', 'w', ' ', ' ', ' ', 'w', '.', 'w', ' ', ' ', 'w', '*', 'w'],
        seq!['w', '.', 'w', 'w', 'w', 'w', '.', 'w', 'w', 'w', 'w', 'w', '.', 'w', 'w', '.', 'w', 'w', 'w', 'w', 'w', '.', 'w', 'w', 'w', 'w', '.', 'w'],
        seq!['w', 'i', '.', '.', '.', '.', 'i', '.', '.', 'i', '.', '.', 'i', '.', '.', 'i', '.', '.', 'i', '.', '.', 'i', '.', '.', '.', '.', 'i', 'w'],
        seq!['w', '.', 'w', 'w', 'w', 'w', '.', 'w', 'w', '.', 'w', 'w', 'w', 'w', 'w', 'w', 'w', 'w', '.', 'w', 'w', '.', 'w', 'w', 'w', 'w', '.', 'w'],
        seq!['w', '.', 'w', 'w', 'w', 'w', '.', 'w', 'w', '.', 'w', 'w', 'w', 'w', 'w', 'w', 'w', 'w', '.', 'w', 'w', '.', 'w', 'w', 'w', 'w', '.', 'w'],
        seq!['w', '.', '.', '.', '.', '.', 'i', 'w', 'w', '.', '.', '.', '.', 'w', 'w', '.', '.', '.', '.', 'w', 'w', 'i', '.', '.', '.', '.', '.', 'w'],
        seq!['w', 'w', 'w', 'w', 'w', 'w', '.', 'w', 'w', 'w', 'w', 'w', ' ', 'w', 'w', ' ', 'w', 'w', 'w', 'w', 'w', '.', 'w', 'w', 'w', 'w', 'w', 'w'],
        seq![' ', ' ', ' ', ' ', ' ', 'w', '.', 'w', 'w', 'w', 'w', 'w', ' ', 'w', 'w', ' ', 'w', 'w', 'w', 'w', 'w', '.', 'w', ' ', ' ', ' ', ' ', ' '],
        seq![' ', ' ', ' ', ' ', ' ', 'w', '.', 'w', 'w', ' ', ' ', ' ', 'k', ' ', ' ', 'k', ' ', ' ', ' ', 'w', 'w', '.', 'w', ' ', ' ', ' ', ' ', ' '],
        seq![' ', ' ', ' ', ' ', ' ', 'w', '.', 'w', 'w', ' ', 'w', 'w', 'w', ' ', ' ', 'w', 'w', 'w', ' ', 'w', 'w', '.', 'w', ' ', ' ', ' ', ' ', ' '],
        seq!['w', 'w', 'w', 'w', 'w', 'w', '.', 'w', 'w', ' ', 'w', ' ', ' ', ' ', ' ', ' ', ' ', 'w', ' ', 'w', 'w', '.', 'w', 'w', 'w', 'w', 'w', 'w'],
        seq![' ', ' ', ' ', ' ', ' ', ' ', 'i', ' ', ' ', 'j', 'w', ' ', ' ', ' ', ' ', ' ', ' ', 'w', 'j', ' ', ' ', 'i', ' ', ' ', ' ', ' ', ' ', ' '],
        seq!['w', 'w', 'w', 'w', 'w', 'w', '.', 'w', 'w', ' ', 'w', ' ', ' ', ' ', ' ', ' ', ' ', 'w', ' ', 'w', 'w', '.', 'w', 'w', 'w', 'w', 'w', 'w'],
        seq![' ', ' ', ' ', ' ', ' ', 'w', '.', 'w', 'w', ' ', 'w', 'w', 'w', 'w', 'w', 'w', 'w', 'w', ' ', 'w', 'w', '.', 'w', ' ', ' ', ' ', ' ', ' '],
        seq![' ', ' ', ' ', ' ', ' ', 'w', '.', 'w', 'w', 'j', ' ', ' ', ' ', ' ', ' ', ' ', ' ', ' ', 'j', 'w', 'w', '.', 'w', ' ', ' ', ' ', ' ', ' '],
        seq![' ', ' ', ' ', ' ', ' ', 'w', '.', 'w', 'w', ' ', 'w', 'w', 'w', 'w', 'w', 'w', 'w', 'w', ' ', 'w', 'w', '.', 'w', ' ', ' ', ' ', ' ', ' '],
        seq!['w', 'w', 'w', 'w', 'w', 'w', '.', 'w', 'w', ' ', 'w', 'w', 'w', 'w', 'w', 'w', 'w', 'w', ' ', 'w', 'w', '.', 'w', 'w', 'w', 'w', 'w', 'w'],
        seq!['w', '.', '.', '.', '.', '.', 'i', '.', '.', 'i', '.', '.', '.', 'w', 'w', '.', '.', '.', 'i', '.', '.', 'i', '.', '.', '.', '.', '.', 'w'],
        seq!['w', '.', 'w', 'w', 'w', 'w', '.', 'w', 'w', 'w', 'w', 'w', '.', 'w', 'w', '.', 'w', 'w', 'w', 'w', 'w', '.', 'w', 'w', 'w', 'w', '.', 'w'],
        seq!['w', '.', 'w', 'w', 'w', 'w', '.', 'w', 'w', 'w', 'w', 'w', '.', 'w', 'w', '.', 'w', 'w', 'w', 'w', 'w', '.', 'w', 'w', 'w', 'w', '.', 'w'],
        seq!['w', '*', '.', '.', 'w', 'w', 'i', '.', '.', 'i', '.', '.', 'o', ' ', 'p', 'o', '.', '.', 'i', '.', '.', 'i', 'w', 'w', '.', '.', '*', 'w'],
        seq!['w', 'w', 'w', '.', 'w', 'w', '.', 'w', 'w', '.', 'w', 'w', 'w', 'w', 'w', 'w', 'w', 'w', '.', 'w', 'w', '.', 'w', 'w', '.', 'w', 'w', 'w'],
        seq!['w', 'w', 'w', '.', 'w', 'w', '.', 'w', 'w', '.', 'w', 'w', 'w', 'w', 'w', 'w', 'w', 'w', '.', 'w', 'w', '.', 'w', 'w', '.', 'w', 'w', 'w'],
        seq!['w', '.', '.', 'i', '.', '.', '.', 'w', 'w', '.', '.', '.', '.', 'w', 'w', '.', '.', '.', '.', 'w', 'w', '.', '.', '.', 'i', '.', '.', 'w'],
        seq!['w', '.', 'w', 'w', 'w', 'w', 'w', 'w', 'w', 'w', 'w', 'w', '.', 'w', 'w', '.', 'w', 'w', 'w', 'w', 'w', 'w', 'w', 'w', 'w', 'w', '.', 'w'],
        seq!['w', '.', 'w', 'w', 'w', 'w', 'w', 'w', 'w', 'w', 'w', 'w', '.', 'w', 'w', '.', 'w', 'w', 'w', 'w', 'w', 'w', 'w', 'w', 'w', 'w', '.', 'w'],
        seq!['w', '.', '.', '.', '.', '.', '.', '.', '.', '.', '.', '.', 'i', '.', '.', 'i', '.', '.', '.', '.', '.', '.', '.', '.', '.', '.', '.', 'w'],
        seq!['w', 'w', 'w', 'w', 'w', 'w', 'w', 'w', 'w', 'w', 'w', 'w', 'w', 'w', 'w', 'w', 'w', 'w', 'w', 'w', 'w', 'w', 'w', 'w', 'w', 'w', 'w', 'w'],
        seq![' ', ' ', ' ', ' ', ' ', ' ', ' ', ' ', ' ', ' ', ' ', ' ', ' ', ' ', ' ', ' ', ' ', ' ', ' ', ' ', ' ', ' ', ' ', ' ', ' ', ' ', ' ', ' '],
        seq![' ', ' ', ' ', ' ', ' ', ' ', ' ', ' ', ' ', ' ', ' ', ' ', ' ', ' ', ' ', ' ', ' ', ' ', ' ', ' ', ' ', ' ', ' ', ' ', ' ', ' ', ' ', ' '],
    ]
}

/// The classic maze as a layout value.
pub fn classic_board() -> (r: Vec<Vec<char>>)
    ensures
        crate::board::layout_view(&r) == classic_layout(),
{
    let r = vec![
        vec![' ', ' ', ' ', ' ', ' ', ' ', ' ', ' ', ' ', ' ', ' ', ' ', ' ', ' ', ' ', ' ', ' ', ' ', ' ', ' ', ' ', ' ', ' ', ' ', ' ', ' ', ' ', ' '],
        vec![' ', ' ', ' ', ' ', ' ', ' ', ' ', ' ', ' ', ' ', ' ', ' ', ' ', ' ', ' ', ' ', ' ', ' ', ' ', ' ', ' ', ' ', ' ', ' ', ' ', ' ', ' ', ' '],
        vec![' ', ' ', ' ', ' ', ' ', ' ', ' ', ' ', ' ', ' ', ' ', ' ', ' ', ' ', ' ', ' ', ' ', ' ', ' ', ' ', ' ', ' ', ' ', ' ', ' ', ' ', ' ', ' '],
        vec!['w', 'w', 'w', 'w', 'w', 'w', 'w', 'w', 'w', 'w', 'w', 'w', 'w', 'w', 'w', 'w', 'w', 'w', 'w', 'w', 'w', 'w', 'w', 'w', 'w', 'w', 'w', 'w'],
        vec!['w', '.', '.', '.', '.', '.', 'i', '.', '.', '.', '.', '.', '.', 'w', 'w', '.', '.', '.', '.', '.', '.', 'i', '.', '.', '.', '.', '.', 'w'],
        vec!['w', '.', 'w', 'w', 'w', 'w', '.', 'w', 'w', 'w', 'w', 'w', '.', 'w', 'w', '.', 'w', 'w', 'w', 'w', 'w', '.', 'w', 'w', 'w', 'w', '.', 'w'],
        vec!['w', '*', 'w', ' ', ' ', 'w', '.', 'w', ' ', ' ', ' ', 'w', '.', 'w', 'w', '.', 'w', ' ', ' ', ' ', 'w', '.', 'w', ' ', ' ', 'w', '*', 'w'],
        vec!['w', '.', 'w', 'w', 'w', 'w', '.', 'w', 'w', 'w', 'w', 'w', '.', 'w', 'w', '.', 'w', 'w', 'w', 'w', 'w', '.', 'w', 'w', 'w', 'w', '.', 'w'],
        vec!['w', 'i', '.', '.', '.', '.', 'i', '.', '.', 'i', '.', '.', 'i', '.', '.', 'i', '.', '.', 'i', '.', '.', 'i', '.', '.', '.', '.', 'i', 'w'],
        vec!['w', '.', 'w', 'w', 'w', 'w', '.', 'w', 'w', '.', 'w', 'w', 'w', 'w', 'w', 'w', 'w', 'w', '.', 'w', 'w', '.', 'w', 'w', 'w', 'w', '.', 'w'],
        vec!['w', '.', 'w', 'w', 'w', 'w', '.', 'w', 'w', '.', 'w', 'w', 'w', 'w', 'w', 'w', 'w', 'w', '.', 'w', 'w', '.', 'w', 'w', 'w', 'w', '.', 'w'],
        vec!['w', '.', '.', '.', '.', '.', 'i', 'w', 'w', '.', '.', '.', '.', 'w', 'w', '.', '.', '.', '.', 'w', 'w', 'i', '.', '.', '.', '.', '.', 'w'],
        vec!['w', 'w', 'w', 'w', 'w', 'w', '.', 'w', 'w', 'w', 'w', 'w', ' ', 'w', 'w', ' ', 'w', 'w', 'w', 'w', 'w', '.', 'w', 'w', 'w', 'w', 'w', 'w'],
        vec![' ', ' ', ' ', ' ', ' ', 'w', '.', 'w', 'w', 'w', 'w', 'w', ' ', 'w', 'w', ' ', 'w', 'w', 'w', 'w', 'w', '.', 'w', ' ', ' ', ' ', ' ', ' '],
        vec![' ', ' ', ' ', ' ', ' ', 'w', '.', 'w', 'w', ' ', ' ', ' ', 'k', ' ', ' ', 'k', ' ', ' ', ' ', 'w', 'w', '.', 'w', ' ', ' ', ' ', ' ', ' '],
        vec![' ', ' ', ' ', ' ', ' ', 'w', '.', 'w', 'w', ' ', 'w', 'w', 'w', ' ', ' ', 'w', 'w', 'w', ' ', 'w', 'w', '.', 'w', ' ', ' ', ' ', ' ', ' '],
        vec!['w', 'w', 'w', 'w', 'w', 'w', '.', 'w', 'w', ' ', 'w', ' ', ' ', ' ', ' ', ' ', ' ', 'w', ' ', 'w', 'w', '.', 'w', 'w', 'w', 'w', 'w', 'w'],
        vec![' ', ' ', ' ', ' ', ' ', ' ', 'i', ' ', ' ', 'j', 'w', ' ', ' ', ' ', ' ', ' ', ' ', 'w', 'j', ' ', ' ', 'i', ' ', ' ', ' ', ' ', ' ', ' '],
        vec!['w', 'w', 'w', 'w', 'w', 'w', '.', 'w', 'w', ' ', 'w', ' ', ' ', ' ', ' ', ' ', ' ', 'w', ' ', 'w', 'w', '.', 'w', 'w', 'w', 'w', 'w', 'w'],
        vec![' ', ' ', ' ', ' ', ' ', 'w', '.', 'w', 'w', ' ', 'w', 'w', 'w', 'w', 'w', 'w', 'w', 'w', ' ', 'w', 'w', '.', 'w', ' ', ' ', ' ', ' ', ' '],
        vec![' ', ' ', ' ', ' ', ' ', 'w', '.', 'w', 'w', 'j', ' ', ' ', ' ', ' ', ' ', ' ', ' ', ' ', 'j', 'w', 'w', '.', 'w', ' ', ' ', ' ', ' ', ' '],
        vec![' ', ' ', ' ', ' ', ' ', 'w', '.', 'w', 'w', ' ', 'w', 'w', 'w', 'w', 'w', 'w', 'w', 'w', ' ', 'w', 'w', '.', 'w', ' ', ' ', ' ', ' ', ' '],
        vec!['w', 'w', 'w', 'w', 'w', 'w', '.', 'w', 'w', ' ', 'w', 'w', 'w', 'w', 'w', 'w', 'w', 'w', ' ', 'w', 'w', '.', 'w', 'w', 'w', 'w', 'w', 'w'],
        vec!['w', '.', '.', '.', '.', '.', 'i', '.', '.', 'i', '.', '.', '.', 'w', 'w', '.', '.', '.', 'i', '.', '.', 'i', '.', '.', '.', '.', '.', 'w'],
        vec!['w', '.', 'w', 'w', 'w', 'w', '.', 'w', 'w', 'w', 'w', 'w', '.', 'w', 'w', '.', 'w', 'w', 'w', 'w', 'w', '.', 'w', 'w', 'w', 'w', '.', 'w'],
        vec!['w', '.', 'w', 'w', 'w', 'w', '.', 'w', 'w', 'w', 'w', 'w', '.', 'w', 'w', '.', 'w', 'w', 'w', 'w', 'w', '.', 'w', 'w', 'w', 'w', '.', 'w'],
        vec!['w', '*', '.', '.', 'w', 'w', 'i', '.', '.', 'i', '.', '.', 'o', ' ', 'p', 'o', '.', '.', 'i', '.', '.', 'i', 'w', 'w', '.', '.', '*', 'w'],
        vec!['w', 'w', 'w', '.', 'w', 'w', '.', 'w', 'w', '.', 'w', 'w', 'w', 'w', 'w', 'w', 'w', 'w', '.', 'w', 'w', '.', 'w', 'w', '.', 'w', 'w', 'w'],
        vec!['w', 'w', 'w', '.', 'w', 'w', '.', 'w', 'w', '.', 'w', 'w', 'w', 'w', 'w', 'w', 'w', 'w', '.', 'w', 'w', '.', 'w', 'w', '.', 'w', 'w', 'w'],
        vec!['w', '.', '.', 'i', '.', '.', '.', 'w', 'w', '.', '.', '.', '.', 'w', 'w', '.', '.', '.', '.', 'w', 'w', '.', '.', '.', 'i', '.', '.', 'w'],
        vec!['w', '.', 'w', 'w', 'w', 'w', 'w', 'w', 'w', 'w', 'w', 'w', '.', 'w', 'w', '.', 'w', 'w', 'w', 'w', 'w', 'w', 'w', 'w', 'w', 'w', '.', 'w'],
        vec!['w', '.', 'w', 'w', 'w', 'w', 'w', 'w', 'w', 'w', 'w', 'w', '.', 'w', 'w', '.', 'w', 'w', 'w', 'w', 'w', 'w', 'w', 'w', 'w', 'w', '.', 'w'],
        vec!['w', '.', '.', '.', '.', '.', '.', '.', '.', '.', '.', '.', 'i', '.', '.', 'i', '.', '.', '.', '.', '.', '.', '.', '.', '.', '.', '.', 'w'],
        vec!['w', 'w', 'w', 'w', 'w', 'w', 'w', 'w', 'w', 'w', 'w', 'w', 'w', 'w', 'w', 'w', 'w', 'w', 'w', 'w', 'w', 'w', 'w', 'w', 'w', 'w', 'w', 'w'],
        vec![' ', ' ', ' ', ' ', ' ', ' ', ' ', ' ', ' ', ' ', ' ', ' ', ' ', ' ', ' ', ' ', ' ', ' ', ' ', ' ', ' ', ' ', ' ', ' ', ' ', ' ', ' ', ' '],
        vec![' ', ' ', ' ', ' ', ' ', ' ', ' ', ' ', ' ', ' ', ' ', ' ', ' ', ' ', ' ', ' ', ' ', ' ', ' ', ' ', ' ', ' ', ' ', ' ', ' ', ' ', ' ', ' '],
    ];
    assert(crate::board::layout_view(&r) =~= classic_layout());
    r
}

} // verus!
