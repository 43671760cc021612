//! Substitution scores for the local aligner.
//!
//! Symbols are ranked in the order `ATGCSWRYKMBVHDNU`. The matrix is symmetric,
//! so only its upper triangle (row index not above column index) is stored.
use vstd::prelude::*;

verus! {

/// Rank of a byte in the scoring alphabet `ATGCSWRYKMBVHDNU`. Lower-case letters
/// share the rank of their upper-case form; any other byte is scored as `N`.
pub open spec fn symbol_index(b: u8) -> int {
    let c = if 97 <= b <= 122 { (b - 32) as u8 } else { b };
    if c == 65 { 0 }        // A
    else if c == 84 { 1 }   // T
    else if c == 71 { 2 }   // G
    else if c == 67 { 3 }   // C
    else if c == 83 { 4 }   // S
    else if c == 87 { 5 }   // W
    else if c == 82 { 6 }   // R
    else if c == 89 { 7 }   // Y
    else if c == 75 { 8 }   // K
    else if c == 77 { 9 }   // M
    else if c == 66 { 10 }  // B
    else if c == 86 { 11 }  // V
    else if c == 72 { 12 }  // H
    else if c == 68 { 13 }  // D
    else if c == 85 { 15 }  // U
    else { 14 }             // N, and anything unknown
}

/// Row `i` of the upper triangle; only the entries at columns `j >= i` are used.
pub open spec fn upper_row(i: int) -> Seq<int> {
    if i == 0 {
        seq![5, -4, -4, -4, -4, 1, 1, -4, -4, 1, -4, -1, -1, -1, -2, -4]
    } else if i == 1 {
        seq![0, 5, -4, 1, -4, 1, -4, 1, 1, -4, -1, -4, -1, -1, -2, 5]
    } else if i == 2 {
        seq![0, 0, 5, -4, 1, -4, 1, -4, 1, -4, -1, -1, -4, -1, -2, -4]
    } else if i == 3 {
        seq![0, 0, 0, 5, 1, -4, -4, 1, -4, 1, -1, -1, -1, -4, -2, -4]
    } else if i == 4 {
        seq![0, 0, 0, 0, -1, -4, -2, -2, -2, -2, -1, -1, -3, -3, -1, -4]
    } else if i == 5 {
        seq![0, 0, 0, 0, 0, -1, -2, -2, -2, -2, -3, -3, -1, -1, -1, 1]
    } else if i == 6 {
        seq![0, 0, 0, 0, 0, 0, -1, -4, -2, -2, -3, -1, -3, -1, -1, -4]
    } else if i == 7 {
        seq![0, 0, 0, 0, 0, 0, 0, -1, -2, -2, -1, -3, -1, -3, -1, 1]
    } else if i == 8 {
        seq![0, 0, 0, 0, 0, 0, 0, 0, -1, -4, -1, -3, -3, -1, -1, 1]
    } else if i == 9 {
        seq![0, 0, 0, 0, 0, 0, 0, 0, 0, -1, -3, -1, -1, -3, -1, -4]
    } else if i == 10 {
        seq![0, 0, 0, 0, 0, 0, 0, 0, 0, 0, -1, -2, -2, -2, -1, -1]
    } else if i == 11 {
        seq![0, 0, 0, 0, 0, 0, 0, 0, 0, 0, 0, -1, -2, -2, -1, -4]
    } else if i == 12 {
        seq![0, 0, 0, 0, 0, 0, 0, 0, 0, 0, 0, 0, -1, -2, -1, -1]
    } else if i == 13 {
        seq![0, 0, 0, 0, 0, 0, 0, 0, 0, 0, 0, 0, 0, -1, -1, -1]
    } else if i == 14 {
        seq![0, 0, 0, 0, 0, 0, 0, 0, 0, 0, 0, 0, 0, 0, -1, -2]
    } else {
        seq![0, 0, 0, 0, 0, 0, 0, 0, 0, 0, 0, 0, 0, 0, 0, 5]
    }
}

/// Matrix entry for the ranks `i` and `j`, read from the upper triangle.
pub open spec fn matrix_entry(i: int, j: int) -> int {
    if i <= j { upper_row(i)[j] } else { upper_row(j)[i] }
}

/// Score of aligning byte `a` against byte `b`: +5 for identical bases, +1 for
/// compatible ambiguity codes and for C against T, negative otherwise.
pub open spec fn score(a: u8, b: u8) -> int {
    matrix_entry(symbol_index(a), symbol_index(b))
}

/// Rank of `b` in the scoring alphabet.
pub fn lookup(b: u8) -> (r: usize)
    ensures
        r == symbol_index(b),
        r < 16,
{
    let c: u8 = if 97 <= b && b <= 122 { b - 32 } else { b };
    if c == 65 { 0 }
    else if c == 84 { 1 }
    else if c == 71 { 2 }
    else if c == 67 { 3 }
    else if c == 83 { 4 }
    else if c == 87 { 5 }
    else if c == 82 { 6 }
    else if c == 89 { 7 }
    else if c == 75 { 8 }
    else if c == 77 { 9 }
    else if c == 66 { 10 }
    else if c == 86 { 11 }
    else if c == 72 { 12 }
    else if c == 68 { 13 }
    else if c == 85 { 15 }
    else { 14 }
}

fn upper_entry(i: usize, j: usize) -> (r: i32)
    requires
        i <= j < 16,
    ensures
        r == upper_row(i as int)[j as int],
{
    let row: [i32; 16] = if i == 0 {
        [5, -4, -4, -4, -4, 1, 1, -4, -4, 1, -4, -1, -1, -1, -2, -4]
    } else if i == 1 {
        [0, 5, -4, 1, -4, 1, -4, 1, 1, -4, -1, -4, -1, -1, -2, 5]
    } else if i == 2 {
        [0, 0, 5, -4, 1, -4, 1, -4, 1, -4, -1, -1, -4, -1, -2, -4]
    } else if i == 3 {
        [0, 0, 0, 5, 1, -4, -4, 1, -4, 1, -1, -1, -1, -4, -2, -4]
    } else if i == 4 {
        [0, 0, 0, 0, -1, -4, -2, -2, -2, -2, -1, -1, -3, -3, -1, -4]
    } else if i == 5 {
        [0, 0, 0, 0, 0, -1, -2, -2, -2, -2, -3, -3, -1, -1, -1, 1]
    } else if i == 6 {
        [0, 0, 0, 0, 0, 0, -1, -4, -2, -2, -3, -1, -3, -1, -1, -4]
    } else if i == 7 {
        [0, 0, 0, 0, 0, 0, 0, -1, -2, -2, -1, -3, -1, -3, -1, 1]
    } else if i == 8 {
        [0, 0, 0, 0, 0, 0, 0, 0, -1, -4, -1, -3, -3, -1, -1, 1]
    } else if i == 9 {
        [0, 0, 0, 0, 0, 0, 0, 0, 0, -1, -3, -1, -1, -3, -1, -4]
    } else if i == 10 {
        [0, 0, 0, 0, 0, 0, 0, 0, 0, 0, -1, -2, -2, -2, -1, -1]
    } else if i == 11 {
        [0, 0, 0, 0, 0, 0, 0, 0, 0, 0, 0, -1, -2, -2, -1, -4]
    } else if i == 12 {
        [0, 0, 0, 0, 0, 0, 0, 0, 0, 0, 0, 0, -1, -2, -1, -1]
    } else if i == 13 {
        [0, 0, 0, 0, 0, 0, 0, 0, 0, 0, 0, 0, 0, -1, -1, -1]
    } else if i == 14 {
        [0, 0, 0, 0, 0, 0, 0, 0, 0, 0, 0, 0, 0, 0, -1, -2]
    } else {
        [0, 0, 0, 0, 0, 0, 0, 0, 0, 0, 0, 0, 0, 0, 0, 5]
    };
    row[j]
}

/// Substitution score of `a` against `b`, as the aligner uses it.
pub fn quma_score(a: u8, b: u8) -> (r: i32)
    ensures
        r == score(a, b),
{
    let i = lookup(a);
    let j = lookup(b);
    if i <= j { upper_entry(i, j) } else { upper_entry(j, i) }
}

/// The substitution score does not depend on the order of its arguments.
pub proof fn lemma_score_symmetric(a: u8, b: u8)
    ensures
        score(a, b) == score(b, a),
{
}

} // verus!
