//! Board geometry for the 5x5 board.
//!
//! Squares are numbered row-major: square `k` sits in column `k % 5` and row
//! `k / 5`, and is encoded as the single-bit word `square_bit(k)`.  The module
//! builds the edge-clamp mask of every square (the squares a piece could reach
//! without wrapping around an edge), turns squares into their two-letter
//! labels, and proves the geometric facts the move table rests on: masked
//! shifts land exactly on the in-box squares, and the box is preserved by
//! point reflection through the board centre.

use vstd::prelude::*;
use vstd::string::StringExecFns;
use crate::bits::{nth_bit, one_bit};
use crate::bits::{
    lemma_zero_bit, lemma_one_bit_bounds, lemma_one_bit_test, lemma_and_one_bit, lemma_or_bit,
    lemma_shl_one_bit, lemma_shr_one_bit,
};

verus! {

/// Column of square `k`.
pub open spec fn col(k: int) -> int {
    k % 5
}

/// Row of square `k`.
pub open spec fn row(k: int) -> int {
    k / 5
}

/// The single-bit board word of square `k`.
pub open spec fn square_bit(k: int) -> u32 {
    one_bit(k as u32)
}

/// `p` encodes exactly one square of the board.
pub open spec fn is_square(p: u32) -> bool {
    exists|k: int| 0 <= k < 25 && p == #[trigger] square_bit(k)
}

/// The square index encoded by a single-bit board word.
pub open spec fn square_index(p: u32) -> int {
    choose|k: int| 0 <= k < 25 && p == #[trigger] square_bit(k)
}

/// Square `j` is on the board and within two columns and two rows of `i`:
/// the reach of a card move from `i` that does not slide off an edge.
pub open spec fn in_board_box(i: int, j: int) -> bool {
    &&& 0 <= j < 25
    &&& -2 <= col(j) - col(i) <= 2
    &&& -2 <= row(j) - row(i) <= 2
}

/// The result of sliding a board word by `m` squares: a left shift for
/// positive `m`, a right shift for negative `m`.
pub open spec fn shifted(p: u32, m: int) -> u32 {
    if m > 0 {
        p << (m as u32)
    } else if m < 0 {
        p >> ((-m) as u32)
    } else {
        p
    }
}

/// The mask of square `i` holds the on-board squares of its box.
pub open spec fn is_edge_mask(i: int, mask: u32) -> bool {
    &&& mask < 0x2000000
    &&& forall|j: u32| j < 32 ==> ((#[trigger] nth_bit(mask, j)) <==> in_board_box(i, j as int))
}

/// Net bit shift of a move vector `(x, y)`: `x` columns plus `y` rows.
pub fn coordinates_to_bitwise_shift(x: i32, y: i32) -> (shift: i32)
    requires
        -1000 <= x <= 1000,
        -1000 <= y <= 1000,
    ensures
        shift == x + y * 5,
{
    x + y * 5
}

/// Slides a board word by `shift_by` squares in either direction.
pub fn shift_position(position: u32, shift_by: i32) -> (shifted_position: u32)
    requires
        -32 < shift_by < 32,
    ensures
        shifted_position == shifted(position, shift_by as int),
{
    if shift_by > 0 {
        position << (shift_by as u32)
    } else if shift_by < 0 {
        position >> ((-shift_by) as u32)
    } else {
        position
    }
}

/// Builds the edge-clamp mask of square `k`: one bit for every square of the
/// board within two columns and two rows of `k`.
pub fn valid_moves_mask(k: usize) -> (mask: u32)
    requires
        k < 25,
    ensures
        is_edge_mask(k as int, mask),
{
    let mut mask: u32 = 0;
    let col_k: usize = k % 5;
    let row_k: usize = k / 5;
    proof {
        assert forall|jj: u32| jj < 32 implies !nth_bit(0u32, jj) by {
            lemma_zero_bit(jj);
        }
    }
    let mut j: usize = 0;
    while j < 25
        invariant
            j <= 25,
            k < 25,
            col_k == col(k as int),
            row_k == row(k as int),
            mask < 0x2000000,
            forall|jj: u32|
                jj < 32 ==> ((#[trigger] nth_bit(mask, jj)) <==> (jj < j
                    && in_board_box(k as int, jj as int))),
        decreases 25 - j,
    {
        let col_j: usize = j % 5;
        let row_j: usize = j / 5;
        let col_near = col_j + 2 >= col_k && col_j <= col_k + 2;
        let row_near = row_j + 2 >= row_k && row_j <= row_k + 2;
        if col_near && row_near {
            let bit: u32 = 1u32 << (j as u32);
            proof {
                lemma_one_bit_bounds(j as u32);
                let old_mask = mask;
                assert forall|jj: u32|
                    jj < 32 implies ((#[trigger] nth_bit(old_mask | bit, jj)) <==> (jj < j + 1
                        && in_board_box(k as int, jj as int))) by {
                    lemma_or_bit(old_mask, bit, jj);
                    lemma_one_bit_test(jj, j as u32);
                }
                assert((old_mask | bit) < 0x2000000) by {
                    lemma_or_bound_25(old_mask, bit);
                }
            }
            mask = mask | bit;
        } else {
            proof {
                assert(!in_board_box(k as int, j as int));
            }
        }
        j = j + 1;
    }
    mask
}

/// The union of two 25-bit board words is a 25-bit board word.
pub proof fn lemma_or_bound_25(a: u32, b: u32)
    by (bit_vector)
    requires
        a < 0x2000000,
        b < 0x2000000,
    ensures
        (a | b) < 0x2000000,
{
}

/// A shift clamped by the edge mask lands exactly on the in-box squares:
/// sliding square `k` by `m` and intersecting with `k`'s mask yields the
/// square `k + m` when that square lies in `k`'s box, and nothing otherwise.
pub proof fn lemma_masked_shift(k: int, m: int, mask: u32)
    requires
        0 <= k < 25,
        -12 <= m <= 12,
        is_edge_mask(k, mask),
    ensures
        shifted(square_bit(k), m) & mask == if in_board_box(k, k + m) {
            square_bit(k + m)
        } else {
            0u32
        },
{
    let p = square_bit(k);
    let s = shifted(p, m);
    if m >= 0 {
        lemma_shl_one_bit(k as u32, m as u32);
        if m == 0 {
            assert(s == p);
            assert(p == p << 0u32) by (bit_vector);
        }
        assert(s == if k + m < 32 { one_bit((k + m) as u32) } else { 0u32 });
    } else {
        lemma_shr_one_bit(k as u32, (-m) as u32);
        assert(s == if 0 <= k + m { one_bit((k + m) as u32) } else { 0u32 });
    }
    if 0 <= k + m < 32 {
        assert(s == one_bit((k + m) as u32));
        lemma_and_one_bit(mask, (k + m) as u32);
        assert(s & mask == mask & s) by (bit_vector);
        if in_board_box(k, k + m) {
            assert(nth_bit(mask, (k + m) as u32));
        } else {
            assert(!nth_bit(mask, (k + m) as u32));
        }
    } else {
        if k + m < 0 {
            assert(s == 0);
            assert(0u32 & mask == 0) by (bit_vector);
            assert(!in_board_box(k, k + m));
        } else {
            assert(s == 0);
            assert(0u32 & mask == 0) by (bit_vector);
            assert(!in_board_box(k, k + m));
        }
    }
}

/// Point reflection through the board centre: square `k` maps to `24 - k`,
/// which negates both coordinate offsets.
pub proof fn lemma_reflect_coords(x: int)
    requires
        0 <= x < 25,
    ensures
        col(24 - x) == 4 - col(x),
        row(24 - x) == 4 - row(x),
{
    let q = x / 5;
    let r = x % 5;
    assert(x == 5 * q + r && 0 <= r < 5 && 0 <= q < 5) by (nonlinear_arith)
        requires
            0 <= x < 25,
            q == x / 5,
            r == x % 5,
    ;
    assert((24 - x) == 5 * (4 - q) + (4 - r));
    assert(col(24 - x) == 4 - r && row(24 - x) == 4 - q) by (nonlinear_arith)
        requires
            24 - x == 5 * (4 - q) + (4 - r),
            0 <= 4 - r < 5,
            0 <= 4 - q < 5,
            col(24 - x) == (24 - x) % 5,
            row(24 - x) == (24 - x) / 5,
    ;
}

/// The box relation is preserved by point reflection through the centre.
pub proof fn lemma_box_reflect(i: int, j: int)
    requires
        0 <= i < 25,
    ensures
        in_board_box(i, j) <==> in_board_box(24 - i, 24 - j),
{
    if 0 <= j < 25 {
        lemma_reflect_coords(i);
        lemma_reflect_coords(j);
    }
}

/// The label letter of a board column.
pub open spec fn col_char(k: int) -> char {
    if col(k) == 0 {
        'A'
    } else if col(k) == 1 {
        'B'
    } else if col(k) == 2 {
        'C'
    } else if col(k) == 3 {
        'D'
    } else {
        'E'
    }
}

/// The label digit of a board row.
pub open spec fn row_char(k: int) -> char {
    if row(k) == 0 {
        '1'
    } else if row(k) == 1 {
        '2'
    } else if row(k) == 2 {
        '3'
    } else if row(k) == 3 {
        '4'
    } else {
        '5'
    }
}

/// The two-character label of square `k`, column letter then row digit.
pub open spec fn label_seq(k: int) -> Seq<char> {
    seq![col_char(k), row_char(k)]
}

/// The label letter of column `c`.
fn column_letter(c: usize) -> (letter: &'static str)
    requires
        c < 5,
    ensures
        letter@ =~= seq![if c == 0 {
            'A'
        } else if c == 1 {
            'B'
        } else if c == 2 {
            'C'
        } else if c == 3 {
            'D'
        } else {
            'E'
        }],
{
    proof {
        reveal_strlit("A");
        reveal_strlit("B");
        reveal_strlit("C");
        reveal_strlit("D");
        reveal_strlit("E");
    }
    match c {
        0 => "A",
        1 => "B",
        2 => "C",
        3 => "D",
        _ => "E",
    }
}

/// The label digit of row `r`.
fn row_digit(r: usize) -> (digit: &'static str)
    requires
        r < 5,
    ensures
        digit@ =~= seq![if r == 0 {
            '1'
        } else if r == 1 {
            '2'
        } else if r == 2 {
            '3'
        } else if r == 3 {
            '4'
        } else {
            '5'
        }],
{
    proof {
        reveal_strlit("1");
        reveal_strlit("2");
        reveal_strlit("3");
        reveal_strlit("4");
        reveal_strlit("5");
    }
    match r {
        0 => "1",
        1 => "2",
        2 => "3",
        3 => "4",
        _ => "5",
    }
}

/// The human-readable label of square `k`, from "A1" up to "E5".
pub fn square_label(k: usize) -> (label: String)
    requires
        k < 25,
    ensures
        label@ == label_seq(k as int),
{
    let mut label = String::from_str(column_letter(k % 5));
    label.append(row_digit(k / 5));
    proof {
        assert(label@ =~= label_seq(k as int));
    }
    label
}

/// The square index encoded by a single-bit board word, recovered by scan.
pub fn square_index_of(p: u32) -> (k: usize)
    requires
        is_square(p),
    ensures
        k < 25,
        p == square_bit(k as int),
{
    let mut k: usize = 0;
    while k < 24
        invariant
            k < 25,
            is_square(p),
            forall|i: int| 0 <= i < k ==> p != #[trigger] square_bit(i),
        decreases 24 - k,
    {
        if p == 1u32 << (k as u32) {
            return k;
        }
        k = k + 1;
    }
    proof {
        let w = choose|i: int| 0 <= i < 25 && p == #[trigger] square_bit(i);
        assert(w == 24);
    }
    k
}

} // verus!
