//! Direction vocabulary for grid navigation: 2D integer vectors on a
//! signed axis where +y is up. The 3x3 neighborhood (diagonals and the
//! zero vector included) is an addressing and detection concept only; the
//! four cardinal directions are the only legal single-step walk vocabulary.

use vstd::prelude::*;

verus! {

/// A movement or addressing vector `(dx, dy)`.
pub type Direction = (i16, i16);

/// No movement.
pub const SITU: (i16, i16) = (0, 0);

pub const UP: (i16, i16) = (0, 1);

pub const DOWN: (i16, i16) = (0, -1);

pub const LEFT: (i16, i16) = (-1, 0);

pub const RIGHT: (i16, i16) = (1, 0);

pub const UP_LEFT: (i16, i16) = (-1, 1);

pub const UP_RIGHT: (i16, i16) = (1, 1);

pub const DOWN_LEFT: (i16, i16) = (-1, -1);

pub const DOWN_RIGHT: (i16, i16) = (1, -1);

/// The full 3x3 neighborhood around a position, center included, in
/// row-major order from the top row down, left to right within a row.
pub const INDEXED_NAVI: [(i16, i16); 9] = [
    (-1, 1),
    (0, 1),
    (1, 1),
    (-1, 0),
    (0, 0),
    (1, 0),
    (-1, -1),
    (0, -1),
    (1, -1),
];

/// The cardinal-only subset: the only legal single-step walk vocabulary.
pub const ALLOWED_NAVI: [(i16, i16); 4] = [(-1, 0), (1, 0), (0, -1), (0, 1)];

/// Whether `d` is a legal single-step walk vector: one of the four
/// cardinal directions, never a diagonal, the zero vector, or any
/// longer vector.
pub open spec fn is_allowed_step(d: Direction) -> bool {
    d == LEFT || d == RIGHT || d == DOWN || d == UP
}

/// Runtime check of [`is_allowed_step`]: a walk request that fails it
/// must be rejected before any network round trip.
pub fn allowed_step(d: Direction) -> (r: bool)
    ensures
        r == is_allowed_step(d),
{
    (d.0 == -1 && d.1 == 0) || (d.0 == 1 && d.1 == 0) || (d.0 == 0 && d.1 == -1) || (d.0 == 0
        && d.1 == 1)
}

/// The walk vocabulary law: a vector is a legal single step exactly when
/// it occurs in [`ALLOWED_NAVI`]; diagonals, the zero vector and longer
/// vectors are addressing concepts only.
pub proof fn lemma_allowed_navi_is_walk_vocabulary(d: Direction)
    ensures
        is_allowed_step(d) <==> (exists|i: int|
            0 <= i < ALLOWED_NAVI@.len() && ALLOWED_NAVI@[i] == d),
{
    if is_allowed_step(d) {
        if d == LEFT {
            assert(ALLOWED_NAVI@[0] == d);
        } else if d == RIGHT {
            assert(ALLOWED_NAVI@[1] == d);
        } else if d == DOWN {
            assert(ALLOWED_NAVI@[2] == d);
        } else {
            assert(ALLOWED_NAVI@[3] == d);
        }
    }
}

} // verus!
