//! Entities of the simulation as the client holds them: the full `Player`
//! and `Guest` models and their reduced public projections. Every entity is
//! a snapshot: the authoritative copy lives on the server, and a local value
//! is replaced wholesale on every refresh or mutating call.

use vstd::prelude::*;

verus! {

/// Full account model, held client-side to re-authenticate.
#[derive(Debug, Clone, PartialEq)]
pub struct Player {
    pub password: String,
    pub name: String,
    pub id: i32,
}

/// Public projection of a `Player`: identity only, no credential.
#[derive(Debug, Clone, PartialEq)]
pub struct PlayerInfo {
    pub id: i32,
    pub name: String,
}

/// A mobile agent: it moves across the grid, exchanges heat with node
/// fields, and consumes energy to act. Remotely owned: this value is a
/// snapshot subject to staleness.
#[derive(Debug, Clone, Copy, PartialEq, Eq)]
pub struct Guest {
    pub id: i32,
    pub energy: i64,
    pub pos: (i16, i16),
    pub temperature: i8,
    pub master_id: i32,
}

/// Reduced, read-only projection of another player's guest, as returned by
/// detection: no energy, coarsened temperature.
#[derive(Debug, Clone, Copy, PartialEq, Eq)]
pub struct GuestInfo {
    pub id: i32,
    pub temperature: i16,
    pub pos: (i16, i16),
    pub master_id: i32,
}

} // verus!
