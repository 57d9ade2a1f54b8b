//! The guest action protocol as the client models it: pre-flight checks,
//! deterministic transition rules, and the phantom-read consistency model
//! for remotely owned entities. The transport that carries the requests is
//! outside the verified library; it hands server responses back to the
//! handles defined here.

use vstd::prelude::*;

use crate::entity::Guest;
use crate::grid::absolute_encoding;
use crate::grid::navi;
use crate::grid::navi::Direction;
use crate::grid::Cell;
use crate::grid::Node;
use crate::grid::NodeData;

verus! {

/// Energy one walk step costs in the minimal client model; the server is
/// authoritative and reports the true remainder with its response.
pub const WALK_ENERGY_COST: i64 = 1;

/// The kinds of failure the protocol distinguishes.
#[derive(Debug, Clone, Copy, PartialEq, Eq, Structural)]
pub enum ProtocolError {
    /// Client-detected, pre-flight rejection: illegal direction, index out
    /// of the field's bounds, insufficient energy. Never sent to the
    /// transport.
    PreconditionViolation,
    /// The capability boundary failed: network, deserialization, or a
    /// non-success status.
    TransportFailure,
    /// A defect in an upstream snapshot, such as an empty field handed to
    /// an aggregate computation.
    InvariantBreach,
}

/// An entity fetched from the shared simulation may be mutated by other
/// clients between a read and the action taken on it. A handle over such
/// an entity caches a snapshot and replaces it with the authoritative
/// state whenever the server reports one; nothing is promised about
/// freshness between calls.
pub trait PhantomRead {
    type Entity;

    /// The cached snapshot.
    spec fn cached(&self) -> Self::Entity;

    /// Discards the local snapshot in favor of the authoritative one the
    /// transport just fetched.
    fn refresh(&mut self, authoritative: Self::Entity)
        ensures
            final(self).cached() == authoritative,
    ;
}

/// Whether a step keeps the guest inside the representable coordinate
/// space.
pub open spec fn walk_in_bounds(g: Guest, to: Direction) -> bool {
    i16::MIN <= g.pos.0 + to.0 <= i16::MAX && i16::MIN <= g.pos.1 + to.1 <= i16::MAX
}

/// Whether the model lets a walk go through: a legal single-step vector,
/// enough energy for the step, and a representable target position.
pub open spec fn walk_allowed(g: Guest, to: Direction) -> bool {
    navi::is_allowed_step(to) && g.energy >= WALK_ENERGY_COST && walk_in_bounds(g, to)
}

/// The deterministic effect of a legal walk: the position moves by the
/// step vector and the step's energy cost is paid; nothing else changes.
pub open spec fn walked(g: Guest, to: Direction) -> Guest {
    Guest {
        pos: ((g.pos.0 + to.0) as i16, (g.pos.1 + to.1) as i16),
        energy: (g.energy - WALK_ENERGY_COST) as i64,
        ..g
    }
}

/// The client-side walk model: rejects an illegal vector, insufficient
/// energy, or an unrepresentable target before any request leaves the
/// client, and otherwise predicts the post-walk snapshot.
pub fn predict_walk(g: &Guest, to: Direction) -> (r: Result<Guest, ProtocolError>)
    ensures
        r is Ok <==> walk_allowed(*g, to),
        r is Ok ==> r->Ok_0 == walked(*g, to),
        r is Err ==> r->Err_0 == ProtocolError::PreconditionViolation,
{
    if !navi::allowed_step(to) {
        return Err(ProtocolError::PreconditionViolation);
    }
    if g.energy < WALK_ENERGY_COST {
        return Err(ProtocolError::PreconditionViolation);
    }
    let nx: i32 = g.pos.0 as i32 + to.0 as i32;
    let ny: i32 = g.pos.1 as i32 + to.1 as i32;
    if nx < i16::MIN as i32 || nx > i16::MAX as i32 || ny < i16::MIN as i32 || ny > i16::MAX
        as i32 {
        return Err(ProtocolError::PreconditionViolation);
    }
    Ok(Guest { pos: (nx as i16, ny as i16), energy: g.energy - WALK_ENERGY_COST, ..*g })
}

/// Walking a legal step and then its opposite returns the guest to its
/// starting position, with the two steps' costs both paid.
pub proof fn lemma_walk_there_and_back(g: Guest, to: Direction)
    requires
        walk_allowed(g, to),
        walk_allowed(walked(g, to), ((-to.0) as i16, (-to.1) as i16)),
    ensures
        walked(walked(g, to), ((-to.0) as i16, (-to.1) as i16)).pos == g.pos,
        walked(walked(g, to), ((-to.0) as i16, (-to.1) as i16)).energy == g.energy - 2
            * WALK_ENERGY_COST,
{
}

/// The number of degrees a harvest moves the guest's temperature toward
/// the cell's. On the absolute (unsigned) scale, the larger magnitude is
/// the hot reservoir and the smaller the cold one; the temperature delta
/// is scaled by the pair's Carnot efficiency `1 - cold/hot`, halved, and
/// floor-divided. The degenerate hot reservoir of zero only arises when
/// both temperatures are equal, where no transfer happens.
pub open spec fn harvest_step(guest_t: i8, cell_t: i8) -> int {
    let ga = absolute_encoding(guest_t) as int;
    let ca = absolute_encoding(cell_t) as int;
    let hot = if ga >= ca {
        ga
    } else {
        ca
    };
    let cold = if ga >= ca {
        ca
    } else {
        ga
    };
    let delta = if guest_t >= cell_t {
        guest_t - cell_t
    } else {
        cell_t - guest_t
    };
    if hot == 0 {
        0
    } else {
        ((hot - cold) * delta) / (2 * hot)
    }
}

/// The guest's temperature after harvesting at a cell: moved by
/// [`harvest_step`] toward the cell's temperature, never past it, and
/// left unchanged when the two are already equal.
pub open spec fn harvested_temperature(guest_t: i8, cell_t: i8) -> i8 {
    if guest_t > cell_t {
        (guest_t - harvest_step(guest_t, cell_t)) as i8
    } else if guest_t < cell_t {
        (guest_t + harvest_step(guest_t, cell_t)) as i8
    } else {
        guest_t
    }
}

/// The Carnot-scaled step never exceeds half the temperature delta, so a
/// harvest can never overshoot the cell's temperature.
pub proof fn lemma_harvest_step_bounds(guest_t: i8, cell_t: i8)
    ensures
        0 <= harvest_step(guest_t, cell_t),
        2 * harvest_step(guest_t, cell_t) <= (if guest_t >= cell_t {
            guest_t - cell_t
        } else {
            cell_t - guest_t
        }),
{
    let ga = absolute_encoding(guest_t) as int;
    let ca = absolute_encoding(cell_t) as int;
    let hot = if ga >= ca {
        ga
    } else {
        ca
    };
    let cold = if ga >= ca {
        ca
    } else {
        ga
    };
    let delta = if guest_t >= cell_t {
        guest_t - cell_t
    } else {
        cell_t - guest_t
    };
    if hot != 0 {
        let step = ((hot - cold) * delta) / (2 * hot);
        assert(0 <= (hot - cold) * delta) by (nonlinear_arith)
            requires
                0 <= hot - cold,
                0 <= delta,
        ;
        assert(0 <= step) by {
            vstd::arithmetic::div_mod::lemma_div_pos_is_pos((hot - cold) * delta, 2 * hot);
        }
        vstd::arithmetic::div_mod::lemma_fundamental_div_mod((hot - cold) * delta, 2 * hot);
        let rem = ((hot - cold) * delta) % (2 * hot);
        assert(0 <= rem) by {
            vstd::arithmetic::div_mod::lemma_mod_bound((hot - cold) * delta, 2 * hot);
        }
        assert((hot - cold) * delta <= hot * delta) by (nonlinear_arith)
            requires
                hot - cold <= hot,
                0 <= delta,
        ;
        assert(2 * hot * step <= hot * delta);
        assert(2 * step <= delta) by (nonlinear_arith)
            requires
                2 * hot * step <= hot * delta,
                hot > 0,
        ;
    }
}

/// The harvest rule, computed exactly in the integer model. The returned
/// temperature is what the client predicts the server will report for the
/// guest after `harvest(at)` against the given cell.
pub fn harvest_result(guest_temperature: i8, cell: Cell) -> (t: i8)
    ensures
        t == harvested_temperature(guest_temperature, cell.spec_temperature()),
{
    let cell_temperature = cell.temperature();
    if guest_temperature == cell_temperature {
        return guest_temperature;
    }
    let ga: u32 = Cell::new(guest_temperature).abslute() as u32;
    let ca: u32 = cell.abslute() as u32;
    let hot: u32 = if ga >= ca {
        ga
    } else {
        ca
    };
    let cold: u32 = if ga >= ca {
        ca
    } else {
        ga
    };
    let delta: u32 = if guest_temperature >= cell_temperature {
        (guest_temperature as i32 - cell_temperature as i32) as u32
    } else {
        (cell_temperature as i32 - guest_temperature as i32) as u32
    };
    proof {
        assert(hot > 0);
        assert((hot - cold) as int * delta as int <= 255 * 255) by (nonlinear_arith)
            requires
                0 <= hot - cold <= 255,
                0 <= delta <= 255,
        ;
    }
    let step: u32 = ((hot - cold) * delta) / (2 * hot);
    proof {
        lemma_harvest_step_bounds(guest_temperature, cell.spec_temperature());
        assert(step == harvest_step(guest_temperature, cell.spec_temperature()));
    }
    if guest_temperature > cell_temperature {
        (guest_temperature as i32 - step as i32) as i8
    } else {
        (guest_temperature as i32 + step as i32) as i8
    }
}

/// Harvest monotonic approach: the guest's temperature moves toward the
/// cell's, never past it and never away from it, and stays where it is
/// when the two already agree.
pub proof fn lemma_harvest_monotonic_approach(guest_t: i8, cell_t: i8)
    ensures
        guest_t == cell_t ==> harvested_temperature(guest_t, cell_t) == guest_t,
        guest_t < cell_t ==> guest_t <= harvested_temperature(guest_t, cell_t) <= cell_t,
        guest_t > cell_t ==> cell_t <= harvested_temperature(guest_t, cell_t) <= guest_t,
{
    lemma_harvest_step_bounds(guest_t, cell_t);
}

/// The client-side harvest model: rejects an index outside the current
/// node's field before any request leaves the client, and otherwise
/// predicts the post-harvest snapshot, whose temperature has moved
/// toward the indexed cell's by the Carnot-scaled step. The node's field
/// is not mutated in this model; its server-side accounting is not
/// observable here.
pub fn predict_harvest(g: &Guest, field: &NodeData, at: usize) -> (r: Result<
    Guest,
    ProtocolError,
>)
    ensures
        r is Ok <==> (at as int) < field.temperatures().len(),
        r is Ok ==> r->Ok_0 == (Guest {
            temperature: harvested_temperature(g.temperature, field.temperatures()[at as int]),
            ..*g
        }),
        r is Err ==> r->Err_0 == ProtocolError::PreconditionViolation,
{
    if at >= field.len() {
        return Err(ProtocolError::PreconditionViolation);
    }
    let cell = field.0[at];
    let temperature = harvest_result(g.temperature, cell);
    Ok(Guest { temperature, ..*g })
}

/// Whether a split of the guest's session may transfer the requested
/// energy: the transfer is never negative and never more than the guest
/// holds.
pub open spec fn arrange_allowed(g: Guest, transfer_energy: i64) -> bool {
    0 <= transfer_energy <= g.energy
}

/// The client-side view of a split: the original keeps its energy less
/// the transfer, and the new guest receives exactly the transfer. The
/// server assigns the new guest's identity, so only its energy is
/// predicted.
pub open spec fn arranged(g: Guest, transfer_energy: i64) -> (Guest, i64) {
    (Guest { energy: (g.energy - transfer_energy) as i64, ..g }, transfer_energy)
}

/// The split model: rejects a transfer outside `[0, energy]` before any
/// request leaves the client, and otherwise predicts the pair's energies.
pub fn predict_arrange(g: &Guest, transfer_energy: i64) -> (r: Result<
    (Guest, i64),
    ProtocolError,
>)
    ensures
        r is Ok <==> arrange_allowed(*g, transfer_energy),
        r is Ok ==> r->Ok_0 == arranged(*g, transfer_energy),
        r is Err ==> r->Err_0 == ProtocolError::PreconditionViolation,
{
    if transfer_energy < 0 || transfer_energy > g.energy {
        return Err(ProtocolError::PreconditionViolation);
    }
    Ok((Guest { energy: g.energy - transfer_energy, ..*g }, transfer_energy))
}

/// Arrange conservation: a split moves exactly the requested energy, so
/// the pair's energies sum to the original's, and neither side is left
/// negative.
pub proof fn lemma_arrange_conserves_energy(g: Guest, transfer_energy: i64)
    requires
        arrange_allowed(g, transfer_energy),
    ensures
        arranged(g, transfer_energy).0.energy + arranged(g, transfer_energy).1 == g.energy,
        arranged(g, transfer_energy).0.energy >= 0,
        arranged(g, transfer_energy).1 >= 0,
{
}

/// Collects a batch of independently fetched nodes into one result: all
/// fetches must have succeeded, in which case the nodes come back in
/// request order; the first failure fails the whole batch, with no
/// partial-success aggregation.
pub fn collect_batch(results: Vec<Result<Node, ProtocolError>>) -> (r: Result<
    Vec<Node>,
    ProtocolError,
>)
    ensures
        r is Ok <==> (forall|j: int| 0 <= j < results@.len() ==> (#[trigger] results@[j]) is Ok),
        r is Ok ==> r->Ok_0@.len() == results@.len() && (forall|j: int|
            0 <= j < results@.len() ==> r->Ok_0@[j] == (#[trigger] results@[j])->Ok_0),
        r is Err ==> exists|i: int|
            0 <= i < results@.len() && (#[trigger] results@[i]) is Err && r->Err_0
                == results@[i]->Err_0 && (forall|j: int| 0 <= j < i ==> results@[j] is Ok),
{
    let mut rest = results;
    let ghost orig = rest@;
    let total: usize = rest.len();
    let mut out: Vec<Node> = Vec::new();
    let mut done: usize = 0;
    while rest.len() > 0
        invariant
            orig == results@,
            orig.len() == total,
            orig.len() == done + rest@.len(),
            forall|j: int| 0 <= j < rest@.len() ==> #[trigger] rest@[j] == orig[done + j],
            out@.len() == done,
            forall|j: int|
                0 <= j < done ==> (#[trigger] orig[j]) is Ok && out@[j] == orig[j]->Ok_0,
        decreases rest@.len(),
    {
        proof {
            assert(0 <= done < orig.len());
            assert(rest@[0] == orig[done as int]);
        }
        let item = rest.remove(0);
        match item {
            Ok(node) => {
                out.push(node);
                done = done + 1;
            }
            Err(e) => {
                proof {
                    assert((#[trigger] orig[done as int]) is Err);
                    assert(orig[done as int]->Err_0 == e);
                    assert(forall|j: int| 0 <= j < done ==> (#[trigger] orig[j]) is Ok);
                }
                return Err(e);
            }
        }
    }
    Ok(out)
}

/// Client-side session bound to one remotely owned guest. It caches the
/// latest authoritative snapshot and never mutates it in place: every
/// mutating call's server response replaces the snapshot wholesale.
pub struct VisitHandle {
    snapshot: Guest,
}

impl VisitHandle {
    /// The cached guest snapshot.
    pub closed spec fn spec_guest(&self) -> Guest {
        self.snapshot
    }

    /// Binds a handle to a freshly fetched guest snapshot.
    pub fn bind(guest: Guest) -> (h: VisitHandle)
        ensures
            h.spec_guest() == guest,
    {
        VisitHandle { snapshot: guest }
    }

    /// Read access to the cached snapshot.
    pub fn guest(&self) -> (g: &Guest)
        ensures
            *g == self.spec_guest(),
    {
        &self.snapshot
    }

    /// Accepts a mutating call's server response as the new authoritative
    /// snapshot, with no explicit refresh needed.
    pub fn commit(&mut self, response: Guest)
        ensures
            final(self).spec_guest() == response,
    {
        self.snapshot = response;
    }

    /// Pre-flight check for a walk: the vector must belong to the legal
    /// single-step vocabulary and the cached snapshot must hold at least
    /// one step's energy. A failure never reaches the transport.
    pub fn check_walk(&self, to: Direction) -> (r: Result<(), ProtocolError>)
        ensures
            r is Ok <==> (navi::is_allowed_step(to) && self.spec_guest().energy
                >= WALK_ENERGY_COST),
            r is Err ==> r->Err_0 == ProtocolError::PreconditionViolation,
    {
        if !navi::allowed_step(to) {
            return Err(ProtocolError::PreconditionViolation);
        }
        if self.snapshot.energy < WALK_ENERGY_COST {
            return Err(ProtocolError::PreconditionViolation);
        }
        Ok(())
    }

    /// Pre-flight check for a harvest or a heat injection: the index must
    /// fall inside the current node's field.
    pub fn check_field_index(&self, field: &NodeData, at: usize) -> (r: Result<
        (),
        ProtocolError,
    >)
        ensures
            r is Ok <==> (at as int) < field.temperatures().len(),
            r is Err ==> r->Err_0 == ProtocolError::PreconditionViolation,
    {
        if at < field.len() {
            Ok(())
        } else {
            Err(ProtocolError::PreconditionViolation)
        }
    }

    /// Pre-flight check for a split: the transfer must lie within the
    /// cached snapshot's energy.
    pub fn check_arrange(&self, transfer_energy: i64) -> (r: Result<(), ProtocolError>)
        ensures
            r is Ok <==> arrange_allowed(self.spec_guest(), transfer_energy),
            r is Err ==> r->Err_0 == ProtocolError::PreconditionViolation,
    {
        if transfer_energy < 0 || transfer_energy > self.snapshot.energy {
            return Err(ProtocolError::PreconditionViolation);
        }
        Ok(())
    }

    /// Completes a split: both sides of the pair were refreshed against
    /// the server, the original's snapshot is replaced, and a new handle
    /// is bound to the new guest's authoritative state.
    pub fn commit_arrange(&mut self, refreshed_self: Guest, refreshed_new: Guest) -> (h:
        VisitHandle)
        ensures
            final(self).spec_guest() == refreshed_self,
            h.spec_guest() == refreshed_new,
    {
        self.snapshot = refreshed_self;
        VisitHandle { snapshot: refreshed_new }
    }
}

/// Phantom-read refresh is idempotent: any two handles whose caches were
/// last replaced by the same authoritative snapshot, with no intervening
/// mutation, hold the same state.
pub proof fn lemma_refresh_idempotent(h1: VisitHandle, h2: VisitHandle, authoritative: Guest)
    requires
        h1.spec_guest() == authoritative,
        h2.spec_guest() == authoritative,
    ensures
        h1.spec_guest() == h2.spec_guest(),
{
}

impl PhantomRead for VisitHandle {
    type Entity = Guest;

    closed spec fn cached(&self) -> Guest {
        self.snapshot
    }

    fn refresh(&mut self, authoritative: Guest) {
        self.snapshot = authoritative;
    }
}

} // verus!

