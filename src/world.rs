use vstd::prelude::*;
use rand_pcg::Lcg128Xsl64;

use crate::entity::{
    action_events, decode_word, lemma_response_facts, lemma_response_keeps_energy, CellEvent, Direction, EntityView, GPCAEntity,
    GPCAEntityInternal,
};
use crate::grid::{lemma_set, Grid, GridView, EMPTY_CELL};
use crate::rng::{random_below, random_ratio};

verus! {

/// A request to run host callback `callback` for the entity `entity`.
#[derive(Clone, Copy, Debug, PartialEq, Eq, Structural)]
pub struct CallRequest {
    pub entity: u32,
    pub callback: usize,
}

/// What one scheduling step did.
#[derive(Clone, Copy, Debug, PartialEq, Eq, Structural)]
pub enum StepOutcome {
    /// Every slot was visited: the tick is over and the next one starts at
    /// slot zero.
    Finished,
    /// The entity in the current slot ran and the next slot is due.
    Ran,
    /// The entity in the current slot was removed; the slot now holds the
    /// former last entity, which is due next.
    Evicted,
    /// As `Ran`, and the action asks for a host callback.
    Invoke(CallRequest),
}

/// The abstract state of a world: the entities by slot, the grid, the next
/// slot due, and the settings that the scheduler reads.
pub struct WorldState {
    pub entities: Seq<EntityView>,
    pub grid: GridView,
    pub cursor: nat,
    pub use_energy: bool,
    pub callback_count: usize,
}

/// The result of one scheduling step on an abstract state.
pub struct Advance {
    pub state: WorldState,
    pub events: Seq<CellEvent>,
    pub outcome: StepOutcome,
}

impl WorldState {
    pub open spec fn pos_x(self, i: int) -> u32 {
        self.entities[i].internal.pos[0]
    }

    pub open spec fn pos_y(self, i: int) -> u32 {
        self.entities[i].internal.pos[1]
    }

    /// The entity in slot `i` is alive: the grid holds its slot at its
    /// position.
    pub open spec fn is_live(self, i: int) -> bool {
        self.grid.occupant(self.pos_x(i) as int, self.pos_y(i) as int) == Some(i as u32)
    }

    /// Every slot holds an entity whose id is its slot, whose program is
    /// non-empty with the instruction pointer inside it, and which stands
    /// inside the grid.
    pub open spec fn entity_ok(self, i: int) -> bool {
        let e = self.entities[i];
        &&& e.internal.id == i
        &&& e.code.len() > 0
        &&& e.code.len() <= usize::MAX
        &&& e.internal.rip < e.code.len()
        &&& self.grid.in_bounds(e.internal.pos[0] as int, e.internal.pos[1] as int)
    }

    /// A taken cell holds the slot of an entity that stands there.
    pub open spec fn cell_ok(self, x: int, y: int) -> bool {
        match self.grid.occupant(x, y) {
            Some(k) => k < self.entities.len() && self.pos_x(k as int) == x && self.pos_y(k as int)
                == y,
            None => true,
        }
    }

    pub open spec fn wf(self) -> bool {
        &&& self.grid.wf()
        &&& self.entities.len() < EMPTY_CELL
        &&& self.cursor <= self.entities.len()
        &&& forall|i: int| 0 <= i < self.entities.len() ==> #[trigger] self.entity_ok(i)
        &&& forall|x: int, y: int| #[trigger] self.cell_ok(x, y)
    }

    /// Live entities and the grid agree both ways.
    pub open spec fn grid_agreement(self) -> bool {
        &&& forall|i: int|
            0 <= i < self.entities.len() && #[trigger] self.is_live(i) ==> self.grid.occupant(
                self.pos_x(i) as int,
                self.pos_y(i) as int,
            ) == Some(self.entities[i].internal.id)
        &&& forall|x: int, y: int|
            #[trigger] self.grid.occupant(x, y) is Some ==> {
                let k = self.grid.occupant(x, y)->Some_0 as int;
                0 <= k < self.entities.len() && self.pos_x(k) == x && self.pos_y(k) == y
            }
    }

    /// No two live entities stand on one cell.
    pub open spec fn at_most_one(self) -> bool {
        forall|i: int, j: int|
            0 <= i < self.entities.len() && 0 <= j < self.entities.len() && i != j
                && #[trigger] self.is_live(i) && #[trigger] self.is_live(j) ==> self.pos_x(i)
                != self.pos_x(j) || self.pos_y(i) != self.pos_y(j)
    }

    /// Every live entity's instruction pointer lies inside its program.
    pub open spec fn ips_in_bounds(self) -> bool {
        forall|i: int|
            0 <= i < self.entities.len() && #[trigger] self.is_live(i)
                ==> self.entities[i].internal.rip < self.entities[i].code.len()
    }

    /// Every entity's instruction pointer lies inside its program, whether
    /// it is alive or waits for eviction at its next turn.
    pub open spec fn all_ips_in_bounds(self) -> bool {
        forall|i: int|
            0 <= i < self.entities.len() ==> #[trigger] self.entities[i].internal.rip
                < self.entities[i].code.len()
    }

    /// Every entity's id is its slot.
    pub open spec fn ids_are_slots(self) -> bool {
        forall|i: int| 0 <= i < self.entities.len() ==> #[trigger] self.entities[i].internal.id == i
    }

    /// The state after removing slot `i`: the last entity takes the slot
    /// and its id, and if the grid held it, the grid now holds the new id.
    pub open spec fn evict(self, i: int) -> WorldState {
        let last = self.entities.len() - 1;
        if i == last {
            WorldState { entities: self.entities.drop_last(), ..self }
        } else {
            let t = self.entities[last];
            let moved = EntityView {
                internal: GPCAEntityInternal { id: i as u32, ..t.internal },
                ..t
            };
            let grid = if self.grid.occupant(t.internal.pos[0] as int, t.internal.pos[1] as int)
                == Some(last as u32) {
                self.grid.set(t.internal.pos[0] as int, t.internal.pos[1] as int, i as u32)
            } else {
                self.grid
            };
            WorldState { entities: self.entities.update(i, moved).drop_last(), grid, ..self }
        }
    }

    /// One scheduling step: the entity in the current slot is checked for
    /// energy and life, then decodes one word, advances its instruction
    /// pointer and, when the predicate holds, performs the action.
    pub open spec fn advance(self) -> Advance {
        if self.cursor >= self.entities.len() {
            Advance {
                state: WorldState { cursor: 0, ..self },
                events: seq![],
                outcome: StepOutcome::Finished,
            }
        } else {
            let i = self.cursor as int;
            let e = self.entities[i];
            let x = e.internal.pos[0];
            let y = e.internal.pos[1];
            let live = self.is_live(i);
            // No cell event when another entity now holds the cell.
            let cleared = if live || self.grid.occupant(x as int, y as int) is None {
                seq![CellEvent::Cleared { x, y, id: e.internal.id, color: e.color }]
            } else {
                seq![]
            };
            if self.use_energy && e.internal.energy == 0 {
                let grid = if live {
                    self.grid.clear(x as int, y as int)
                } else {
                    self.grid
                };
                Advance {
                    state: WorldState { grid, ..self }.evict(i),
                    events: cleared,
                    outcome: StepOutcome::Evicted,
                }
            } else if !live {
                Advance { state: self.evict(i), events: cleared, outcome: StepOutcome::Evicted }
            } else {
                let e1 = if self.use_energy {
                    GPCAEntityInternal { energy: (e.internal.energy - 1) as u32, ..e.internal }
                } else {
                    e.internal
                };
                let instr = decode_word(e.code[e.internal.rip as int]);
                let e2 = GPCAEntityInternal {
                    rip: ((e.internal.rip + 1) % (e.code.len() as int)) as usize,
                    ..e1
                };
                if !e2.event_holds(instr.event, self.grid.neighbor_count(x as int, y as int)) {
                    Advance {
                        state: WorldState {
                            entities: self.entities.update(i, EntityView { internal: e2, ..e }),
                            cursor: self.cursor + 1,
                            ..self
                        },
                        events: seq![],
                        outcome: StepOutcome::Ran,
                    }
                } else {
                    let o = e2.response_outcome(instr.response, e.code.len() as usize, self.grid);
                    let outcome = match o.call {
                        Some(k) => if self.callback_count > 0 {
                            StepOutcome::Invoke(
                                CallRequest {
                                    entity: i as u32,
                                    callback: ((k as usize) as int % (self.callback_count as int)) as usize,
                                },
                            )
                        } else {
                            StepOutcome::Ran
                        },
                        None => StepOutcome::Ran,
                    };
                    Advance {
                        state: WorldState {
                            entities: self.entities.update(i, EntityView { internal: o.entity, ..e }),
                            grid: o.grid,
                            cursor: self.cursor + 1,
                            ..self
                        },
                        events: action_events(
                            e2,
                            o.entity,
                            e.color,
                            instr.response.is_move_step_spec(),
                            o.moved,
                        ),
                        outcome,
                    }
                }
            }
        }
    }

    /// The state after appending `e` in a new last slot, with its id set to
    /// that slot and its cell holding it.
    pub open spec fn spawn(self, e: EntityView) -> WorldState {
        let id = self.entities.len() as u32;
        WorldState {
            entities: self.entities.push(
                EntityView { internal: GPCAEntityInternal { id, ..e.internal }, ..e },
            ),
            grid: self.grid.set(e.internal.pos[0] as int, e.internal.pos[1] as int, id),
            ..self
        }
    }

    /// Whether `e` may be spawned: a well-formed program, and a free cell
    /// inside the grid.
    pub open spec fn can_spawn(self, e: EntityView) -> bool {
        &&& e.code.len() > 0
        &&& e.internal.rip < e.code.len()
        &&& self.grid.in_bounds(e.internal.pos[0] as int, e.internal.pos[1] as int)
        &&& self.grid.occupant(e.internal.pos[0] as int, e.internal.pos[1] as int) == None::<u32>
        &&& self.entities.len() + 1 < EMPTY_CELL
    }
}

/// The rest of a tick from state `s`: scheduling steps until the tick ends
/// or an action asks for a host callback. Gives the state reached, the cell
/// events in order, and the callback request, if any.
pub open spec fn tick(s: WorldState) -> (WorldState, Seq<CellEvent>, Option<CallRequest>)
    decreases 2 * s.entities.len() - s.cursor,
{
    let a = s.advance();
    match a.outcome {
        StepOutcome::Finished => (a.state, a.events, None),
        StepOutcome::Invoke(c) => (a.state, a.events, Some(c)),
        _ => if s.cursor < s.entities.len() {
            let rest = tick(a.state);
            (rest.0, a.events + rest.1, rest.2)
        } else {
            (a.state, a.events, None)
        },
    }
}

/// `code` with bit `bit` of word `k` flipped.
pub open spec fn flip_bit(code: Seq<u32>, k: int, bit: u32) -> Seq<u32> {
    code.update(k, code[k] ^ (1u32 << bit))
}

/// `mutated` is `code` itself, or `code` with one bit of one word flipped.
pub open spec fn mutated_from(mutated: Seq<u32>, code: Seq<u32>) -> bool {
    mutated == code || exists|k: int, bit: u32|
        0 <= k < code.len() && bit < 32 && mutated == #[trigger] flip_bit(code, k, bit)
}

/// Flips bit `bit` of word `index` of a program.
pub fn mutate_code(code: &mut Vec<u32>, index: usize, bit: u32)
    requires
        index < old(code)@.len(),
        bit < 32,
    ensures
        final(code)@ == flip_bit(old(code)@, index as int, bit),
{
    let w = code[index];
    code.set(index, w ^ (1u32 << bit));
}

/// Spawning keeps the state well-formed.
pub proof fn lemma_spawn_wf(s: WorldState, e: EntityView)
    requires
        s.wf(),
        s.can_spawn(e),
        e.code.len() <= usize::MAX,
    ensures
        s.spawn(e).wf(),
{
    let r = s.spawn(e);
    let px = e.internal.pos[0] as int;
    let py = e.internal.pos[1] as int;
    lemma_set(s.grid, px, py, s.entities.len() as u32);
    assert forall|j: int| 0 <= j < r.entities.len() implies #[trigger] r.entity_ok(j) by {
        if j < s.entities.len() {
            assert(s.entity_ok(j));
        }
    }
    assert forall|x: int, y: int| #[trigger] r.cell_ok(x, y) by {
        assert(s.cell_ok(x, y));
    }
}

/// Removing a slot that the grid no longer holds keeps the state
/// well-formed.
pub proof fn lemma_evict_wf(s: WorldState, i: int)
    requires
        s.wf(),
        0 <= i < s.entities.len(),
        s.cursor <= i,
        !s.is_live(i),
    ensures
        s.evict(i).wf(),
        s.evict(i).entities.len() == s.entities.len() - 1,
        s.evict(i).cursor == s.cursor,
        s.evict(i).grid.width == s.grid.width,
        s.evict(i).grid.height == s.grid.height,
{
    let last = s.entities.len() - 1;
    let r = s.evict(i);
    if i == last {
        assert forall|j: int| 0 <= j < r.entities.len() implies #[trigger] r.entity_ok(j) by {
            assert(s.entity_ok(j));
        }
        assert forall|x: int, y: int| #[trigger] r.cell_ok(x, y) by {
            assert(s.cell_ok(x, y));
        }
    } else {
        let t = s.entities[last];
        let tx = t.internal.pos[0] as int;
        let ty = t.internal.pos[1] as int;
        assert(s.entity_ok(last));
        assert(s.entity_ok(i));
        let held = s.grid.occupant(tx, ty) == Some(last as u32);
        if held {
            lemma_set(s.grid, tx, ty, i as u32);
        }
        assert forall|j: int| 0 <= j < r.entities.len() implies #[trigger] r.entity_ok(j) by {
            assert(s.entity_ok(j));
        }
        assert forall|x: int, y: int| #[trigger] r.cell_ok(x, y) by {
            assert(s.cell_ok(x, y));
            assert(s.cell_ok(s.pos_x(i) as int, s.pos_y(i) as int));
            if held && x == tx && y == ty {
            } else {
                if let Some(k) = s.grid.occupant(x, y) {
                    assert(k != last);
                    assert(k != i);
                }
            }
        }
    }
}

/// Emptying a cell keeps the state well-formed.
pub proof fn lemma_clear_wf(s: WorldState, x: int, y: int)
    requires
        s.wf(),
        s.grid.in_bounds(x, y),
    ensures
        (WorldState { grid: s.grid.clear(x, y), ..s }).wf(),
        s.grid.clear(x, y).occupant(x, y) == None::<u32>,
{
    let r = WorldState { grid: s.grid.clear(x, y), ..s };
    lemma_set(s.grid, x, y, EMPTY_CELL);
    assert forall|j: int| 0 <= j < r.entities.len() implies #[trigger] r.entity_ok(j) by {
        assert(s.entity_ok(j));
    }
    assert forall|x2: int, y2: int| #[trigger] r.cell_ok(x2, y2) by {
        assert(s.cell_ok(x2, y2));
    }
}

/// A well-formed state keeps the world's invariants: live entities and the
/// grid agree both ways, no two live entities share a cell, every live
/// entity's instruction pointer lies inside its program, and every entity's
/// id is its slot.
pub proof fn lemma_state_invariants(s: WorldState)
    requires
        s.wf(),
    ensures
        s.grid_agreement(),
        s.at_most_one(),
        s.ips_in_bounds(),
        s.all_ips_in_bounds(),
        s.ids_are_slots(),
{
    assert forall|i: int| 0 <= i < s.entities.len() implies #[trigger] s.entities[i].internal.rip
        < s.entities[i].code.len() by {
        assert(s.entity_ok(i));
    }
    assert forall|i: int| 0 <= i < s.entities.len() && #[trigger] s.is_live(i) implies s.grid.occupant(
        s.pos_x(i) as int,
        s.pos_y(i) as int,
    ) == Some(s.entities[i].internal.id) by {
        assert(s.entity_ok(i));
    }
    assert forall|x: int, y: int| #[trigger] s.grid.occupant(x, y) is Some implies {
        let k = s.grid.occupant(x, y)->Some_0 as int;
        0 <= k < s.entities.len() && s.pos_x(k) == x && s.pos_y(k) == y
    } by {
        assert(s.cell_ok(x, y));
    }
    assert forall|i: int| 0 <= i < s.entities.len() && #[trigger] s.is_live(i) implies s.entities[i].internal.rip
        < s.entities[i].code.len() by {
        assert(s.entity_ok(i));
    }
    assert forall|i: int| 0 <= i < s.entities.len() implies #[trigger] s.entities[i].internal.id == i by {
        assert(s.entity_ok(i));
    }
}

/// The slot of the state before a scheduling step that the entity in slot
/// `j` after it came from: after an eviction the current slot holds the
/// former last entity.
pub open spec fn advance_source(s: WorldState, j: int) -> int {
    if s.advance().outcome == StepOutcome::Evicted && j == s.cursor {
        s.entities.len() - 1
    } else {
        j
    }
}

/// With energy in use, a scheduling step never raises an entity's energy:
/// each entity after the step has at most the energy it had before it.
pub proof fn lemma_energy_non_increasing(s: WorldState)
    requires
        s.use_energy,
    ensures
        forall|j: int|
            0 <= j < s.advance().state.entities.len() ==> {
                let src = advance_source(s, j);
                &&& 0 <= src < s.entities.len()
                &&& #[trigger] s.advance().state.entities[j].internal.energy
                    <= s.entities[src].internal.energy
                &&& s.advance().state.entities[j].code == s.entities[src].code
                &&& s.advance().state.entities[j].color == s.entities[src].color
            },
        s.advance().state.use_energy,
{
    if s.cursor < s.entities.len() {
        let i = s.cursor as int;
        let e = s.entities[i];
        if !(e.internal.energy == 0) && s.is_live(i) {
            let e1 = GPCAEntityInternal { energy: (e.internal.energy - 1) as u32, ..e.internal };
            let instr = decode_word(e.code[e.internal.rip as int]);
            let e2 = GPCAEntityInternal {
                rip: ((e.internal.rip + 1) % (e.code.len() as int)) as usize,
                ..e1
            };
            lemma_response_keeps_energy(e2, instr.response, e.code.len() as usize, s.grid);
        }
    }
}

/// With energy in use, a stretch of a tick never raises energy: every
/// entity at its end carries the program and colour of an entity at its
/// start, and at most that entity's energy.
pub proof fn lemma_tick_energy_non_increasing(s: WorldState)
    requires
        s.use_energy,
    ensures
        forall|j: int|
            0 <= j < tick(s).0.entities.len() ==> exists|k: int|
                0 <= k < s.entities.len() && #[trigger] tick(s).0.entities[j].internal.energy
                    <= s.entities[k].internal.energy && tick(s).0.entities[j].code
                    == s.entities[k].code && tick(s).0.entities[j].color == s.entities[k].color,
    decreases 2 * s.entities.len() - s.cursor,
{
    let a = s.advance();
    lemma_energy_non_increasing(s);
    let recurse = match a.outcome {
        StepOutcome::Finished => false,
        StepOutcome::Invoke(_) => false,
        _ => s.cursor < s.entities.len(),
    };
    if recurse {
        lemma_tick_energy_non_increasing(a.state);
        assert(tick(s).0 == tick(a.state).0);
        assert forall|j: int| 0 <= j < tick(s).0.entities.len() implies exists|k: int|
            0 <= k < s.entities.len() && #[trigger] tick(s).0.entities[j].internal.energy
                <= s.entities[k].internal.energy && tick(s).0.entities[j].code
                == s.entities[k].code && tick(s).0.entities[j].color == s.entities[k].color by {
            let k1 = choose|k1: int|
                0 <= k1 < a.state.entities.len() && #[trigger] tick(a.state).0.entities[j].internal.energy
                    <= a.state.entities[k1].internal.energy && tick(a.state).0.entities[j].code
                    == a.state.entities[k1].code && tick(a.state).0.entities[j].color
                    == a.state.entities[k1].color;
            let k = advance_source(s, k1);
            assert(a.state.entities[k1].internal.energy <= s.entities[k].internal.energy);
        }
    } else {
        assert(tick(s).0 == a.state);
        assert forall|j: int| 0 <= j < tick(s).0.entities.len() implies exists|k: int|
            0 <= k < s.entities.len() && #[trigger] tick(s).0.entities[j].internal.energy
                <= s.entities[k].internal.energy && tick(s).0.entities[j].code
                == s.entities[k].code && tick(s).0.entities[j].color == s.entities[k].color by {
            let k = advance_source(s, j);
            assert(a.state.entities[j].internal.energy <= s.entities[k].internal.energy);
        }
    }
}

/// Every operation that takes a well-formed world leaves it well-formed,
/// so the invariants of `lemma_state_invariants` hold of every world.
pub proof fn lemma_world_invariants(w: &World)
    requires
        w.wf(),
    ensures
        w.state().wf(),
        w.state().grid_agreement(),
        w.state().at_most_one(),
        w.state().ips_in_bounds(),
        w.state().all_ips_in_bounds(),
        w.state().ids_are_slots(),
{
    lemma_state_invariants(w.state());
}

/// The seed used when none is given.
pub const DEFAULT_SEED: u128 = 0xcafef00dd15ea5e5;

/// The stream selector of the world's generator.
pub const GENERATOR_STREAM: u128 = 0xa02bdbf7bb3c0a7ac28fa16a64abf96;

/// The world: the entities by slot, the occupancy grid, the number of host
/// callbacks, a seeded generator, the energy switch and the chance of a
/// mutation on `create_entity`, as a ratio.
pub struct World {
    callback_count: usize,
    entities: Vec<GPCAEntity>,
    map: Grid,
    pseudo: Lcg128Xsl64,
    use_energy: bool,
    mutation_numerator: u32,
    mutation_denominator: u32,
    cursor: usize,
}

impl World {
    /// The abstract state of the world.
    pub closed spec fn state(&self) -> WorldState {
        WorldState {
            entities: self.entities@.map_values(|e: GPCAEntity| e@),
            grid: self.map@,
            cursor: self.cursor as nat,
            use_energy: self.use_energy,
            callback_count: self.callback_count,
        }
    }

    /// The mutation chance as `(numerator, denominator)`.
    pub closed spec fn mutation(&self) -> (u32, u32) {
        (self.mutation_numerator, self.mutation_denominator)
    }

    /// The abstract state is well-formed and the mutation chance is a
    /// valid ratio.
    pub open spec fn wf(&self) -> bool {
        &&& self.state().wf()
        &&& self.mutation().1 > 0
        &&& self.mutation().0 <= self.mutation().1
    }

    proof fn lemma_entity_view(&self, i: int)
        requires
            0 <= i < self.entities@.len(),
        ensures
            self.state().entities[i] == self.entities@[i]@,
            self.state().entities.len() == self.entities@.len(),
    {
    }

    /// Removes slot `i` by moving the last entity into it.
    fn evict(&mut self, i: usize)
        requires
            old(self).wf(),
            i < old(self).state().entities.len(),
            old(self).state().cursor <= i,
            !old(self).state().is_live(i as int),
        ensures
            final(self).wf(),
            final(self).state() == old(self).state().evict(i as int),
            final(self).mutation() == old(self).mutation(),
    {
        let ghost s = self.state();
        proof {
            lemma_evict_wf(s, i as int);
        }
        let last = self.entities.len() - 1;
        proof {
            self.lemma_entity_view(last as int);
            assert(s.entity_ok(last as int));
        }
        let tx = self.entities[last].internal.pos[0];
        let ty = self.entities[last].internal.pos[1];
        let held = match self.map.lookup(tx, ty) {
            Some(k) => k == last as u32,
            None => false,
        };
        let _ = self.entities.swap_remove(i);
        if i < last {
            self.entities[i].internal.id = i as u32;
            if held {
                self.map.set(i as u32, tx, ty);
            }
        }
        proof {
            assert(self.state().entities =~= s.evict(i as int).entities);
        }
    }

    /// One scheduling step: visits the slot under the cursor, or ends the
    /// tick when every slot was visited. Cell changes are appended to
    /// `events` in the order they happen.
    pub fn advance(&mut self, events: &mut Vec<CellEvent>) -> (r: StepOutcome)
        requires
            old(self).wf(),
        ensures
            final(self).wf(),
            final(self).state() == old(self).state().advance().state,
            final(events)@ == old(events)@ + old(self).state().advance().events,
            r == old(self).state().advance().outcome,
            final(self).mutation() == old(self).mutation(),
    {
        let ghost s = self.state();
        let len = self.entities.len();
        if self.cursor >= len {
            self.cursor = 0;
            proof {
                assert(self.state().entities =~= s.entities);
                assert forall|j: int| 0 <= j < s.entities.len() implies #[trigger] self.state().entity_ok(j) by {
                    assert(s.entity_ok(j));
                }
                assert forall|x: int, y: int| #[trigger] self.state().cell_ok(x, y) by {
                    assert(s.cell_ok(x, y));
                }
            }
            return StepOutcome::Finished;
        }
        let i = self.cursor;
        proof {
            self.lemma_entity_view(i as int);
            assert(s.entity_ok(i as int));
        }
        let x = self.entities[i].internal.pos[0];
        let y = self.entities[i].internal.pos[1];
        let id = self.entities[i].internal.id;
        let color = self.entities[i].color;
        let held = self.map.lookup(x, y);
        let live = match held {
            Some(k) => k == i as u32,
            None => false,
        };
        let report = live || held.is_none();
        if self.use_energy && self.entities[i].internal.energy == 0 {
            if live {
                proof {
                    lemma_clear_wf(s, x as int, y as int);
                }
                self.map.clear(x, y);
            }
            if report {
                events.push(CellEvent::Cleared { x, y, id, color });
            }
            self.evict(i);
            return StepOutcome::Evicted;
        }
        if !live {
            if report {
                events.push(CellEvent::Cleared { x, y, id, color });
            }
            self.evict(i);
            return StepOutcome::Evicted;
        }
        if self.use_energy {
            self.entities[i].decrement_energy();
        }
        let instr = self.entities[i].next().unwrap();
        if !self.entities[i].handle_event(instr.event, &self.map) {
            self.cursor = i + 1;
            proof {
                assert(self.state().entities =~= s.advance().state.entities);
                assert forall|j: int| 0 <= j < s.entities.len() implies #[trigger] self.state().entity_ok(j) by {
                    assert(s.entity_ok(j));
                }
                assert forall|x2: int, y2: int| #[trigger] self.state().cell_ok(x2, y2) by {
                    assert(s.cell_ok(x2, y2));
                }
            }
            return StepOutcome::Ran;
        }
        let code_len = self.entities[i].code.len();
        let ghost e2 = self.entities@[i as int].internal;
        proof {
            lemma_response_facts(e2, instr.response, code_len, self.map@);
        }
        let is_move = instr.response.is_move_step();
        if is_move {
            events.push(CellEvent::Cleared { x, y, id, color });
        }
        let call = self.entities[i].internal.handle_response(instr.response, code_len, &mut self.map);
        let nx = self.entities[i].internal.pos[0];
        let ny = self.entities[i].internal.pos[1];
        if is_move && (nx != x || ny != y) {
            events.push(CellEvent::Placed { x: nx, y: ny, id, color });
        }
        self.cursor = i + 1;
        proof {
            let o = e2.response_outcome(instr.response, code_len, s.grid);
            let t = self.state();
            assert(events@ =~= old(events)@ + s.advance().events);
            assert(t.entities =~= s.advance().state.entities);
            if o.moved {
                lemma_set(s.grid, x as int, y as int, EMPTY_CELL);
                lemma_set(
                    s.grid.clear(x as int, y as int),
                    o.entity.pos[0] as int,
                    o.entity.pos[1] as int,
                    i as u32,
                );
            }
            assert forall|j: int| 0 <= j < t.entities.len() implies #[trigger] t.entity_ok(j) by {
                assert(s.entity_ok(j));
            }
            assert forall|x2: int, y2: int| #[trigger] t.cell_ok(x2, y2) by {
                assert(s.cell_ok(x2, y2));
                if o.moved {
                    if let Some(k) = s.grid.occupant(x2, y2) {
                        if k == i as u32 {
                            assert(x2 == x && y2 == y);
                        }
                    }
                }
            }
        }
        match call {
            Some(k) => {
                if self.callback_count > 0 {
                    StepOutcome::Invoke(
                        CallRequest { entity: i as u32, callback: (k as usize) % self.callback_count },
                    )
                } else {
                    StepOutcome::Ran
                }
            },
            None => StepOutcome::Ran,
        }
    }

    /// Runs the tick on until it ends, or until an action asks for a host
    /// callback: then the request is returned and the next call goes on
    /// with the next slot. The host runs the callback between the two calls.
    pub fn step(&mut self, events: &mut Vec<CellEvent>) -> (r: Option<CallRequest>)
        requires
            old(self).wf(),
        ensures
            final(self).wf(),
            final(self).state() == tick(old(self).state()).0,
            final(events)@ == old(events)@ + tick(old(self).state()).1,
            r == tick(old(self).state()).2,
            final(self).mutation() == old(self).mutation(),
    {
        let ghost s0 = self.state();
        let ghost mut acc: Seq<CellEvent> = seq![];
        let ghost ev0 = events@;
        loop
            invariant
                self.wf(),
                self.mutation() == old(self).mutation(),
                events@ == ev0 + acc,
                ev0 == old(events)@,
                s0 == old(self).state(),
                tick(s0).0 == tick(self.state()).0,
                tick(s0).1 == acc + tick(self.state()).1,
                tick(s0).2 == tick(self.state()).2,
            decreases 2 * self.state().entities.len() - self.state().cursor,
        {
            let ghost cur = self.state();
            let r = self.advance(events);
            proof {
                let a = cur.advance();
                assert(ev0 + acc + a.events =~= ev0 + (acc + a.events));
                if cur.cursor < cur.entities.len() && !(a.outcome is Finished) && !(
                a.outcome is Invoke) {
                    assert(acc + (a.events + tick(a.state).1) =~= (acc + a.events) + tick(
                        a.state,
                    ).1);
                }
                acc = acc + a.events;
            }
            match r {
                StepOutcome::Finished => {
                    proof {
                        assert(acc =~= acc + seq![]);
                    }
                    return None;
                },
                StepOutcome::Invoke(c) => {
                    return Some(c);
                },
                _ => {},
            }
        }
    }

    /// An empty world on a `width * height` grid, its generator seeded with
    /// `state` (or `DEFAULT_SEED`).
    pub fn new(
        callback_count: usize,
        entity_capacity: usize,
        width: u32,
        height: u32,
        use_energy: bool,
        mutation_numerator: u32,
        mutation_denominator: u32,
        state: Option<u128>,
    ) -> (r: World)
        requires
            width > 0,
            height > 0,
            width * height <= usize::MAX,
            mutation_denominator > 0,
            mutation_numerator <= mutation_denominator,
        ensures
            r.wf(),
            r.state().entities.len() == 0,
            r.state().cursor == 0,
            r.state().grid.width == width,
            r.state().grid.height == height,
            forall|x: int, y: int| #[trigger] r.state().grid.occupant(x, y) == None::<u32>,
            r.state().use_energy == use_energy,
            r.state().callback_count == callback_count,
            r.mutation() == (mutation_numerator, mutation_denominator),
    {
        let seed = match state {
            Some(s) => s,
            None => DEFAULT_SEED,
        };
        let r = World {
            callback_count,
            entities: Vec::with_capacity(entity_capacity),
            map: Grid::new(width, height),
            pseudo: Lcg128Xsl64::new(seed, GENERATOR_STREAM),
            use_energy,
            mutation_numerator,
            mutation_denominator,
            cursor: 0,
        };
        proof {
            assert forall|x: int, y: int| #[trigger] r.state().cell_ok(x, y) by {
                assert(r.state().grid.occupant(x, y) == None::<u32>);
            }
        }
        r
    }

    /// Adds `entity` in a new last slot: its id becomes that slot and its
    /// cell holds it.
    pub fn push_entity(&mut self, entity: GPCAEntity)
        requires
            old(self).wf(),
            old(self).state().can_spawn(entity@),
        ensures
            final(self).wf(),
            final(self).state() == old(self).state().spawn(entity@),
            final(self).mutation() == old(self).mutation(),
            final(self).state().grid.occupant(
                entity.internal.pos[0] as int,
                entity.internal.pos[1] as int,
            ) == Some(old(self).state().entities.len() as u32),
            forall|x: int, y: int|
                #![trigger final(self).state().grid.occupied(x, y)]
                #![trigger final(self).state().grid.occupant(x, y)]
                (x != entity.internal.pos[0] || y != entity.internal.pos[1]) ==> {
                    &&& final(self).state().grid.occupied(x, y) == old(self).state().grid.occupied(x, y)
                    &&& final(self).state().grid.occupant(x, y) == old(self).state().grid.occupant(x, y)
                },
    {
        let ghost s = self.state();
        proof {
            assert(entity.code@.len() == entity.code.len());
            lemma_spawn_wf(s, entity@);
            lemma_set(s.grid, entity.internal.pos[0] as int, entity.internal.pos[1] as int, s.entities.len() as u32);
        }
        let mut entity = entity;
        let id = self.entities.len() as u32;
        entity.internal.id = id;
        self.map.set(id, entity.internal.pos[0], entity.internal.pos[1]);
        self.entities.push(entity);
        proof {
            assert(self.state().entities =~= s.spawn(entity@).entities);
        }
    }

    /// As `push_entity`, after a possible mutation: with the world's
    /// mutation chance one bit of one word of the program is flipped, word
    /// and bit drawn uniformly from the world's generator.
    pub fn create_entity(&mut self, entity: GPCAEntity)
        requires
            old(self).wf(),
            old(self).state().can_spawn(entity@),
        ensures
            final(self).wf(),
            final(self).mutation() == old(self).mutation(),
            exists|code: Seq<u32>|
                #![trigger mutated_from(code, entity.code@)]
                mutated_from(code, entity.code@) && final(self).state() == old(
                    self,
                ).state().spawn(EntityView { code, ..entity@ }),
            old(self).mutation().0 == 0 ==> final(self).state() == old(self).state().spawn(
                entity@,
            ),
            final(self).state().grid.occupant(
                entity.internal.pos[0] as int,
                entity.internal.pos[1] as int,
            ) == Some(old(self).state().entities.len() as u32),
            forall|x: int, y: int|
                #![trigger final(self).state().grid.occupied(x, y)]
                #![trigger final(self).state().grid.occupant(x, y)]
                (x != entity.internal.pos[0] || y != entity.internal.pos[1]) ==> {
                    &&& final(self).state().grid.occupied(x, y) == old(self).state().grid.occupied(x, y)
                    &&& final(self).state().grid.occupant(x, y) == old(self).state().grid.occupant(x, y)
                },
            old(self).mutation().0 == old(self).mutation().1 ==> exists|k: int, bit: u32|
                #![trigger flip_bit(entity.code@, k, bit)]
                0 <= k < entity.code@.len() && bit < 32 && final(self).state() == old(
                    self,
                ).state().spawn(EntityView { code: flip_bit(entity.code@, k, bit), ..entity@ }),
    {
        let ghost code0 = entity.code@;
        let ghost v0 = entity@;
        let ghost mut flipped: Option<(int, u32)> = None;
        let mut entity = entity;
        if self.mutation_numerator != 0 {
            if random_ratio(&mut self.pseudo, self.mutation_numerator, self.mutation_denominator) {
                let word = random_below(&mut self.pseudo, entity.code.len() as u64) as usize;
                let bit = random_below(&mut self.pseudo, 32) as u32;
                mutate_code(&mut entity.code, word, bit);
                assert(mutated_from(entity.code@, code0));
                proof {
                    flipped = Some((word as int, bit));
                }
            }
        }
        proof {
            assert(mutated_from(entity.code@, code0));
            assert(entity@ == EntityView { code: entity.code@, ..v0 });
        }
        let ghost code1 = entity.code@;
        self.push_entity(entity);
        assert(mutated_from(code1, code0));
        proof {
            if let Some((k, b)) = flipped {
                assert(code1 == flip_bit(code0, k, b));
            }
        }
    }

    /// Whether `(x, y)` is taken; outside the grid counts as taken.
    pub fn get(&self, x: u32, y: u32) -> (r: bool)
        requires
            self.wf(),
        ensures
            r == self.state().grid.occupied(x as int, y as int),
    {
        self.map.get(x, y)
    }

    /// The slot of the entity at `(x, y)`, if any.
    pub fn entity_at(&self, x: u32, y: u32) -> (r: Option<u32>)
        requires
            self.wf(),
        ensures
            r == self.state().grid.occupant(x as int, y as int),
    {
        self.map.lookup(x, y)
    }

    /// The slot of the entity one step from `entity` in direction `dir`.
    pub fn get_entity_at_direction(&self, entity: &GPCAEntityInternal, dir: Direction) -> (r:
        Option<u32>)
        requires
            self.wf(),
        ensures
            r == self.state().grid.occupant(
                dir.target_x(entity.pos[0], self.state().grid.width) as int,
                dir.target_y(entity.pos[1], self.state().grid.height) as int,
            ),
    {
        let mut pos = entity.pos;
        dir.perform_direction(&mut pos, self.map.width(), self.map.height());
        self.map.lookup(pos[0], pos[1])
    }

    /// The number of taken cells around `(x, y)`.
    pub fn surrounding_square_count(&self, x: u32, y: u32) -> (r: usize)
        requires
            self.wf(),
        ensures
            r == self.state().grid.neighbor_count(x as int, y as int),
            r <= 8,
    {
        self.map.neighbor_count(x, y)
    }

    /// Empties the cell `(x, y)`; an entity there dies at its next turn.
    pub fn remove(&mut self, x: u32, y: u32)
        requires
            old(self).wf(),
            old(self).state().grid.in_bounds(x as int, y as int),
        ensures
            final(self).wf(),
            final(self).state() == (WorldState {
                grid: old(self).state().grid.clear(x as int, y as int),
                ..old(self).state()
            }),
            final(self).mutation() == old(self).mutation(),
    {
        proof {
            lemma_clear_wf(self.state(), x as int, y as int);
        }
        self.map.clear(x, y);
    }

    /// Sets the energy of the entity in slot `id`.
    pub fn set_energy(&mut self, id: u32, energy: u32)
        requires
            old(self).wf(),
            id < old(self).state().entities.len(),
        ensures
            final(self).wf(),
            final(self).state() == (WorldState {
                entities: old(self).state().entities.update(
                    id as int,
                    EntityView {
                        internal: GPCAEntityInternal {
                            energy,
                            ..old(self).state().entities[id as int].internal
                        },
                        ..old(self).state().entities[id as int]
                    },
                ),
                ..old(self).state()
            }),
            final(self).mutation() == old(self).mutation(),
    {
        let ghost s = self.state();
        self.entities[id as usize].set_energy(energy);
        proof {
            let t = self.state();
            assert(t.entities =~= s.entities.update(
                id as int,
                EntityView {
                    internal: GPCAEntityInternal { energy, ..s.entities[id as int].internal },
                    ..s.entities[id as int]
                },
            ));
            assert forall|j: int| 0 <= j < t.entities.len() implies #[trigger] t.entity_ok(j) by {
                assert(s.entity_ok(j));
            }
            assert forall|x: int, y: int| #[trigger] t.cell_ok(x, y) by {
                assert(s.cell_ok(x, y));
            }
        }
    }

    /// The entities, by slot.
    pub fn get_entites(&self) -> (r: &Vec<GPCAEntity>)
        ensures
            r@.map_values(|e: GPCAEntity| e@) == self.state().entities,
    {
        &self.entities
    }

    pub fn entity_count(&self) -> (r: usize)
        ensures
            r == self.state().entities.len(),
    {
        self.entities.len()
    }

    pub fn width(&self) -> (r: u32)
        ensures
            r == self.state().grid.width,
    {
        self.map.width()
    }

    pub fn height(&self) -> (r: u32)
        ensures
            r == self.state().grid.height,
    {
        self.map.height()
    }

    pub fn use_energy(&self) -> (r: bool)
        ensures
            r == self.state().use_energy,
    {
        self.use_energy
    }

    pub fn callback_count(&self) -> (r: usize)
        ensures
            r == self.state().callback_count,
    {
        self.callback_count
    }

    /// A number below `bound` from the world's generator.
    pub fn random_below(&mut self, bound: u64) -> (r: u64)
        requires
            old(self).wf(),
            bound > 0,
        ensures
            final(self).wf(),
            r < bound,
            final(self).state() == old(self).state(),
            final(self).mutation() == old(self).mutation(),
    {
        random_below(&mut self.pseudo, bound)
    }
}

} // verus!
