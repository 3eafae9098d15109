use vstd::prelude::*;

use crate::creature::Action;
use crate::creature::Color;
use crate::creature::Creature;
use crate::creature::CreatureType;
use crate::creature::Position;
use crate::creature::creature_of;
use crate::creature::get;
use crate::creature::spec_act;
use crate::neighbors::Neighbors;
use crate::queue::TurnQueue;
use crate::queue::spec_push;
use crate::queue::spec_push_all;

verus! {

/// The mathematical snapshot of a grid: its dimensions, the creature in
/// every cell, and the pending queue entries in order.
#[verifier::ext_equal]
pub ghost struct GridModel {
    pub width: u32,
    pub height: u32,
    pub cells: Seq<Creature>,
    pub queue: Seq<usize>,
}

/// The linear index of a position. The row pitch of this layout is the grid
/// height: `index = y * height + x`.
pub open spec fn pos_index(height: u32, p: Position) -> int {
    p.1 * height + p.0
}

impl GridModel {
    /// A position that lies inside the `[0, width) x [0, height)` rectangle.
    pub open spec fn valid_pos(self, p: Position) -> bool {
        p.0 < self.width && p.1 < self.height
    }

    /// The linear index of a position in this grid's layout.
    pub open spec fn index_of(self, p: Position) -> int {
        pos_index(self.height, p)
    }

    /// The position a queue index is decoded to: `(index % width,
    /// index / height)`.
    pub open spec fn pos_at(self, index: usize) -> Position {
        (((index as int) % (self.width as int)) as u32,
            ((index as int) / (self.height as int)) as u32)
    }

    /// Every in-bounds position maps to an index below the cell array's
    /// length. This is the condition under which neighbor reads can never
    /// hit the invalid-index fault; square grids always satisfy it.
    pub open spec fn closed_layout(self) -> bool {
        forall|q: Position| self.valid_pos(q) ==> #[trigger] self.index_of(q) < self.cells.len()
    }
}

/// The queue entries a neighbor list contributes, in construction order.
pub open spec fn entry_indices(height: u32, entries: Seq<(CreatureType, Position)>) -> Seq<usize> {
    entries.map_values(|e: (CreatureType, Position)| pos_index(height, e.1) as usize)
}

/// The snapshot entry for one neighbor cell.
pub open spec fn entry_at(m: GridModel, q: Position) -> (CreatureType, Position) {
    (m.cells[m.index_of(q)].creature_type, q)
}

/// The edge-clipped neighbor snapshot taken at `p`: one entry per in-bounds
/// adjacent cell, in the order top-left, top, top-right, left, right,
/// bottom-left, bottom, bottom-right. A neighbor in a compass direction is
/// present only if `p` is strictly inside the boundary on that side; there
/// is no wraparound.
pub open spec fn spec_neighbor_entries(m: GridModel, p: Position) -> Seq<(CreatureType, Position)> {
    let x = p.0;
    let y = p.1;
    let top = y > 0;
    let bottom = y + 1 < m.height;
    let left = x > 0;
    let right = x + 1 < m.width;
    (if top && left { seq![entry_at(m, (((x - 1) as u32), ((y - 1) as u32)))] } else { Seq::empty() })
    + (if top { seq![entry_at(m, (x, ((y - 1) as u32)))] } else { Seq::empty() })
    + (if top && right { seq![entry_at(m, (((x + 1) as u32), ((y - 1) as u32)))] } else { Seq::empty() })
    + (if left { seq![entry_at(m, (((x - 1) as u32), y))] } else { Seq::empty() })
    + (if right { seq![entry_at(m, (((x + 1) as u32), y))] } else { Seq::empty() })
    + (if bottom && left { seq![entry_at(m, (((x - 1) as u32), ((y + 1) as u32)))] } else { Seq::empty() })
    + (if bottom { seq![entry_at(m, (x, ((y + 1) as u32)))] } else { Seq::empty() })
    + (if bottom && right { seq![entry_at(m, (((x + 1) as u32), ((y + 1) as u32)))] } else { Seq::empty() })
}

/// What one action does to the grid state. `nbr_idxs` is the queue-entry
/// list of the acting cell's pre-mutation neighbor snapshot: both `Install`
/// and `QueueNeighbors` re-activate through that snapshot, never through the
/// mutated grid.
pub open spec fn spec_apply_action(m: GridModel, nbr_idxs: Seq<usize>, a: Action) -> GridModel {
    match a {
        Action::Install(q, c) => GridModel {
            cells: m.cells.update(m.index_of(q), c),
            queue: spec_push_all(spec_push(m.queue, m.index_of(q) as usize), nbr_idxs),
            ..m
        },
        Action::Clear(q) => GridModel {
            cells: m.cells.update(m.index_of(q), creature_of(CreatureType::Empty)),
            ..m
        },
        Action::Queue(q) => GridModel { queue: spec_push(m.queue, m.index_of(q) as usize), ..m },
        Action::QueueNeighbors => GridModel { queue: spec_push_all(m.queue, nbr_idxs), ..m },
        Action::Idle => m,
    }
}

/// An ordered action list applied front first.
pub open spec fn spec_apply_actions(
    m: GridModel,
    nbr_idxs: Seq<usize>,
    actions: Seq<Action>,
) -> GridModel
    decreases actions.len(),
{
    if actions.len() == 0 {
        m
    } else {
        spec_apply_actions(spec_apply_action(m, nbr_idxs, actions[0]), nbr_idxs, actions.drop_first())
    }
}

/// One queue entry evaluated: pop the front index, decode its position,
/// snapshot its neighbors, let the occupant decide, and apply the decision.
pub open spec fn spec_process_front(m: GridModel) -> GridModel {
    let index = m.queue[0];
    let popped = GridModel { queue: m.queue.drop_first(), ..m };
    let p = popped.pos_at(index);
    let nbr_idxs = entry_indices(popped.height, spec_neighbor_entries(popped, p));
    spec_apply_actions(popped, nbr_idxs, spec_act(popped.cells[index as int], p))
}

/// At most `n` evaluations, stopping early only if the queue empties.
pub open spec fn spec_run(m: GridModel, n: nat) -> GridModel
    decreases n,
{
    if n == 0 || m.queue.len() == 0 {
        m
    } else {
        spec_run(spec_process_front(m), (n - 1) as nat)
    }
}

/// The indices `spec_run(m, n)` evaluates, in order.
pub open spec fn spec_drained(m: GridModel, n: nat) -> Seq<usize>
    decreases n,
{
    if n == 0 || m.queue.len() == 0 {
        Seq::empty()
    } else {
        seq![m.queue[0]] + spec_drained(spec_process_front(m), (n - 1) as nat)
    }
}

/// The simulation world: a fixed-size linear array of creatures — one per
/// cell, `Empty` standing for an unoccupied cell — plus the turn queue of
/// cell indices awaiting evaluation.
pub struct Grid {
    pub width: u32,
    pub height: u32,
    pub data: Vec<Creature>,
    pub turn_queue: TurnQueue,
}

impl View for Grid {
    type V = GridModel;

    open spec fn view(&self) -> GridModel {
        GridModel {
            width: self.width,
            height: self.height,
            cells: self.data@,
            queue: self.turn_queue@,
        }
    }
}

impl Grid {
    /// The grid's invariant: the cell array has exactly `width * height`
    /// entries, that product fits the index arithmetic, and the turn queue
    /// holds distinct, in-range cell indices.
    pub open spec fn wf(&self) -> bool {
        &&& self.data@.len() == self.width * self.height
        &&& self.width * self.height <= u32::MAX
        &&& self.turn_queue.wf()
        &&& forall|k: int|
            0 <= k < self.turn_queue@.len() ==> (self.turn_queue@[k] as int) < self.data@.len()
    }

    /// Allocate a `width * height` grid with every cell `Empty` and an
    /// empty turn queue.
    pub fn new(width: u32, height: u32) -> (r: Grid)
        requires
            width * height <= u32::MAX,
        ensures
            r.wf(),
            r.width == width,
            r.height == height,
            r@.cells.len() == width * height,
            forall|k: int| 0 <= k < r@.cells.len() ==> r@.cells[k] == creature_of(CreatureType::Empty),
            r@.queue == Seq::<usize>::empty(),
    {
        let grid_size: u32 = width * height;
        let mut grid_data: Vec<Creature> = Vec::new();
        let mut i: u32 = 0;
        while i < grid_size
            invariant
                i <= grid_size,
                grid_data@.len() == i as int,
                forall|k: int| 0 <= k < i ==> grid_data@[k] == creature_of(CreatureType::Empty),
            decreases grid_size - i,
        {
            let creature = get(CreatureType::Empty);
            grid_data.push(creature);
            i = i + 1;
        }
        Grid { width, height, data: grid_data, turn_queue: TurnQueue::new() }
    }

    /// Reinitialize every cell to `Empty`, preserving the dimensions and
    /// leaving the turn queue untouched.
    pub fn reset(&mut self)
        requires
            old(self).wf(),
        ensures
            final(self).wf(),
            final(self).width == old(self).width,
            final(self).height == old(self).height,
            final(self)@.cells.len() == old(self)@.cells.len(),
            forall|k: int|
                0 <= k < final(self)@.cells.len()
                    ==> final(self)@.cells[k] == creature_of(CreatureType::Empty),
            final(self)@.queue == old(self)@.queue,
    {
        let grid_size: u32 = self.width * self.height;
        let mut grid_data: Vec<Creature> = Vec::new();
        let mut i: u32 = 0;
        while i < grid_size
            invariant
                i <= grid_size,
                grid_data@.len() == i as int,
                forall|k: int| 0 <= k < i ==> grid_data@[k] == creature_of(CreatureType::Empty),
            decreases grid_size - i,
        {
            let creature = get(CreatureType::Empty);
            grid_data.push(creature);
            i = i + 1;
        }
        self.data = grid_data;
    }

    /// The single bounds-checking chokepoint: map a position to its linear
    /// index. Positions whose index would fall outside the cell array are
    /// the invalid-index fault and are excluded up front.
    pub fn position_to_index(&self, position: Position) -> (r: usize)
        requires
            self.wf(),
            self@.index_of(position) < self@.cells.len(),
        ensures
            r == self@.index_of(position),
    {
        let x: u32 = position.0;
        let y: u32 = position.1;
        let index: usize = (y * self.height + x) as usize;
        index
    }

    /// Decode a cell index back to a position.
    pub fn index_to_position(&self, index: usize) -> (r: Position)
        requires
            self.wf(),
            self.width > 0,
            self.height > 0,
            index < self@.cells.len(),
        ensures
            r == self@.pos_at(index),
    {
        ((index as u32) % self.width, (index as u32) / self.height)
    }

    /// Read the occupant at a position.
    pub fn get_cell(&self, position: Position) -> (r: Creature)
        requires
            self.wf(),
            self@.index_of(position) < self@.cells.len(),
        ensures
            r == self@.cells[self@.index_of(position)],
    {
        let index: usize = self.position_to_index(position);
        self.data[index]
    }

    /// Replace the occupant at a position and unconditionally activate that
    /// cell for the next step: the sole entry point by which an external
    /// caller introduces new activity.
    pub fn set_cell(&mut self, position: Position, creature: Creature)
        requires
            old(self).wf(),
            old(self)@.index_of(position) < old(self)@.cells.len(),
        ensures
            final(self).wf(),
            final(self).width == old(self).width,
            final(self).height == old(self).height,
            final(self)@.cells == old(self)@.cells.update(old(self)@.index_of(position), creature),
            final(self)@.queue == spec_push(old(self)@.queue, old(self)@.index_of(position) as usize),
    {
        let index: usize = self.position_to_index(position);
        self.data[index] = creature;
        self.turn_queue.push(index);
        proof {
            crate::queue::lemma_push_bound(
                old(self).turn_queue@,
                index,
                self.data@.len() as int,
            );
        }
    }

    /// Build the edge-clipped neighbor snapshot at a position: one entry per
    /// in-bounds adjacent cell, clockwise from the top-left. Never enqueues.
    #[verifier::rlimit(50)]
    pub fn get_neighbors(&self, position: Position) -> (r: Neighbors)
        requires
            self.wf(),
            self@.valid_pos(position),
            self@.closed_layout(),
        ensures
            r.my_pos == position,
            r.neighbors@ == spec_neighbor_entries(self@, position),
    {
        let x: u32 = position.0;
        let y: u32 = position.1;
        let mut neighbor_list: Vec<(CreatureType, Position)> = Vec::new();

        let top_free = y > 0;
        let bottom_free = y < self.height - 1;
        let left_free = x > 0;
        let right_free = x < self.width - 1;

        let ghost m = self@;
        let ghost s1 = if top_free && left_free { seq![entry_at(m, (((x - 1) as u32), ((y - 1) as u32)))] } else { Seq::<(CreatureType, Position)>::empty() };
        let ghost s2 = if top_free { seq![entry_at(m, (x, ((y - 1) as u32)))] } else { Seq::<(CreatureType, Position)>::empty() };
        let ghost s3 = if top_free && right_free { seq![entry_at(m, (((x + 1) as u32), ((y - 1) as u32)))] } else { Seq::<(CreatureType, Position)>::empty() };
        let ghost s4 = if left_free { seq![entry_at(m, (((x - 1) as u32), y))] } else { Seq::<(CreatureType, Position)>::empty() };
        let ghost s5 = if right_free { seq![entry_at(m, (((x + 1) as u32), y))] } else { Seq::<(CreatureType, Position)>::empty() };
        let ghost s6 = if bottom_free && left_free { seq![entry_at(m, (((x - 1) as u32), ((y + 1) as u32)))] } else { Seq::<(CreatureType, Position)>::empty() };
        let ghost s7 = if bottom_free { seq![entry_at(m, (x, ((y + 1) as u32)))] } else { Seq::<(CreatureType, Position)>::empty() };
        let ghost s8 = if bottom_free && right_free { seq![entry_at(m, (((x + 1) as u32), ((y + 1) as u32)))] } else { Seq::<(CreatureType, Position)>::empty() };

        if top_free {
            if left_free {
                let pos: Position = (x - 1, y - 1);
                neighbor_list.push((self.get_cell(pos).creature_type, pos));
            }
            let pos: Position = (x, y - 1);
            neighbor_list.push((self.get_cell(pos).creature_type, pos));
            if right_free {
                let pos: Position = (x + 1, y - 1);
                neighbor_list.push((self.get_cell(pos).creature_type, pos));
            }
        }
        proof {
            assert(neighbor_list@ =~= s1 + s2 + s3);
        }

        if left_free {
            let pos: Position = (x - 1, y);
            neighbor_list.push((self.get_cell(pos).creature_type, pos));
        }
        if right_free {
            let pos: Position = (x + 1, y);
            neighbor_list.push((self.get_cell(pos).creature_type, pos));
        }
        proof {
            assert(neighbor_list@ =~= s1 + s2 + s3 + s4 + s5);
        }

        if bottom_free {
            if left_free {
                let pos: Position = (x - 1, y + 1);
                neighbor_list.push((self.get_cell(pos).creature_type, pos));
            }
            let pos: Position = (x, y + 1);
            neighbor_list.push((self.get_cell(pos).creature_type, pos));
            if right_free {
                let pos: Position = (x + 1, y + 1);
                neighbor_list.push((self.get_cell(pos).creature_type, pos));
            }
        }
        proof {
            assert(neighbor_list@ =~= s1 + s2 + s3 + s4 + s5 + s6 + s7 + s8);
            assert(spec_neighbor_entries(m, position) == s1 + s2 + s3 + s4 + s5 + s6 + s7 + s8);
        }
        Neighbors { my_pos: position, neighbors: neighbor_list }
    }

    /// Push the queue entry of every neighbor in the snapshot, in order.
    fn queue_neighbors(&mut self, neighbors: &Neighbors)
        requires
            old(self).wf(),
            forall|k: int|
                0 <= k < neighbors.neighbors@.len()
                    ==> pos_index(old(self).height, (#[trigger] neighbors.neighbors@[k]).1)
                        < old(self)@.cells.len(),
        ensures
            final(self).wf(),
            final(self).width == old(self).width,
            final(self).height == old(self).height,
            final(self)@.cells == old(self)@.cells,
            final(self)@.queue == spec_push_all(
                old(self)@.queue,
                entry_indices(old(self).height, neighbors.neighbors@),
            ),
            final(self)@.queue.len() >= old(self)@.queue.len(),
    {
        let ghost idxs = entry_indices(self.height, neighbors.neighbors@);
        let ghost q0 = self.turn_queue@;
        let mut k: usize = 0;
        proof {
            assert(idxs.subrange(0, idxs.len() as int) =~= idxs);
        }
        while k < neighbors.neighbors.len()
            invariant
                k <= idxs.len(),
                idxs.len() == neighbors.neighbors@.len(),
                idxs == entry_indices(self.height, neighbors.neighbors@),
                self.wf(),
                self.width == old(self).width,
                self.height == old(self).height,
                self@.cells == old(self)@.cells,
                q0 == old(self)@.queue,
                forall|t: int|
                    0 <= t < neighbors.neighbors@.len()
                        ==> pos_index(self.height, (#[trigger] neighbors.neighbors@[t]).1)
                            < self@.cells.len(),
                spec_push_all(self.turn_queue@, idxs.subrange(k as int, idxs.len() as int))
                    == spec_push_all(q0, idxs),
                self.turn_queue@.len() >= q0.len(),
            decreases idxs.len() - k,
        {
            let entry: (CreatureType, Position) = neighbors.neighbors[k];
            let index: usize = self.position_to_index(entry.1);
            proof {
                assert(idxs[k as int] == index);
            }
            let ghost qpre = self.turn_queue@;
            self.turn_queue.push(index);
            proof {
                crate::queue::lemma_push_bound(qpre, index, self@.cells.len() as int);
                let sub = idxs.subrange(k as int, idxs.len() as int);
                assert(sub[0] == idxs[k as int]);
                assert(sub.drop_first() =~= idxs.subrange(k as int + 1, idxs.len() as int));
                assert(spec_push_all(qpre, sub) == spec_push_all(
                    self.turn_queue@,
                    idxs.subrange(k as int + 1, idxs.len() as int),
                ));
            }
            k = k + 1;
        }
        proof {
            assert(idxs.subrange(idxs.len() as int, idxs.len() as int) =~= Seq::<usize>::empty());
        }
    }

    /// Advance the automaton one tick. Let `n` be the number of pending
    /// entries when the call begins: exactly those entries are popped and
    /// evaluated, in order; activations they cause are deferred to the next
    /// call. The whole effect is pinned down by `spec_run`.
    #[verifier::rlimit(100)]
    pub fn step(&mut self)
        requires
            old(self).wf(),
            old(self).width == old(self).height,
        ensures
            final(self).wf(),
            final(self).width == old(self).width,
            final(self).height == old(self).height,
            final(self)@ == spec_run(old(self)@, old(self)@.queue.len()),
    {
        let ghost m0 = self@;
        let ghost target = spec_run(m0, m0.queue.len());
        let start_length: usize = self.turn_queue.len();
        let mut current: usize = 0;

        while current < start_length
            invariant
                current <= start_length,
                start_length == m0.queue.len(),
                self.wf(),
                self.width == m0.width,
                self.height == m0.height,
                self.width == self.height,
                self@.queue.len() >= start_length - current,
                spec_run(self@, (start_length - current) as nat) == target,
                target == spec_run(m0, m0.queue.len()),
            decreases start_length - current,
        {
            let ghost m_pre = self@;
            match self.turn_queue.pop() {
                Some(index) => {
                    proof {
                        assert(index == m_pre.queue[0]);
                        assert((index as int) < m_pre.cells.len());
                        assert forall|k: int| 0 <= k < self.turn_queue@.len()
                            implies (self.turn_queue@[k] as int) < self.data@.len() by {
                            assert(self.turn_queue@[k] == m_pre.queue[k + 1]);
                        }
                    }
                    let ghost m1 = self@;
                    proof {
                        assert(m1 =~= GridModel { queue: m_pre.queue.drop_first(), ..m_pre });
                        lemma_square_closed(m1);
                        lemma_decode_valid(m1, index);
                    }
                    let position = self.index_to_position(index);
                    let neighbors = self.get_neighbors(position);
                    let ghost nbr_idxs = entry_indices(m1.height, spec_neighbor_entries(m1, position));
                    proof {
                        lemma_neighbor_entries_valid(m1, position);
                        assert forall|t: int| 0 <= t < neighbors.neighbors@.len()
                            implies pos_index(m1.height, (#[trigger] neighbors.neighbors@[t]).1)
                                < m1.cells.len() by {
                            assert(m1.valid_pos(neighbors.neighbors@[t].1));
                        }
                    }
                    let creature = self.data[index];
                    let actions = creature.act(&neighbors);
                    proof {
                        assert(actions@ == spec_act(m1.cells[index as int], position));
                        assert(actions@.subrange(0, actions@.len() as int) =~= actions@);
                    }
                    let mut j: usize = 0;
                    while j < actions.len()
                        invariant
                            j <= actions@.len(),
                            self.wf(),
                            self.width == m1.width,
                            self.height == m1.height,
                            self.width == self.height,
                            self@.cells.len() == m1.cells.len(),
                            self@.queue.len() >= m1.queue.len(),
                            actions@ == spec_act(m1.cells[index as int], position),
                            neighbors.my_pos == position,
                            neighbors.neighbors@ == spec_neighbor_entries(m1, position),
                            nbr_idxs == entry_indices(m1.height, spec_neighbor_entries(m1, position)),
                            m1.valid_pos(position),
                            m1.index_of(position) < m1.cells.len(),
                            forall|t: int|
                                0 <= t < neighbors.neighbors@.len()
                                    ==> pos_index(m1.height, (#[trigger] neighbors.neighbors@[t]).1)
                                        < m1.cells.len(),
                            spec_apply_actions(
                                self@,
                                nbr_idxs,
                                actions@.subrange(j as int, actions@.len() as int),
                            ) == spec_apply_actions(m1, nbr_idxs, actions@),
                        decreases actions@.len() - j,
                    {
                        let action = actions[j];
                        let ghost m_act = self@;
                        proof {
                            crate::creature::lemma_act_targets_self(
                                m1.cells[index as int],
                                position,
                                j as int,
                            );
                            let sub = actions@.subrange(j as int, actions@.len() as int);
                            assert(sub[0] == actions@[j as int]);
                            assert(sub.drop_first() =~= actions@.subrange(
                                j as int + 1,
                                actions@.len() as int,
                            ));
                        }
                        match action {
                            Action::Install(pos, creature) => {
                                self.set_cell(pos, creature);
                                self.queue_neighbors(&neighbors);
                            },
                            Action::Clear(pos) => {
                                let cleared: usize = self.position_to_index(pos);
                                let empty_creature = get(CreatureType::Empty);
                                self.data[cleared] = empty_creature;
                            },
                            Action::Queue(pos) => {
                                let queued: usize = self.position_to_index(pos);
                                let ghost qpre = self.turn_queue@;
                                self.turn_queue.push(queued);
                                proof {
                                    crate::queue::lemma_push_bound(
                                        qpre,
                                        queued,
                                        self.data@.len() as int,
                                    );
                                }
                            },
                            Action::QueueNeighbors => {
                                self.queue_neighbors(&neighbors);
                            },
                            Action::Idle => {},
                        }
                        proof {
                            assert(self@ =~= spec_apply_action(m_act, nbr_idxs, action));
                        }
                        j = j + 1;
                    }
                    proof {
                        assert(actions@.subrange(actions@.len() as int, actions@.len() as int)
                            =~= Seq::<Action>::empty());
                        assert(self@ == spec_apply_actions(m1, nbr_idxs, actions@));
                        assert(spec_process_front(m_pre) == self@);
                        assert(spec_run(m_pre, (start_length - current) as nat)
                            == spec_run(self@, (start_length - current - 1) as nat));
                    }
                },
                None => {
                    // Unreachable: the queue still holds at least
                    // `start_length - current` entries, and pushes during
                    // the loop only ever append.
                    proof {
                        assert(false);
                    }
                },
            }
            current = current + 1;
        }
        proof {
            assert(spec_run(self@, 0) == self@);
        }
    }

    /// A restartable read-only traversal over `(index, color)` for the full
    /// cell array, decoupled from the simulation state.
    pub fn color_enumerator(&self) -> (r: ColorEnumerator)
        ensures
            r.current_index == 0,
            r.colors@.len() == self@.cells.len(),
            forall|k: int| 0 <= k < r.colors@.len() ==> r.colors@[k] == self@.cells[k].color,
    {
        let mut colors: Vec<Color> = Vec::new();
        let mut i: usize = 0;
        while i < self.data.len()
            invariant
                i <= self.data@.len(),
                colors@.len() == i as int,
                forall|k: int| 0 <= k < i ==> colors@[k] == self.data@[k].color,
            decreases self.data@.len() - i,
        {
            colors.push(self.data[i].color);
            i = i + 1;
        }
        ColorEnumerator { current_index: 0, colors }
    }
}

/// A lazy finite traversal over the grid's visual state: yields each cell's
/// `(index, color)` in index order, then `None` forever. Restart by asking
/// the grid for a fresh enumerator.
pub struct ColorEnumerator {
    pub current_index: usize,
    pub colors: Vec<Color>,
}

impl ColorEnumerator {
    /// The next `(index, color)` pair, or `None` once the array is done.
    pub fn next(&mut self) -> (r: Option<(usize, Color)>)
        ensures
            final(self).colors@ == old(self).colors@,
            old(self).current_index < old(self).colors@.len() ==> {
                &&& r == Some((old(self).current_index, old(self).colors@[old(self).current_index as int]))
                &&& final(self).current_index == old(self).current_index + 1
            },
            old(self).current_index >= old(self).colors@.len() ==> {
                &&& r is None
                &&& final(self).current_index == old(self).current_index
            },
    {
        if self.current_index < self.colors.len() {
            let color = self.colors[self.current_index];
            let index: usize = self.current_index;
            self.current_index = self.current_index + 1;
            Some((index, color))
        } else {
            None
        }
    }
}

/// Every position in a neighbor snapshot is itself in bounds: clipping
/// admits a compass direction only when the adjacent cell exists.
pub proof fn lemma_neighbor_entries_valid(m: GridModel, p: Position)
    requires
        m.valid_pos(p),
    ensures
        forall|k: int|
            0 <= k < spec_neighbor_entries(m, p).len()
                ==> m.valid_pos((#[trigger] spec_neighbor_entries(m, p)[k]).1),
{
    let x = p.0;
    let y = p.1;
    let top = y > 0;
    let bottom = y + 1 < m.height;
    let left = x > 0;
    let right = x + 1 < m.width;
    let s1 = if top && left { seq![entry_at(m, (((x - 1) as u32), ((y - 1) as u32)))] } else { Seq::<(CreatureType, Position)>::empty() };
    let s2 = if top { seq![entry_at(m, (x, ((y - 1) as u32)))] } else { Seq::<(CreatureType, Position)>::empty() };
    let s3 = if top && right { seq![entry_at(m, (((x + 1) as u32), ((y - 1) as u32)))] } else { Seq::<(CreatureType, Position)>::empty() };
    let s4 = if left { seq![entry_at(m, (((x - 1) as u32), y))] } else { Seq::<(CreatureType, Position)>::empty() };
    let s5 = if right { seq![entry_at(m, (((x + 1) as u32), y))] } else { Seq::<(CreatureType, Position)>::empty() };
    let s6 = if bottom && left { seq![entry_at(m, (((x - 1) as u32), ((y + 1) as u32)))] } else { Seq::<(CreatureType, Position)>::empty() };
    let s7 = if bottom { seq![entry_at(m, (x, ((y + 1) as u32)))] } else { Seq::<(CreatureType, Position)>::empty() };
    let s8 = if bottom && right { seq![entry_at(m, (((x + 1) as u32), ((y + 1) as u32)))] } else { Seq::<(CreatureType, Position)>::empty() };
    assert(spec_neighbor_entries(m, p) == s1 + s2 + s3 + s4 + s5 + s6 + s7 + s8);
    assert forall|k: int|
        0 <= k < spec_neighbor_entries(m, p).len()
            implies m.valid_pos(spec_neighbor_entries(m, p)[k].1) by {
        assert(forall|t: int| 0 <= t < s1.len() ==> m.valid_pos(#[trigger] s1[t].1));
        assert(forall|t: int| 0 <= t < s2.len() ==> m.valid_pos(#[trigger] s2[t].1));
        assert(forall|t: int| 0 <= t < s3.len() ==> m.valid_pos(#[trigger] s3[t].1));
        assert(forall|t: int| 0 <= t < s4.len() ==> m.valid_pos(#[trigger] s4[t].1));
        assert(forall|t: int| 0 <= t < s5.len() ==> m.valid_pos(#[trigger] s5[t].1));
        assert(forall|t: int| 0 <= t < s6.len() ==> m.valid_pos(#[trigger] s6[t].1));
        assert(forall|t: int| 0 <= t < s7.len() ==> m.valid_pos(#[trigger] s7[t].1));
        assert(forall|t: int| 0 <= t < s8.len() ==> m.valid_pos(#[trigger] s8[t].1));
    }
}

/// A square grid's layout is closed: every in-bounds position indexes into
/// the cell array.
pub proof fn lemma_square_closed(m: GridModel)
    requires
        m.width == m.height,
        m.cells.len() == m.width * m.height,
    ensures
        m.closed_layout(),
{
    assert forall|q: Position| m.valid_pos(q) implies #[trigger] m.index_of(q) < m.cells.len() by {
        assert(q.1 * m.height + q.0 < m.width * m.height) by (nonlinear_arith)
            requires
                q.0 < m.width,
                q.1 < m.height,
                m.width == m.height,
        ;
    }
}

/// On a square grid, decoding an in-range queue index yields an in-bounds
/// position that encodes back to the same index.
pub proof fn lemma_decode_valid(m: GridModel, index: usize)
    requires
        m.width == m.height,
        m.cells.len() == m.width * m.height,
        (index as int) < m.cells.len(),
    ensures
        m.valid_pos(m.pos_at(index)),
        m.index_of(m.pos_at(index)) == index,
{
    let w = m.width as int;
    let h = m.height as int;
    let i = index as int;
    assert(w > 0 && h > 0) by (nonlinear_arith)
        requires
            0 <= i < w * h,
            w == h,
            w >= 0,
            h >= 0,
    ;
    vstd::arithmetic::div_mod::lemma_fundamental_div_mod(i, h);
    vstd::arithmetic::div_mod::lemma_mod_division_less_than_divisor(i, h);
    vstd::arithmetic::div_mod::lemma_mod_division_less_than_divisor(i, w);
    let q = i / h;
    let r = i % h;
    if q >= h {
        assert(h * q >= h * h) by (nonlinear_arith)
            requires
                q >= h,
                h > 0,
        ;
        assert(i >= h * h);
        assert(w * h == h * h) by (nonlinear_arith)
            requires
                w == h,
        ;
        assert(false);
    }
    if q < 0 {
        assert(h * q < 0) by (nonlinear_arith)
            requires
                q < 0,
                h > 0,
        ;
        assert(false);
    }
    assert(i % w == i % h);
    assert(m.pos_at(index) == (((i % w) as u32), (q as u32)));
    assert(m.index_of(m.pos_at(index)) == q * h + (i % h));
    assert(q * h == h * q) by (nonlinear_arith);
    assert(q * h + (i % h) == i);
}

/// Law (bounds round trip): wherever `y * height` lands on a multiple of
/// the width and `x` also fits below the height, decoding the encoded index
/// gives the coordinates back; in particular this holds for every
/// in-bounds position of a square grid.
pub proof fn lemma_position_index_round_trip(m: GridModel, p: Position)
    requires
        m.valid_pos(p),
        p.0 < m.height,
        (p.1 * m.height) % (m.width as int) == 0,
    ensures
        m.index_of(p) % (m.width as int) == p.0,
        m.index_of(p) / (m.height as int) == p.1,
{
    let w = m.width as int;
    let h = m.height as int;
    let x = p.0 as int;
    let y = p.1 as int;
    assert(m.index_of(p) == y * h + x);
    vstd::arithmetic::div_mod::lemma_fundamental_div_mod_converse(y * h + x, h, y, x);
    vstd::arithmetic::div_mod::lemma_fundamental_div_mod(y * h, w);
    let k = (y * h) / w;
    assert(y * h == k * w) by {
        assert(y * h == w * k + (y * h) % w);
        assert(w * k == k * w) by (nonlinear_arith);
    }
    vstd::arithmetic::div_mod::lemma_fundamental_div_mod_converse(y * h + x, w, k, x);
}

/// Law (step bound): a step that begins with `n` pending entries evaluates
/// at most `n` cells, however many new activations occur while it runs.
pub proof fn lemma_step_bound(m: GridModel, n: nat)
    ensures
        spec_drained(m, n).len() <= n,
    decreases n,
{
    if n == 0 || m.queue.len() == 0 {
    } else {
        lemma_step_bound(spec_process_front(m), (n - 1) as nat);
    }
}

/// Applying one action never removes a pending entry: the queue before is a
/// prefix of the queue after.
pub proof fn lemma_apply_action_extends(m: GridModel, nbr_idxs: Seq<usize>, a: Action)
    ensures
        m.queue.is_prefix_of(spec_apply_action(m, nbr_idxs, a).queue),
{
    assert(m.queue =~= m.queue.subrange(0, m.queue.len() as int));
    match a {
        Action::Install(q, c) => {
            let q1 = spec_push(m.queue, m.index_of(q) as usize);
            crate::queue::lemma_push_prefix(m.queue, m.index_of(q) as usize);
            crate::queue::lemma_push_all_prefix(q1, nbr_idxs);
            crate::queue::lemma_prefix_trans(m.queue, q1, spec_push_all(q1, nbr_idxs));
        },
        Action::Clear(_) => {},
        Action::Queue(q) => {
            crate::queue::lemma_push_prefix(m.queue, m.index_of(q) as usize);
        },
        Action::QueueNeighbors => {
            crate::queue::lemma_push_all_prefix(m.queue, nbr_idxs);
        },
        Action::Idle => {},
    }
}

/// Applying an action list never removes a pending entry.
pub proof fn lemma_apply_actions_extends(m: GridModel, nbr_idxs: Seq<usize>, actions: Seq<Action>)
    ensures
        m.queue.is_prefix_of(spec_apply_actions(m, nbr_idxs, actions).queue),
    decreases actions.len(),
{
    if actions.len() == 0 {
        assert(m.queue =~= m.queue.subrange(0, m.queue.len() as int));
    } else {
        let m1 = spec_apply_action(m, nbr_idxs, actions[0]);
        lemma_apply_action_extends(m, nbr_idxs, actions[0]);
        lemma_apply_actions_extends(m1, nbr_idxs, actions.drop_first());
        crate::queue::lemma_prefix_trans(
            m.queue,
            m1.queue,
            spec_apply_actions(m, nbr_idxs, actions).queue,
        );
    }
}

/// A bounded run pops exactly the entries that were pending when it began:
/// the drained indices are the first `n` of the starting queue, in order.
pub proof fn lemma_drained_all(m: GridModel, n: nat)
    requires
        n <= m.queue.len(),
    ensures
        spec_drained(m, n) == m.queue.subrange(0, n as int),
        spec_run(m, n).queue.len() >= m.queue.len() - n,
    decreases n,
{
    if n == 0 {
        assert(m.queue.subrange(0, 0) =~= Seq::<usize>::empty());
    } else {
        let popped = GridModel { queue: m.queue.drop_first(), ..m };
        let p = popped.pos_at(m.queue[0]);
        let nbr_idxs = entry_indices(popped.height, spec_neighbor_entries(popped, p));
        let acts = spec_act(popped.cells[m.queue[0] as int], p);
        let m1 = spec_process_front(m);
        assert(m1 == spec_apply_actions(popped, nbr_idxs, acts));
        lemma_apply_actions_extends(popped, nbr_idxs, acts);
        assert(m1.queue.len() >= m.queue.len() - 1);
        lemma_drained_all(m1, (n - 1) as nat);
        assert(m1.queue.subrange(0, n - 1) =~= m.queue.drop_first().subrange(0, n - 1)) by {
            assert(forall|t: int|
                0 <= t < m.queue.drop_first().len()
                    ==> m.queue.drop_first()[t]
                        == m1.queue.subrange(0, m.queue.drop_first().len() as int)[t]);
        }
        assert(spec_drained(m, n) =~= m.queue.subrange(0, n as int));
    }
}

/// Law (a pending cell is reached): any index pending when a full step
/// begins — in particular the cell a `set_cell` just activated — is among
/// the indices that step evaluates.
pub proof fn lemma_step_processes_pending(m: GridModel, index: usize)
    requires
        m.queue.contains(index),
    ensures
        spec_drained(m, m.queue.len()).contains(index),
{
    lemma_drained_all(m, m.queue.len());
    assert(m.queue.subrange(0, m.queue.len() as int) =~= m.queue);
}

/// Law (edge clipping): the corner cell of a grid at least 2 wide and 2
/// high sees exactly 3 neighbors, an interior cell sees 8, and the sole
/// cell of a 1 by 1 grid sees none.
pub proof fn lemma_edge_clipping(m: GridModel, p: Position)
    ensures
        (m.width >= 2 && m.height >= 2 && p == (0u32, 0u32))
            ==> spec_neighbor_entries(m, p).len() == 3,
        (0 < p.0 && p.0 + 1 < m.width && 0 < p.1 && p.1 + 1 < m.height)
            ==> spec_neighbor_entries(m, p).len() == 8,
        (m.width == 1 && m.height == 1 && p == (0u32, 0u32))
            ==> spec_neighbor_entries(m, p).len() == 0,
{
}

} // verus!
