use vstd::prelude::*;

use crate::neighbors::Neighbors;

verus! {

/// A cell coordinate: column `x`, then row `y`, both counted from the
/// top-left corner of the grid.
pub type Position = (u32, u32);

/// An RGB color, consumed only by the rendering host.
#[derive(Clone, Copy, PartialEq, Eq, Structural, Debug)]
pub struct Color {
    pub r: u8,
    pub g: u8,
    pub b: u8,
}

/// The discriminant of a cell occupant. `Empty` stands for an unoccupied
/// cell: every cell always holds exactly one creature, never a hole.
#[derive(Clone, Copy, PartialEq, Eq, Structural, Debug)]
pub enum CreatureType {
    /// The placeholder occupant of an unoccupied cell; always idles.
    Empty,
    /// Re-activates all of its neighbors, then idles.
    Spreader,
    /// Clears its own cell.
    Vanisher,
    /// Installs a fresh `Spreader` in its own cell.
    Seeder,
    /// Re-queues its own cell, keeping itself active.
    Blinker,
}

/// The occupant of exactly one cell: a discriminant plus the color the
/// rendering host paints the cell with.
#[derive(Clone, Copy, PartialEq, Eq, Structural, Debug)]
pub struct Creature {
    pub creature_type: CreatureType,
    pub color: Color,
}

/// One discrete effect a creature's decision may request of the grid.
#[derive(Clone, Copy, Debug)]
pub enum Action {
    /// Install the creature at the position and re-activate every neighbor
    /// of the acting cell's pre-mutation snapshot.
    Install(Position, Creature),
    /// Reset the cell at the position to `Empty` without queuing anything.
    Clear(Position),
    /// Activate the single cell at the position for the next step.
    Queue(Position),
    /// Re-activate every neighbor of the acting cell.
    QueueNeighbors,
    /// No effect.
    Idle,
}

/// The color each kind of creature is drawn with.
pub open spec fn color_of(t: CreatureType) -> Color {
    match t {
        CreatureType::Empty => Color { r: 0, g: 0, b: 0 },
        CreatureType::Spreader => Color { r: 40, g: 200, b: 60 },
        CreatureType::Vanisher => Color { r: 120, g: 120, b: 120 },
        CreatureType::Seeder => Color { r: 220, g: 180, b: 40 },
        CreatureType::Blinker => Color { r: 70, g: 120, b: 220 },
    }
}

/// The default creature of each kind, as the factory builds it.
pub open spec fn creature_of(t: CreatureType) -> Creature {
    Creature { creature_type: t, color: color_of(t) }
}

/// Factory: constructs the default creature of the given kind. Used for the
/// `Empty` fill of a fresh grid and for `Clear` actions.
pub fn get(creature_type: CreatureType) -> (r: Creature)
    ensures
        r == creature_of(creature_type),
{
    let color = match creature_type {
        CreatureType::Empty => Color { r: 0, g: 0, b: 0 },
        CreatureType::Spreader => Color { r: 40, g: 200, b: 60 },
        CreatureType::Vanisher => Color { r: 120, g: 120, b: 120 },
        CreatureType::Seeder => Color { r: 220, g: 180, b: 40 },
        CreatureType::Blinker => Color { r: 70, g: 120, b: 220 },
    };
    Creature { creature_type, color }
}

/// The ordered action list each kind of creature decides on, given the
/// position its neighbor snapshot was taken at. Decisions are pure in the
/// snapshot, so the whole behavior catalog is a function of the creature and
/// the acting position.
pub open spec fn spec_act(c: Creature, p: Position) -> Seq<Action> {
    match c.creature_type {
        CreatureType::Empty => seq![Action::Idle],
        CreatureType::Spreader => seq![Action::QueueNeighbors, Action::Idle],
        CreatureType::Vanisher => seq![Action::Clear(p)],
        CreatureType::Seeder => seq![Action::Install(p, creature_of(CreatureType::Spreader))],
        CreatureType::Blinker => seq![Action::Queue(p)],
    }
}

/// Whether an action only ever names the acting cell's own position.
pub open spec fn action_targets(a: Action, p: Position) -> bool {
    match a {
        Action::Install(q, _) => q == p,
        Action::Clear(q) => q == p,
        Action::Queue(q) => q == p,
        Action::QueueNeighbors => true,
        Action::Idle => true,
    }
}

/// Every positioned action a creature emits targets the acting cell itself;
/// activity spreads only through the neighbor snapshot, never to an
/// arbitrary cell.
pub proof fn lemma_act_targets_self(c: Creature, p: Position, j: int)
    requires
        0 <= j < spec_act(c, p).len(),
    ensures
        action_targets(spec_act(c, p)[j], p),
{
    match c.creature_type {
        CreatureType::Empty => {
            assert(spec_act(c, p)[j] == Action::Idle);
        },
        CreatureType::Spreader => {
            assert(j == 0 || j == 1);
        },
        CreatureType::Vanisher => {
            assert(spec_act(c, p)[j] == Action::Clear(p));
        },
        CreatureType::Seeder => {
            assert(spec_act(c, p)[j] == Action::Install(p, creature_of(CreatureType::Spreader)));
        },
        CreatureType::Blinker => {
            assert(spec_act(c, p)[j] == Action::Queue(p));
        },
    }
}

impl Creature {
    /// The decision operation: given the read-only neighbor snapshot, yield
    /// the ordered list of actions this occupant requests.
    pub fn act(&self, neighbors: &Neighbors) -> (r: Vec<Action>)
        ensures
            r@ == spec_act(*self, neighbors.my_pos),
    {
        let p = neighbors.pos();
        let mut r: Vec<Action> = Vec::new();
        match self.creature_type {
            CreatureType::Empty => {
                r.push(Action::Idle);
            },
            CreatureType::Spreader => {
                r.push(Action::QueueNeighbors);
                r.push(Action::Idle);
            },
            CreatureType::Vanisher => {
                r.push(Action::Clear(p));
            },
            CreatureType::Seeder => {
                r.push(Action::Install(p, get(CreatureType::Spreader)));
            },
            CreatureType::Blinker => {
                r.push(Action::Queue(p));
            },
        }
        proof {
            assert(r@ =~= spec_act(*self, neighbors.my_pos));
        }
        r
    }
}

} // verus!
