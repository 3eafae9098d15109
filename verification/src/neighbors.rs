use vstd::prelude::*;

use crate::creature::CreatureType;
use crate::creature::Position;

verus! {

/// A transient, read-only snapshot of the cells adjacent to one query
/// position: up to 8 `(occupant type, position)` pairs in a fixed clockwise
/// order starting at the top-left, clipped at the grid edges. The entries
/// are copied out at construction, so later grid mutation never invalidates
/// a snapshot.
pub struct Neighbors {
    pub my_pos: Position,
    pub neighbors: Vec<(CreatureType, Position)>,
}

/// The copies of `e` that a scan of `ts` emits: one per occurrence of `e`'s
/// type in `ts`, in scan order.
pub open spec fn spec_matches_entry(
    e: (CreatureType, Position),
    ts: Seq<CreatureType>,
) -> Seq<(CreatureType, Position)>
    decreases ts.len(),
{
    if ts.len() == 0 {
        Seq::empty()
    } else {
        (if ts[0] == e.0 {
            seq![e]
        } else {
            Seq::empty()
        }) + spec_matches_entry(e, ts.drop_first())
    }
}

/// The type filter over a neighbor list: entries are kept in construction
/// order, each one once per occurrence of its type in `ts`.
pub open spec fn spec_of_types(
    ns: Seq<(CreatureType, Position)>,
    ts: Seq<CreatureType>,
) -> Seq<(CreatureType, Position)>
    decreases ns.len(),
{
    if ns.len() == 0 {
        Seq::empty()
    } else {
        spec_matches_entry(ns[0], ts) + spec_of_types(ns.drop_first(), ts)
    }
}

impl Neighbors {
    /// The query cell's own position.
    pub fn pos(&self) -> (r: Position)
        ensures
            r == self.my_pos,
    {
        self.my_pos
    }

    /// The i-th `(type, position)` pair in construction order.
    pub fn get_neighbor(&self, index: usize) -> (r: (CreatureType, Position))
        requires
            index < self.neighbors@.len(),
        ensures
            r == self.neighbors@[index as int],
    {
        self.neighbors[index]
    }

    /// The full ordered list of neighbor entries.
    pub fn all(&self) -> (r: &Vec<(CreatureType, Position)>)
        ensures
            r@ == self.neighbors@,
    {
        &self.neighbors
    }

    /// The entries whose type occurs in `creature_types`, in construction
    /// order, repeated once per matching occurrence.
    pub fn of_types(&self, creature_types: &[CreatureType]) -> (r: Vec<(CreatureType, Position)>)
        ensures
            r@ == spec_of_types(self.neighbors@, creature_types@),
    {
        let ghost ns = self.neighbors@;
        let ghost ts = creature_types@;
        let ghost total = spec_of_types(ns, ts);
        let mut creature_list: Vec<(CreatureType, Position)> = Vec::new();
        let mut i: usize = 0;
        proof {
            assert(ns.subrange(0, ns.len() as int) =~= ns);
            assert(creature_list@ + total =~= total);
        }
        while i < self.neighbors.len()
            invariant
                i <= ns.len(),
                ns == self.neighbors@,
                ts == creature_types@,
                creature_list@ + spec_of_types(ns.subrange(i as int, ns.len() as int), ts) == total,
            decreases ns.len() - i,
        {
            let entry = self.neighbors[i];
            proof {
                let rest = ns.subrange(i as int, ns.len() as int);
                assert(rest[0] == ns[i as int]);
                assert(rest.drop_first() =~= ns.subrange(i as int + 1, ns.len() as int));
                assert(creature_list@ + (spec_matches_entry(entry, ts)
                    + spec_of_types(ns.subrange(i as int + 1, ns.len() as int), ts)) == total);
            }
            let mut j: usize = 0;
            proof {
                assert(ts.subrange(0, ts.len() as int) =~= ts);
            }
            while j < creature_types.len()
                invariant
                    j <= ts.len(),
                    ts == creature_types@,
                    entry == ns[i as int],
                    0 <= i < ns.len(),
                    ns == self.neighbors@,
                    creature_list@ + (spec_matches_entry(entry, ts.subrange(j as int, ts.len() as int))
                        + spec_of_types(ns.subrange(i as int + 1, ns.len() as int), ts)) == total,
                decreases ts.len() - j,
            {
                let ghost before = creature_list@;
                let ghost mrest = spec_matches_entry(entry, ts.subrange(j as int, ts.len() as int));
                proof {
                    let tsub = ts.subrange(j as int, ts.len() as int);
                    assert(tsub[0] == ts[j as int]);
                    assert(tsub.drop_first() =~= ts.subrange(j as int + 1, ts.len() as int));
                }
                if entry.0 == creature_types[j] {
                    creature_list.push(entry);
                }
                proof {
                    let mnext = spec_matches_entry(entry, ts.subrange(j as int + 1, ts.len() as int));
                    if ts[j as int] == entry.0 {
                        assert(mrest == seq![entry] + mnext);
                        assert(creature_list@ =~= before + seq![entry]);
                        assert(creature_list@ + (mnext
                            + spec_of_types(ns.subrange(i as int + 1, ns.len() as int), ts))
                            =~= before + (mrest
                            + spec_of_types(ns.subrange(i as int + 1, ns.len() as int), ts)));
                    } else {
                        assert(mrest == mnext);
                    }
                }
                j = j + 1;
            }
            proof {
                assert(spec_matches_entry(entry, ts.subrange(ts.len() as int, ts.len() as int))
                    =~= Seq::<(CreatureType, Position)>::empty());
                assert(creature_list@ + spec_of_types(ns.subrange(i as int + 1, ns.len() as int), ts)
                    =~= creature_list@ + (spec_matches_entry(entry,
                        ts.subrange(ts.len() as int, ts.len() as int))
                        + spec_of_types(ns.subrange(i as int + 1, ns.len() as int), ts)));
            }
            i = i + 1;
        }
        proof {
            assert(spec_of_types(ns.subrange(ns.len() as int, ns.len() as int), ts)
                =~= Seq::<(CreatureType, Position)>::empty());
            assert(creature_list@ =~= creature_list@
                + spec_of_types(ns.subrange(ns.len() as int, ns.len() as int), ts));
        }
        creature_list
    }

    /// The entries of one single type, in construction order.
    pub fn of_type(&self, creature_type: CreatureType) -> (r: Vec<(CreatureType, Position)>)
        ensures
            r@ == spec_of_types(self.neighbors@, seq![creature_type]),
    {
        let ts: [CreatureType; 1] = [creature_type];
        let r = self.of_types(ts.as_slice());
        proof {
            assert(ts@ =~= seq![creature_type]);
        }
        r
    }
}

} // verus!
