use vstd::prelude::*;

verus! {

/// The scheduling primitive: an ordered worklist of grid indices, each
/// present at most once. Pushing an index that is already pending is a
/// no-op, so a step's cost stays proportional to the recently active cells.
pub struct TurnQueue {
    pub queue: Vec<usize>,
}

/// What one `push` does to the pending sequence: append at the back unless
/// the index is already pending.
pub open spec fn spec_push(q: Seq<usize>, index: usize) -> Seq<usize> {
    if q.contains(index) {
        q
    } else {
        q.push(index)
    }
}

/// A batch of pushes, front first.
pub open spec fn spec_push_all(q: Seq<usize>, idxs: Seq<usize>) -> Seq<usize>
    decreases idxs.len(),
{
    if idxs.len() == 0 {
        q
    } else {
        spec_push_all(spec_push(q, idxs[0]), idxs.drop_first())
    }
}

impl View for TurnQueue {
    type V = Seq<usize>;

    open spec fn view(&self) -> Seq<usize> {
        self.queue@
    }
}

impl TurnQueue {
    /// Order and membership never disagree: no index is pending twice.
    pub open spec fn wf(&self) -> bool {
        forall|i: int, j: int|
            0 <= i < j < self.queue@.len() ==> self.queue@[i] != self.queue@[j]
    }

    pub fn new() -> (r: TurnQueue)
        ensures
            r@ == Seq::<usize>::empty(),
            r.wf(),
    {
        TurnQueue { queue: Vec::new() }
    }

    /// Read-only membership query.
    pub fn contains(&self, index: usize) -> (r: bool)
        ensures
            r == self@.contains(index),
    {
        let mut i: usize = 0;
        while i < self.queue.len()
            invariant
                i <= self.queue@.len(),
                forall|k: int| 0 <= k < i ==> self.queue@[k] != index,
            decreases self.queue@.len() - i,
        {
            if self.queue[i] == index {
                proof {
                    assert(self@[i as int] == index);
                }
                return true;
            }
            i = i + 1;
        }
        proof {
            assert(!self@.contains(index)) by {
                if self@.contains(index) {
                    let k = choose|k: int| 0 <= k < self@.len() && self@[k] == index;
                    assert(self@[k] != index);
                }
            }
        }
        false
    }

    /// Append `index` at the back, unless it is already pending.
    pub fn push(&mut self, index: usize)
        ensures
            final(self)@ == spec_push(old(self)@, index),
            old(self).wf() ==> final(self).wf(),
    {
        if !self.contains(index) {
            self.queue.push(index);
            proof {
                if old(self).wf() {
                    assert forall|i: int, j: int|
                        0 <= i < j < self.queue@.len() implies self.queue@[i] != self.queue@[j] by {
                        if j == old(self)@.len() {
                            assert(self.queue@[j] == index);
                            if self.queue@[i] == index {
                                assert(old(self)@[i] == index);
                                assert(old(self)@.contains(index));
                            }
                        }
                    }
                }
            }
        }
    }

    /// Remove and return the front index, or signal an empty queue.
    pub fn pop(&mut self) -> (r: Option<usize>)
        ensures
            old(self)@.len() == 0 ==> r is None && final(self)@ == old(self)@,
            old(self)@.len() > 0 ==> r == Some(old(self)@[0]) && final(self)@ == old(self)@.drop_first(),
            old(self).wf() ==> final(self).wf(),
    {
        if self.queue.len() == 0 {
            None
        } else {
            let n = self.queue.remove(0);
            proof {
                assert(self@ =~= old(self)@.drop_first());
            }
            Some(n)
        }
    }

    /// The number of pending indices.
    pub fn len(&self) -> (r: usize)
        ensures
            r == self@.len(),
    {
        self.queue.len()
    }
}

/// Law (queue dedup): pushing an index that is already pending changes
/// nothing, so pushing the same index twice before any pop leaves exactly
/// one pending entry, and the length counts each pending index once.
pub proof fn lemma_push_dedup(q: Seq<usize>, index: usize)
    ensures
        spec_push(spec_push(q, index), index) == spec_push(q, index),
        spec_push(q, index).contains(index),
        !q.contains(index) ==> spec_push(q, index).len() == q.len() + 1,
        q.contains(index) ==> spec_push(q, index) == q,
{
    if !q.contains(index) {
        assert(q.push(index)[q.len() as int] == index);
    }
}

/// `spec_push` preserves a bound on the pending indices.
pub proof fn lemma_push_bound(q: Seq<usize>, index: usize, bound: int)
    requires
        forall|k: int| 0 <= k < q.len() ==> (q[k] as int) < bound,
        (index as int) < bound,
    ensures
        forall|k: int| 0 <= k < spec_push(q, index).len() ==> (spec_push(q, index)[k] as int) < bound,
{
    if !q.contains(index) {
        assert forall|k: int| 0 <= k < spec_push(q, index).len()
            implies (spec_push(q, index)[k] as int) < bound by {
            if k < q.len() {
                assert(spec_push(q, index)[k] == q[k]);
            } else {
                assert(spec_push(q, index)[k] == index);
            }
        }
    }
}

/// A push only ever appends: what was pending stays pending, in place.
pub proof fn lemma_push_prefix(q: Seq<usize>, index: usize)
    ensures
        q.is_prefix_of(spec_push(q, index)),
{
    assert(q =~= spec_push(q, index).subrange(0, q.len() as int));
}

/// Prefixes compose.
pub proof fn lemma_prefix_trans(a: Seq<usize>, b: Seq<usize>, c: Seq<usize>)
    requires
        a.is_prefix_of(b),
        b.is_prefix_of(c),
    ensures
        a.is_prefix_of(c),
{
    assert(a =~= c.subrange(0, a.len() as int)) by {
        assert(forall|i: int| 0 <= i < a.len() ==> a[i] == b.subrange(0, a.len() as int)[i]);
        assert(forall|i: int| 0 <= i < b.len() ==> b[i] == c.subrange(0, b.len() as int)[i]);
    }
}

/// A batch of pushes only ever appends.
pub proof fn lemma_push_all_prefix(q: Seq<usize>, idxs: Seq<usize>)
    ensures
        q.is_prefix_of(spec_push_all(q, idxs)),
    decreases idxs.len(),
{
    if idxs.len() == 0 {
        assert(q =~= spec_push_all(q, idxs).subrange(0, q.len() as int));
    } else {
        let q1 = spec_push(q, idxs[0]);
        lemma_push_prefix(q, idxs[0]);
        lemma_push_all_prefix(q1, idxs.drop_first());
        lemma_prefix_trans(q, q1, spec_push_all(q, idxs));
    }
}

/// A batch of pushes preserves a bound on the pending indices.
pub proof fn lemma_push_all_bound(q: Seq<usize>, idxs: Seq<usize>, bound: int)
    requires
        forall|k: int| 0 <= k < q.len() ==> (q[k] as int) < bound,
        forall|k: int| 0 <= k < idxs.len() ==> (idxs[k] as int) < bound,
    ensures
        forall|k: int| 0 <= k < spec_push_all(q, idxs).len()
            ==> (spec_push_all(q, idxs)[k] as int) < bound,
    decreases idxs.len(),
{
    if idxs.len() > 0 {
        lemma_push_bound(q, idxs[0], bound);
        assert(forall|k: int| 0 <= k < idxs.drop_first().len()
            ==> (idxs.drop_first()[k] as int) < bound);
        lemma_push_all_bound(spec_push(q, idxs[0]), idxs.drop_first(), bound);
        assert(spec_push_all(q, idxs) == spec_push_all(spec_push(q, idxs[0]), idxs.drop_first()));
    }
}

} // verus!
