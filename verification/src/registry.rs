//! The registry: the bars of one manager in the order of their creation,
//! each under an identifier that is given out once.

use crate::frame::bar_views;
use crate::state::BarState;
use vstd::prelude::*;

verus! {

/// The bars in creation order. `ids` and `states` run in parallel: the bar
/// at an index has the identifier at that index.
#[derive(Debug)]
pub struct Registry {
    /// The identifiers of the bars that are registered.
    pub ids: Vec<u64>,
    /// Their records.
    pub states: Vec<BarState>,
    /// The identifier that the next bar gets.
    pub next_id: u64,
}

/// The first index at or after `from` where `ids` holds `id`; the length of
/// `ids` when there is none.
pub open spec fn position(ids: Seq<u64>, id: u64, from: int) -> int
    decreases ids.len() - from,
{
    if from < 0 || from >= ids.len() {
        ids.len() as int
    } else if ids[from] == id {
        from
    } else {
        position(ids, id, from + 1)
    }
}

/// Whether `ids` are in strictly rising order and all below `next_id`: no
/// identifier occurs twice, and none that is yet to be given out occurs.
pub open spec fn rising(ids: Seq<u64>, next_id: u64) -> bool {
    &&& forall|i: int, j: int| 0 <= i < j < ids.len() ==> ids[i] < ids[j]
    &&& forall|i: int| 0 <= i < ids.len() ==> ids[i] < next_id
}

/// `position` looks at or after `from` only.
pub proof fn lemma_position_from(ids: Seq<u64>, id: u64, from: int)
    requires
        0 <= from <= ids.len(),
    ensures
        from <= position(ids, id, from) <= ids.len(),
        position(ids, id, from) < ids.len() ==> ids[position(ids, id, from)] == id,
        forall|j: int| from <= j < position(ids, id, from) ==> ids[j] != id,
    decreases ids.len() - from,
{
    if from < ids.len() && ids[from] != id {
        lemma_position_from(ids, id, from + 1);
    }
}

/// `position` gives `k` when `id` stands at `k` and nowhere between `from`
/// and `k`.
pub proof fn lemma_position(ids: Seq<u64>, id: u64, from: int, k: int)
    requires
        0 <= from <= k <= ids.len(),
        forall|j: int| from <= j < k ==> ids[j] != id,
        k < ids.len() ==> ids[k] == id,
    ensures
        position(ids, id, from) == k,
    decreases k - from,
{
    if from < k {
        lemma_position(ids, id, from + 1, k);
    }
}

impl Registry {
    /// Whether the registry is in order: one record for each identifier, and
    /// the identifiers rising.
    pub open spec fn wf(&self) -> bool {
        &&& self.ids.len() == self.states.len()
        &&& rising(self.ids@, self.next_id)
    }

    /// An empty registry.
    pub fn new() -> (r: Registry)
        ensures
            r.wf(),
            r.ids@ == Seq::<u64>::empty(),
            r.states@ == Seq::<BarState>::empty(),
            r.next_id == 0,
    {
        Registry { ids: Vec::new(), states: Vec::new(), next_id: 0 }
    }

    /// The index of the bar `id`, if it is registered.
    pub fn lookup(&self, id: u64) -> (r: Option<usize>)
        requires
            self.wf(),
        ensures
            match r {
                Some(i) => i == position(self.ids@, id, 0) && i < self.ids.len(),
                None => position(self.ids@, id, 0) == self.ids.len(),
            },
    {
        let mut i: usize = 0;
        while i < self.ids.len()
            invariant
                i <= self.ids.len(),
                forall|j: int| 0 <= j < i ==> self.ids@[j] != id,
            decreases self.ids.len() - i,
        {
            if self.ids[i] == id {
                proof {
                    lemma_position(self.ids@, id, 0, i as int);
                }
                return Some(i);
            }
            i += 1;
        }
        proof {
            lemma_position(self.ids@, id, 0, i as int);
        }
        None
    }

    /// Registers `state` behind the bars that are there, under the next
    /// identifier, and gives that identifier.
    pub fn insert(&mut self, state: BarState) -> (id: u64)
        requires
            old(self).wf(),
            old(self).next_id < u64::MAX,
        ensures
            final(self).wf(),
            id == old(self).next_id,
            final(self).next_id == id + 1,
            final(self).ids@ == old(self).ids@.push(id),
            final(self).states@ == old(self).states@.push(state),
    {
        let id = self.next_id;
        self.next_id = id + 1;
        self.ids.push(id);
        self.states.push(state);
        id
    }

    /// Takes the bar at index `i` out. The bars behind it move up.
    pub fn remove(&mut self, i: usize) -> (state: BarState)
        requires
            old(self).wf(),
            i < old(self).ids.len(),
        ensures
            final(self).wf(),
            final(self).next_id == old(self).next_id,
            final(self).ids@ == old(self).ids@.remove(i as int),
            final(self).states@ == old(self).states@.remove(i as int),
            state == old(self).states@[i as int],
    {
        self.ids.remove(i);
        self.states.remove(i)
    }
}

/// Taking a bar out leaves the views of the others, in order.
pub proof fn lemma_views_remove(states: Seq<BarState>, i: int)
    requires
        0 <= i < states.len(),
    ensures
        bar_views(states.remove(i)) == bar_views(states).remove(i),
{
    assert(bar_views(states.remove(i)) =~= bar_views(states).remove(i));
}

/// Adding a bar adds its view.
pub proof fn lemma_views_push(states: Seq<BarState>, state: BarState)
    ensures
        bar_views(states.push(state)) == bar_views(states).push(state@),
{
    assert(bar_views(states.push(state)) =~= bar_views(states).push(state@));
}

} // verus!
