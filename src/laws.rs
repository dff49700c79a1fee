//! Facts about the store's operations, over its mathematical view.

use vstd::prelude::*;

use crate::store::StoreView;
use crate::text::{all_white, lemma_all_white_trims_to_empty, trimmed};

verus! {

/// One operation on the store.
pub ghost enum StoreOp {
    Add(Seq<char>),
    Toggle(u32, bool),
    Remove(u32),
}

impl StoreView {
    /// The store after `op`.
    pub open spec fn step(self, op: StoreOp) -> StoreView {
        match op {
            StoreOp::Add(text) => self.add(text),
            StoreOp::Toggle(id, completed) => self.toggle(id, completed),
            StoreOp::Remove(id) => self.remove(id),
        }
    }

    /// The store after `ops`, in order.
    pub open spec fn run(self, ops: Seq<StoreOp>) -> StoreView
        decreases ops.len(),
    {
        if ops.len() == 0 {
            self
        } else {
            self.run(ops.drop_last()).step(ops.last())
        }
    }
}

/// Adding a task whose text does not trim to nothing adds exactly one task,
/// under an id that no task held before and that is above every id in use.
pub proof fn lemma_add_takes_fresh_id(s: StoreView, text: Seq<char>)
    requires
        s.wf(),
        s.next_id < u32::MAX,
        trimmed(text).len() > 0,
    ensures
        s.add(text).wf(),
        s.add(text).tasks.len() == s.tasks.len() + 1,
        !s.tasks.contains_key(s.next_id as u32),
        s.add(text).tasks.contains_key(s.next_id as u32),
        s.add(text).tasks[s.next_id as u32].description == trimmed(text),
        !s.add(text).tasks[s.next_id as u32].completed,
        forall|id: u32| #[trigger] s.tasks.contains_key(id) ==> id < s.next_id,
        s.add(text).next_id == s.next_id + 1,
{
}

/// Adding a task whose text is all white space changes nothing.
pub proof fn lemma_add_white_is_noop(s: StoreView, text: Seq<char>)
    requires
        all_white(text),
    ensures
        s.add(text) == s,
        s.add(text).tasks.len() == s.tasks.len(),
{
    lemma_all_white_trims_to_empty(text);
}

/// Setting a task's done flag a second time to the same value changes nothing.
pub proof fn lemma_toggle_twice(s: StoreView, id: u32, completed: bool)
    ensures
        s.toggle(id, completed).toggle(id, completed) == s.toggle(id, completed),
{
    let t = s.toggle(id, completed);
    if s.tasks.contains_key(id) {
        assert(t.toggle(id, completed).tasks =~= t.tasks);
    }
}

/// Removing an id that holds no task changes nothing.
pub proof fn lemma_remove_absent(s: StoreView, id: u32)
    requires
        !s.tasks.contains_key(id),
    ensures
        s.remove(id) == s,
{
    assert(s.remove(id).tasks =~= s.tasks);
}

/// One operation keeps the store well formed and never lowers the id counter.
pub proof fn lemma_step_keeps_wf(s: StoreView, op: StoreOp)
    requires
        s.wf(),
        s.next_id < u32::MAX,
    ensures
        s.step(op).wf(),
        s.next_id <= s.step(op).next_id <= s.next_id + 1,
{
}

/// Over any run of operations that leaves room for the ids it may issue,
/// the store stays well formed: no two tasks share an id, every id is below
/// the counter, and the counter never goes down.
pub proof fn lemma_run_keeps_ids_unique(s: StoreView, ops: Seq<StoreOp>)
    requires
        s.wf(),
        s.next_id + ops.len() < u32::MAX,
    ensures
        s.run(ops).wf(),
        s.next_id <= s.run(ops).next_id <= s.next_id + ops.len(),
        forall|a: u32, b: u32|
            s.run(ops).tasks.contains_key(a) && s.run(ops).tasks.contains_key(b) && a != b
                ==> #[trigger] s.run(ops).tasks[a].id != #[trigger] s.run(ops).tasks[b].id,
        forall|id: u32| #[trigger]
            s.run(ops).tasks.contains_key(id) ==> s.run(ops).tasks[id].id < s.run(ops).next_id,
    decreases ops.len(),
{
    if ops.len() > 0 {
        lemma_run_keeps_ids_unique(s, ops.drop_last());
        lemma_step_keeps_wf(s.run(ops.drop_last()), ops.last());
    }
}

} // verus!
