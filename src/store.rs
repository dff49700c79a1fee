//! The task store: the tasks by id, the id counter and the draft text.

use std::collections::HashMap;
use vstd::prelude::*;

use crate::task::{Task, TaskView};
use crate::text::{footer_line, footer_text, trim_text, trimmed};

verus! {

broadcast use vstd::std_specs::hash::group_hash_axioms;

/// What a store is, as a mathematical value.
pub ghost struct StoreView {
    /// The tasks, by id.
    pub tasks: Map<u32, TaskView>,
    /// The id that the next added task gets.
    pub next_id: nat,
    /// The text being typed for the next task.
    pub draft: Seq<char>,
}

impl StoreView {
    /// Ids are positive, below the counter, and each task is stored under its own id.
    pub open spec fn wf(self) -> bool {
        &&& 1 <= self.next_id <= u32::MAX
        &&& self.tasks.dom().finite()
        &&& forall|id: u32| #[trigger]
            self.tasks.contains_key(id) ==> self.tasks[id].id == id && 1 <= id < self.next_id
    }

    /// The store after adding a task with the text `text`: nothing changes
    /// where the text trims to nothing.
    pub open spec fn add(self, text: Seq<char>) -> StoreView {
        let t = trimmed(text);
        if t.len() == 0 {
            self
        } else {
            StoreView {
                tasks: self.tasks.insert(
                    self.next_id as u32,
                    TaskView { id: self.next_id as u32, description: t, completed: false },
                ),
                next_id: self.next_id + 1,
                draft: Seq::empty(),
            }
        }
    }

    /// The store after setting the done flag of task `id`, if there is one.
    pub open spec fn toggle(self, id: u32, completed: bool) -> StoreView {
        if self.tasks.contains_key(id) {
            StoreView {
                tasks: self.tasks.insert(id, TaskView { completed, ..self.tasks[id] }),
                ..self
            }
        } else {
            self
        }
    }

    /// The store after removing task `id`, if there is one.
    pub open spec fn remove(self, id: u32) -> StoreView {
        StoreView { tasks: self.tasks.remove(id), ..self }
    }

    /// The store after setting the done flags that `changes` gives, in order.
    pub open spec fn toggle_all(self, changes: Seq<(u32, bool)>) -> StoreView
        decreases changes.len(),
    {
        if changes.len() == 0 {
            self
        } else {
            self.toggle_all(changes.drop_last()).toggle(changes.last().0, changes.last().1)
        }
    }

    /// The store after removing the tasks `ids`, in order.
    pub open spec fn remove_all(self, ids: Seq<u32>) -> StoreView
        decreases ids.len(),
    {
        if ids.len() == 0 {
            self
        } else {
            self.remove_all(ids.drop_last()).remove(ids.last())
        }
    }

    /// The ids of the tasks that are done.
    pub open spec fn completed_ids(self) -> Set<u32> {
        self.tasks.dom().filter(|id: u32| self.tasks[id].completed)
    }
}

/// The task list with its id counter and the draft text of the next task.
pub struct TaskerApp {
    tasks: HashMap<u32, Task>,
    next_id: u32,
    new_task_description: String,
}

impl View for TaskerApp {
    type V = StoreView;

    closed spec fn view(&self) -> StoreView {
        StoreView {
            tasks: self.tasks@.map_values(|t: Task| t@),
            next_id: self.next_id as nat,
            draft: self.new_task_description@,
        }
    }
}

impl TaskerApp {
    /// The store's invariant.
    pub open spec fn wf(&self) -> bool {
        self@.wf()
    }

    /// An empty store whose first task gets id 1.
    pub fn new() -> (r: TaskerApp)
        ensures
            r.wf(),
            r@.tasks == Map::<u32, TaskView>::empty(),
            r@.next_id == 1,
            r@.draft == Seq::<char>::empty(),
    {
        let r = TaskerApp { tasks: HashMap::new(), next_id: 1, new_task_description: String::new() };
        assert(r@.tasks =~= Map::<u32, TaskView>::empty());
        r
    }

    /// Whether another id can be issued.
    pub fn can_add(&self) -> (r: bool)
        ensures
            r == (self@.next_id < u32::MAX),
    {
        self.next_id < u32::MAX
    }

    /// Stores a new task with the text `d` under the next id.
    fn insert_new(&mut self, d: String)
        requires
            old(self).wf(),
            old(self)@.next_id < u32::MAX,
        ensures
            final(self).wf(),
            final(self)@ == (StoreView {
                tasks: old(self)@.tasks.insert(
                    old(self)@.next_id as u32,
                    TaskView { id: old(self)@.next_id as u32, description: d@, completed: false },
                ),
                next_id: old(self)@.next_id + 1,
                draft: Seq::empty(),
            }),
    {
        let id = self.next_id;
        let ghost dv = d@;
        self.tasks.insert(id, Task { id, description: d, completed: false });
        self.next_id = id + 1;
        self.new_task_description = String::new();
        assert(self@.tasks =~= old(self)@.tasks.insert(
            id,
            TaskView { id, description: dv, completed: false },
        ));
    }

    /// Adds a task with `description`, trimmed, unless it trims to nothing.
    pub fn add(&mut self, description: &str)
        requires
            old(self).wf(),
            old(self)@.next_id < u32::MAX,
        ensures
            final(self).wf(),
            final(self)@ == old(self)@.add(description@),
    {
        let t = trim_text(description);
        if !t.is_empty() {
            self.insert_new(t.to_owned());
        }
    }

    /// Adds a task with the draft text, trimmed, unless it trims to nothing;
    /// on success the draft is cleared.
    pub fn add_task(&mut self)
        requires
            old(self).wf(),
            old(self)@.next_id < u32::MAX,
        ensures
            final(self).wf(),
            final(self)@ == old(self)@.add(old(self)@.draft),
    {
        let t = trim_text(self.new_task_description.as_str());
        if !t.is_empty() {
            let d = t.to_owned();
            self.insert_new(d);
        }
    }

    /// The draft text.
    pub fn draft(&self) -> (r: &str)
        ensures
            r@ == self@.draft,
    {
        self.new_task_description.as_str()
    }

    /// Replaces the draft text.
    pub fn set_draft(&mut self, text: String)
        requires
            old(self).wf(),
        ensures
            final(self).wf(),
            final(self)@ == (StoreView { draft: text@, ..old(self)@ }),
    {
        self.new_task_description = text;
    }

    /// Sets the done flag of task `id`; does nothing where there is no such task.
    pub fn toggle(&mut self, id: u32, completed: bool)
        requires
            old(self).wf(),
        ensures
            final(self).wf(),
            final(self)@ == old(self)@.toggle(id, completed),
    {
        match self.tasks.remove(&id) {
            Some(mut t) => {
                t.completed = completed;
                self.tasks.insert(id, t);
                assert(self@.tasks =~= old(self)@.toggle(id, completed).tasks);
            },
            None => {
                assert(self.tasks@ =~= old(self).tasks@);
            },
        }
    }

    /// Removes task `id`; does nothing where there is no such task.
    pub fn remove_task(&mut self, id: u32)
        requires
            old(self).wf(),
        ensures
            final(self).wf(),
            final(self)@ == old(self)@.remove(id),
    {
        self.tasks.remove(&id);
        assert(self@.tasks =~= old(self)@.tasks.remove(id));
    }

    /// The number of tasks.
    pub fn count_total(&self) -> (r: usize)
        ensures
            r == self@.tasks.len(),
    {
        assert(self@.tasks.dom() =~= self.tasks@.dom());
        self.tasks.len()
    }

    /// The number of tasks that are done.
    pub fn count_completed(&self) -> (r: usize)
        ensures
            r == self@.completed_ids().len(),
    {
        let ghost m = self.tasks@;
        assert(self.tasks.len() == m.len());
        let mut n: usize = 0;
        let ghost mut seen: Set<u32> = Set::empty();
        let ghost mut done: Set<u32> = Set::empty();
        for entry in it: self.tasks.iter()
            invariant
                m == self.tasks@,
                m.len() <= usize::MAX,
                it.seq().no_duplicates(),
                it.seq().len() == m.len(),
                forall|i: int| #![trigger it.seq()[i]]
                    0 <= i < it.seq().len() ==> m.contains_key(*it.seq()[i].0) && m[*it.seq()[i].0]
                        == *it.seq()[i].1,
                seen.finite(),
                seen.len() == it.index(),
                forall|k: u32| #[trigger] seen.contains(k) ==> m.contains_key(k),
                forall|i: int| 0 <= i < it.index() ==> seen.contains(*#[trigger] it.seq()[i].0),
                forall|k: u32| #[trigger] seen.contains(k) ==> exists|i: int|
                    0 <= i < it.index() && *#[trigger] it.seq()[i].0 == k,
                done == seen.filter(|k: u32| m[k].completed),
                n == done.len(),
        {
            let (id, task) = entry;
            proof {
                let j = it.index();
                assert(it.seq()[j] == entry);
                if seen.contains(*id) {
                    let i = choose|i: int| 0 <= i < j && *#[trigger] it.seq()[i].0 == *id;
                    assert(it.seq()[i] == it.seq()[j]);
                }
                seen = seen.insert(*id);
                seen.lemma_len_filter(|k: u32| m[k].completed);
            }
            if task.completed {
                proof {
                    assert(seen.filter(|k: u32| m[k].completed) =~= done.insert(*id));
                    done = done.insert(*id);
                }
                n = n + 1;
            } else {
                assert(seen.filter(|k: u32| m[k].completed) =~= done);
            }
        }
        proof {
            assert(seen.len() == m.len());
            vstd::set_lib::lemma_subset_equality(seen, m.dom());
            assert(self@.completed_ids() =~= done);
        }
        n
    }

    /// A snapshot of all tasks, in no particular order: each task once.
    pub fn list(&self) -> (r: Vec<Task>)
        requires
            self.wf(),
        ensures
            r@.len() == self@.tasks.len(),
            forall|i: int| #![trigger r@[i]]
                0 <= i < r@.len() ==> self@.tasks.contains_key(r@[i]@.id) && self@.tasks[r@[i]@.id]
                    == r@[i]@,
            forall|i: int, j: int|
                0 <= i < r@.len() && 0 <= j < r@.len() && i != j ==> #[trigger] r@[i]@.id
                    != #[trigger] r@[j]@.id,
            forall|id: u32| #[trigger]
                self@.tasks.contains_key(id) ==> exists|i: int|
                    0 <= i < r@.len() && #[trigger] r@[i]@.id == id,
    {
        let ghost m = self.tasks@;
        assert(self@.tasks.dom() =~= m.dom());
        let mut r: Vec<Task> = Vec::new();
        let ghost mut seen: Set<u32> = Set::empty();
        for entry in it: self.tasks.iter()
            invariant
                m == self.tasks@,
                self.wf(),
                it.seq().no_duplicates(),
                it.seq().len() == m.len(),
                forall|i: int| #![trigger it.seq()[i]]
                    0 <= i < it.seq().len() ==> m.contains_key(*it.seq()[i].0) && m[*it.seq()[i].0]
                        == *it.seq()[i].1,
                r@.len() == it.index(),
                seen.finite(),
                seen.len() == it.index(),
                forall|k: u32| #[trigger] seen.contains(k) ==> m.contains_key(k),
                forall|i: int| 0 <= i < it.index() ==> seen.contains(*#[trigger] it.seq()[i].0),
                forall|k: u32| #[trigger] seen.contains(k) ==> exists|i: int|
                    0 <= i < it.index() && *#[trigger] it.seq()[i].0 == k,
                forall|i: int| #![trigger r@[i]]
                    0 <= i < r@.len() ==> self@.tasks.contains_key(r@[i]@.id) && self@.tasks[r@[i]@.id]
                        == r@[i]@ && seen.contains(r@[i]@.id),
                forall|i: int, j: int|
                    0 <= i < r@.len() && 0 <= j < r@.len() && i != j ==> #[trigger] r@[i]@.id
                        != #[trigger] r@[j]@.id,
                forall|k: u32| #[trigger] seen.contains(k) ==> exists|i: int|
                    0 <= i < r@.len() && #[trigger] r@[i]@.id == k,
        {
            let (id, task) = entry;
            let ghost j = it.index();
            let ghost old_r = r@;
            proof {
                assert(it.seq()[j] == entry);
                assert(self@.tasks.contains_key(*id));
                assert(self@.tasks[*id] == m[*id]@);
                assert(task@.id == *id);
                if seen.contains(*id) {
                    let i = choose|i: int| 0 <= i < j && *#[trigger] it.seq()[i].0 == *id;
                    assert(it.seq()[i] == it.seq()[j]);
                }
                seen = seen.insert(*id);
            }
            r.push(task.duplicate());
            proof {
                assert(r@[j]@.id == *id);
                assert forall|k: u32| #[trigger] seen.contains(k) implies exists|i: int|
                    0 <= i < r@.len() && #[trigger] r@[i]@.id == k by {
                    if k != *id {
                        let i = choose|i: int| 0 <= i < old_r.len() && #[trigger] old_r[i]@.id == k;
                        assert(r@[i] == old_r[i]);
                    }
                }
            }
        }
        proof {
            vstd::set_lib::lemma_subset_equality(seen, m.dom());
        }
        r
    }

    /// Applies the changes gathered while the list was shown: first every
    /// done flag in `toggles`, then every removal in `removals`, each in order.
    pub fn apply_changes(&mut self, toggles: &Vec<(u32, bool)>, removals: &Vec<u32>)
        requires
            old(self).wf(),
        ensures
            final(self).wf(),
            final(self)@ == old(self)@.toggle_all(toggles@).remove_all(removals@),
    {
        let ghost start = self@;
        for i in 0..toggles.len()
            invariant
                self.wf(),
                self@ == start.toggle_all(toggles@.take(i as int)),
        {
            let (id, completed) = toggles[i];
            self.toggle(id, completed);
            assert(toggles@.take(i + 1).drop_last() =~= toggles@.take(i as int));
        }
        assert(toggles@.take(toggles.len() as int) =~= toggles@);
        let ghost mid = self@;
        for i in 0..removals.len()
            invariant
                self.wf(),
                self@ == mid.remove_all(removals@.take(i as int)),
        {
            self.remove_task(removals[i]);
            assert(removals@.take(i + 1).drop_last() =~= removals@.take(i as int));
        }
        assert(removals@.take(removals.len() as int) =~= removals@);
    }

    /// The footer line with the number of tasks and of those done.
    pub fn footer(&self) -> (r: String)
        ensures
            r@ == footer_line(self@.tasks.len(), self@.completed_ids().len()),
    {
        let total = self.count_total();
        let done = self.count_completed();
        footer_text(total, done)
    }
}

} // verus!
