//! A single to-do item.

use vstd::prelude::*;

verus! {

/// What a task is, as a mathematical value.
pub ghost struct TaskView {
    pub id: u32,
    pub description: Seq<char>,
    pub completed: bool,
}

/// A to-do item: its id, its text and whether it is done.
#[derive(Debug)]
pub struct Task {
    pub id: u32,
    pub description: String,
    pub completed: bool,
}

impl View for Task {
    type V = TaskView;

    open spec fn view(&self) -> TaskView {
        TaskView { id: self.id, description: self.description@, completed: self.completed }
    }
}

impl Task {
    /// A copy of the task.
    pub fn duplicate(&self) -> (r: Task)
        ensures
            r@ == self@,
    {
        Task { id: self.id, description: self.description.clone(), completed: self.completed }
    }
}

} // verus!
