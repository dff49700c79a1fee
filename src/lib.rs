//! A small in-memory task list: tasks are added from trimmed text, marked
//! done or not done, and removed by id. Ids are issued from a counter and
//! never reused.

pub mod text;
pub mod task;
pub mod store;
pub mod laws;
