//! A continuation-passing task scheduler over one fixed-capacity byte arena.
//!
//! The arena holds two stacks of length-tagged frames that grow toward each
//! other: the call stack, which queues tasks, and the data stack, which
//! carries the values that tasks hand to each other. A computation is cut
//! into tasks that each run for one turn and hand back the tasks to run
//! next, so that it needs no stack but the arena.

pub mod codec;
pub mod error;
pub mod scheduler;
pub mod stack;
pub mod tasks;

pub use crate::error::Error;
pub use crate::scheduler::Scheduler;
pub use crate::scheduler::SchedulerTask;
pub use crate::tasks::add::Add;
pub use crate::tasks::add::Output;
