//! The records of a reminder service: tasks, how often they repeat, the
//! updates made to them, and when they are due.

use vstd::prelude::*;
use crate::time::Time;

verus! {

/// How often a task comes back.
#[derive(Clone, Copy, Debug, PartialEq, Eq, Structural)]
pub enum RepeatFrequency {
    Never,
    Hourly,
    Daily,
    Weekend,
    WeekDay,
    Weekly,
    Monthly,
    Yearly,
}

/// A repetition: every `interval` periods of `frequency`.
pub struct Repeat {
    pub interval: i64,
    pub frequency: RepeatFrequency,
}

/// A task to be reminded of.
pub struct Task {
    pub location: String,
    pub id: u32,
    pub repeat: Repeat,
    pub note: String,
    pub owner: String,
}

/// What an update does to a task.
#[derive(Clone, Copy, Debug, PartialEq, Eq, Structural)]
pub enum TaskUpdateType {
    Start,
    Amend,
    Finish,
}

/// A change made to a task at some instant.
pub struct TaskUpdate {
    pub time: Time,
    pub entry_id: u32,
    pub update_type: TaskUpdateType,
}

/// A reminder of the task `entry_id`, due at `due`.
pub struct Reminder {
    pub due: Time,
    pub entry_id: u32,
}

/// An instant at which something is due.
pub struct Timer {
    pub due: Time,
}

} // verus!
