//! A timer queue kept in order of the instants at which its tasks are due,
//! searched from the earliest entry when a task is added.

use vstd::prelude::*;
use crate::time::Time;
use crate::timeline::{
    after_due, due_count, due_entries, first_time, lemma_due_count_unique, ran_all, scheduled,
    times_sorted,
};
use crate::timequeue::TimeQueue;
use crate::{Context, Timer, TimerTask};

verus! {

/// Tasks ordered by the instant at which they are due; tasks due at the same
/// instant keep the order in which they were scheduled.
pub struct SimpleTimer<T> {
    queue: TimeQueue<T>,
}

impl<T> View for SimpleTimer<T> {
    type V = Seq<(Time, T)>;

    closed spec fn view(&self) -> Seq<(Time, T)> {
        self.queue@
    }
}

impl<T> SimpleTimer<T> {
    /// An empty timer.
    pub fn new() -> (t: Self)
        ensures
            t@ == Seq::<(Time, T)>::empty(),
            times_sorted(t@),
    {
        SimpleTimer { queue: TimeQueue::new() }
    }

    /// Where a task due at `time` goes: after every entry due at or before
    /// it, found by walking from the earliest entry.
    fn insert_point(&self, time: Time) -> (k: usize)
        ensures
            k == due_count(self@, time.ns),
    {
        let len = self.queue.len();
        let mut k: usize = 0;
        while k < len && self.queue.time_at(k).ns <= time.ns
            invariant
                len == self@.len(),
                k <= len,
                forall|i: int| 0 <= i < k ==> #[trigger] self@[i].0.ns <= time.ns,
            decreases len - k,
        {
            k = k + 1;
        }
        proof {
            lemma_due_count_unique(self@, time.ns, k as int);
        }
        k
    }

    /// Takes the earliest entry out of the queue if it is due at or before
    /// `time`.
    pub fn pop_due(&mut self, time: Time) -> (r: Option<(Time, T)>)
        ensures
            match r {
                Some(e) => {
                    &&& old(self)@.len() > 0
                    &&& old(self)@[0].0.ns <= time.ns
                    &&& e == old(self)@[0]
                    &&& final(self)@ == old(self)@.drop_first()
                },
                None => {
                    &&& (old(self)@.len() == 0 || old(self)@[0].0.ns > time.ns)
                    &&& final(self)@ == old(self)@
                },
            },
            times_sorted(final(self)@),
    {
        self.queue.pop_due(time)
    }
}

impl<T: TimerTask> Timer<T> for SimpleTimer<T> {
    /// Adds `task` after every entry due at or before `time`.
    fn schedule(&mut self, task: T, time: Time)
        ensures
            final(self)@ == scheduled(old(self)@, time, task),
            times_sorted(final(self)@),
    {
        let k = self.insert_point(time);
        self.queue.insert(k, time, task);
    }

    /// Runs each task due at or before `time` once, earliest first, and
    /// drops it.
    fn process(&mut self, ctx: &Context, time: Time)
        ensures
            final(self)@ == after_due(old(self)@, time.ns),
            times_sorted(final(self)@),
            exists|after: Seq<T>| #[trigger] ran_all(due_entries(old(self)@, time.ns), after, time),
    {
        self.queue.run_due(ctx, time);
    }

    /// The instant of the earliest entry.
    fn peek_time(&self) -> (r: Option<Time>)
        ensures
            r == first_time(self@),
    {
        self.queue.peek_time()
    }
}

} // verus!
