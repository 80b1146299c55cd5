//! A timer queue kept in order of the instants at which its tasks are due,
//! where a new task's place is found by halving the queue.

use vstd::prelude::*;
use crate::time::Time;
use crate::timeline::{
    after_due, due_count, due_entries, first_time, lemma_due_count_unique, ran_all, scheduled,
    times_sorted,
};
use crate::timequeue::TimeQueue;
use crate::{Context, Timer, TimerTask};

verus! {

/// Tasks ordered by the instant at which they are due; tasks due at the same
/// instant keep the order in which they were scheduled.
pub struct HeapTimer<T> {
    queue: TimeQueue<T>,
}

impl<T> View for HeapTimer<T> {
    type V = Seq<(Time, T)>;

    closed spec fn view(&self) -> Seq<(Time, T)> {
        self.queue@
    }
}

impl<T> HeapTimer<T> {
    /// An empty timer.
    pub fn new() -> (t: Self)
        ensures
            t@ == Seq::<(Time, T)>::empty(),
            times_sorted(t@),
    {
        HeapTimer { queue: TimeQueue::new() }
    }

    /// Where a task due at `time` goes: after every entry due at or before
    /// it, found by binary search.
    fn insert_point(&self, time: Time) -> (k: usize)
        ensures
            k == due_count(self@, time.ns),
    {
        let mut lo: usize = 0;
        let mut hi: usize = self.queue.len();
        while lo < hi
            invariant
                lo <= hi <= self@.len(),
                times_sorted(self@),
                forall|i: int| 0 <= i < lo ==> #[trigger] self@[i].0.ns <= time.ns,
                forall|i: int| hi <= i < self@.len() ==> #[trigger] self@[i].0.ns > time.ns,
            decreases hi - lo,
        {
            let mid = lo + (hi - lo) / 2;
            if self.queue.time_at(mid).ns <= time.ns {
                proof {
                    assert forall|i: int| 0 <= i < mid + 1 implies #[trigger] self@[i].0.ns
                        <= time.ns by {
                        assert(self@[i].0.ns <= self@[mid as int].0.ns);
                    }
                }
                lo = mid + 1;
            } else {
                proof {
                    assert forall|i: int| mid <= i < self@.len() implies #[trigger] self@[i].0.ns
                        > time.ns by {
                        assert(self@[mid as int].0.ns <= self@[i].0.ns);
                    }
                }
                hi = mid;
            }
        }
        proof {
            lemma_due_count_unique(self@, time.ns, lo as int);
        }
        lo
    }

    /// Takes the earliest entry out of the queue if it is due at or before
    /// `time`.
    pub fn pop_due(&mut self, time: Time) -> (r: Option<(Time, T)>)
        ensures
            match r {
                Some(e) => {
                    &&& old(self)@.len() > 0
                    &&& old(self)@[0].0.ns <= time.ns
                    &&& e == old(self)@[0]
                    &&& final(self)@ == old(self)@.drop_first()
                },
                None => {
                    &&& (old(self)@.len() == 0 || old(self)@[0].0.ns > time.ns)
                    &&& final(self)@ == old(self)@
                },
            },
            times_sorted(final(self)@),
    {
        self.queue.pop_due(time)
    }
}

impl<T: TimerTask> Timer<T> for HeapTimer<T> {
    /// Adds `task` after every entry due at or before `time`.
    fn schedule(&mut self, task: T, time: Time)
        ensures
            final(self)@ == scheduled(old(self)@, time, task),
            times_sorted(final(self)@),
    {
        let k = self.insert_point(time);
        self.queue.insert(k, time, task);
    }

    /// Runs each task due at or before `time` once, earliest first, and
    /// drops it.
    fn process(&mut self, ctx: &Context, time: Time)
        ensures
            final(self)@ == after_due(old(self)@, time.ns),
            times_sorted(final(self)@),
            exists|after: Seq<T>| #[trigger] ran_all(due_entries(old(self)@, time.ns), after, time),
    {
        self.queue.run_due(ctx, time);
    }

    /// The instant of the earliest entry.
    fn peek_time(&self) -> (r: Option<Time>)
        ensures
            r == first_time(self@),
    {
        self.queue.peek_time()
    }
}

} // verus!
