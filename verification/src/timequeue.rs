//! The queue both timers keep: `(instant, task)` entries sorted by instant,
//! taken out from the earliest end.

use vstd::prelude::*;
use std::collections::VecDeque;
use crate::time::Time;
use crate::timeline::{
    after_due, due_count, due_entries, first_time, lemma_due_count, lemma_scheduled_sorted,
    ran_all, scheduled, times_sorted,
};
use crate::{Context, TimerTask};

verus! {

/// Entries sorted by the instant at which they are due.
pub struct TimeQueue<T> {
    entries: VecDeque<(Time, T)>,
}

impl<T> View for TimeQueue<T> {
    type V = Seq<(Time, T)>;

    closed spec fn view(&self) -> Seq<(Time, T)> {
        self.entries@
    }
}

impl<T> TimeQueue<T> {
    #[verifier::type_invariant]
    spec fn sorted(&self) -> bool {
        times_sorted(self.entries@)
    }

    /// An empty queue.
    pub fn new() -> (q: Self)
        ensures
            q@ == Seq::<(Time, T)>::empty(),
            times_sorted(q@),
    {
        TimeQueue { entries: VecDeque::new() }
    }

    /// Number of entries; the entries are sorted.
    pub fn len(&self) -> (n: usize)
        ensures
            n == self@.len(),
            times_sorted(self@),
    {
        proof {
            use_type_invariant(self);
        }
        self.entries.len()
    }

    /// The instant of entry `i`; the entries are sorted.
    pub fn time_at(&self, i: usize) -> (t: Time)
        requires
            i < self@.len(),
        ensures
            t == self@[i as int].0,
            times_sorted(self@),
    {
        proof {
            use_type_invariant(self);
        }
        self.entries[i].0
    }

    /// Adds `task`, due at `time`, at position `k`, which must be just after
    /// every entry due at or before `time`.
    pub fn insert(&mut self, k: usize, time: Time, task: T)
        requires
            k == due_count(old(self)@, time.ns),
        ensures
            final(self)@ == scheduled(old(self)@, time, task),
            times_sorted(final(self)@),
    {
        proof {
            use_type_invariant(&*self);
            lemma_due_count(self@, time.ns);
            lemma_scheduled_sorted(self@, time, task);
        }
        let mut entries = VecDeque::new();
        std::mem::swap(&mut entries, &mut self.entries);
        entries.insert(k, (time, task));
        self.entries = entries;
        proof {
            use_type_invariant(&*self);
        }
    }

    /// Takes the earliest entry out of the queue if it is due at or before
    /// `time`.
    pub fn pop_due(&mut self, time: Time) -> (r: Option<(Time, T)>)
        ensures
            match r {
                Some(e) => {
                    &&& old(self)@.len() > 0
                    &&& old(self)@[0].0.ns <= time.ns
                    &&& e == old(self)@[0]
                    &&& final(self)@ == old(self)@.drop_first()
                },
                None => {
                    &&& (old(self)@.len() == 0 || old(self)@[0].0.ns > time.ns)
                    &&& final(self)@ == old(self)@
                },
            },
            times_sorted(final(self)@),
    {
        proof {
            use_type_invariant(&*self);
        }
        if self.entries.len() > 0 && self.entries[0].0.ns <= time.ns {
            let mut entries = VecDeque::new();
            std::mem::swap(&mut entries, &mut self.entries);
            let e = entries.pop_front();
            proof {
                assert(entries@ =~= old(self)@.drop_first());
                assert forall|i: int, j: int| 0 <= i <= j < entries@.len() implies
                    #[trigger] entries@[i].0.ns <= #[trigger] entries@[j].0.ns by {
                    assert(entries@[i] == old(self)@[i + 1]);
                    assert(entries@[j] == old(self)@[j + 1]);
                }
            }
            self.entries = entries;
            proof {
                use_type_invariant(&*self);
            }
            e
        } else {
            None
        }
    }

    /// The instant of the earliest entry.
    pub fn peek_time(&self) -> (r: Option<Time>)
        ensures
            r == first_time(self@),
    {
        if self.entries.len() > 0 {
            Some(self.entries[0].0)
        } else {
            None
        }
    }
}

impl<T: TimerTask> TimeQueue<T> {
    /// Runs each task due at or before `time` once, earliest first, with
    /// `ctx` and `time`, and drops it from the queue. `ran_all` relates the
    /// due tasks to what each became by running.
    pub fn run_due(&mut self, ctx: &Context, time: Time)
        ensures
            final(self)@ == after_due(old(self)@, time.ns),
            times_sorted(final(self)@),
            exists|after: Seq<T>| #[trigger] ran_all(due_entries(old(self)@, time.ns), after, time),
    {
        proof {
            use_type_invariant(&*self);
            lemma_due_count(self@, time.ns);
        }
        let ghost start = self@;
        let ghost mut after: Seq<T> = Seq::empty();
        let ghost mut done: int = 0;
        loop
            invariant
                start == old(self)@,
                0 <= done <= due_count(start, time.ns),
                due_count(start, time.ns) <= start.len(),
                forall|i: int| 0 <= i < due_count(start, time.ns) ==> #[trigger] start[i].0.ns
                    <= time.ns,
                due_count(start, time.ns) < start.len() ==> start[due_count(start, time.ns) as int].0.ns
                    > time.ns,
                self@ == start.skip(done),
                after.len() == done,
                forall|i: int| 0 <= i < done ==> start[i].1.ran(&#[trigger] after[i], time),
            ensures
                done == due_count(start, time.ns),
                self@ == start.skip(done),
                after.len() == done,
                forall|i: int| 0 <= i < done ==> start[i].1.ran(&#[trigger] after[i], time),
            decreases self@.len(),
        {
            match self.pop_due(time) {
                Some(entry) => {
                    let (_, mut task) = entry;
                    proof {
                        assert(start.skip(done)[0] == start[done]);
                        assert(task == start[done].1);
                    }
                    task.run(ctx, time);
                    proof {
                        after = after.push(task);
                        assert(self@ =~= start.skip(done + 1));
                        done = done + 1;
                        assert(after[done - 1] == task);
                    }
                },
                None => {
                    proof {
                        if done < due_count(start, time.ns) {
                            assert(self@[0] == start[done]);
                        }
                    }
                    break;
                },
            }
        }
        proof {
            let due = due_entries(start, time.ns);
            assert forall|i: int| 0 <= i < due.len() implies #[trigger] due[i].1.ran(
                &after[i],
                time,
            ) by {
                assert(due[i] == start[i]);
                assert(start[i].1.ran(&after[i], time));
            }
            assert(ran_all(due, after, time));
        }
    }
}

} // verus!
