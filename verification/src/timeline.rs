//! The model shared by the timers: a sequence of `(instant, task)` entries,
//! kept in order of their instants, tasks due at the same instant in the
//! order they were scheduled.

use vstd::prelude::*;
use crate::time::Time;
use crate::TimerTask;

verus! {

/// Every entry's instant is no later than those of the entries after it.
pub open spec fn times_sorted<T>(s: Seq<(Time, T)>) -> bool {
    forall|i: int, j: int| 0 <= i <= j < s.len() ==> #[trigger] s[i].0.ns <= #[trigger] s[j].0.ns
}

/// The length of the longest prefix of `s` whose entries are all due at or
/// before `t`.
pub open spec fn due_count<T>(s: Seq<(Time, T)>, t: u64) -> nat
    decreases s.len(),
{
    if s.len() == 0 {
        0
    } else if s[0].0.ns <= t {
        1 + due_count(s.drop_first(), t)
    } else {
        0
    }
}

/// The queue after a task `x` due at `t` was added: it follows every entry
/// due at or before `t` and precedes every entry due later.
pub open spec fn scheduled<T>(s: Seq<(Time, T)>, t: Time, x: T) -> Seq<(Time, T)> {
    s.insert(due_count(s, t.ns) as int, (t, x))
}

/// The queue after every entry due at or before `t` was run.
pub open spec fn after_due<T>(s: Seq<(Time, T)>, t: u64) -> Seq<(Time, T)> {
    s.skip(due_count(s, t) as int)
}

/// The entries of the queue that are due at or before `t`, in the order they run.
pub open spec fn due_entries<T>(s: Seq<(Time, T)>, t: u64) -> Seq<(Time, T)> {
    s.take(due_count(s, t) as int)
}

/// Each due task ran: `after[i]` is what the task of `due[i]` became by
/// running at `time`, one for each due entry.
pub open spec fn ran_all<T: TimerTask>(due: Seq<(Time, T)>, after: Seq<T>, time: Time) -> bool {
    &&& after.len() == due.len()
    &&& forall|i: int| 0 <= i < due.len() ==> #[trigger] due[i].1.ran(&after[i], time)
}

/// The instant of the earliest entry.
pub open spec fn first_time<T>(s: Seq<(Time, T)>) -> Option<Time> {
    if s.len() == 0 {
        None
    } else {
        Some(s[0].0)
    }
}

/// `due_count` counts a prefix of entries due at or before `t`; in a sorted
/// queue, every entry after that prefix is due later.
pub proof fn lemma_due_count<T>(s: Seq<(Time, T)>, t: u64)
    ensures
        due_count(s, t) <= s.len(),
        forall|i: int| 0 <= i < due_count(s, t) ==> #[trigger] s[i].0.ns <= t,
        due_count(s, t) < s.len() ==> s[due_count(s, t) as int].0.ns > t,
        times_sorted(s) ==> forall|i: int|
            due_count(s, t) <= i < s.len() ==> #[trigger] s[i].0.ns > t,
    decreases s.len(),
{
    if s.len() > 0 && s[0].0.ns <= t {
        lemma_due_count(s.drop_first(), t);
        assert forall|i: int| 0 <= i < due_count(s, t) implies #[trigger] s[i].0.ns <= t by {
            if i > 0 {
                assert(s[i] == s.drop_first()[i - 1]);
            }
        }
        if due_count(s, t) < s.len() {
            assert(s[due_count(s, t) as int] == s.drop_first()[due_count(s, t) - 1]);
        }
    }
    if times_sorted(s) && due_count(s, t) < s.len() {
        let k = due_count(s, t) as int;
        assert forall|i: int| due_count(s, t) <= i < s.len() implies #[trigger] s[i].0.ns > t by {
            assert(s[k].0.ns <= s[i].0.ns);
        }
    }
}

/// In a sorted queue, `due_count` is the number of entries due at or before `t`
/// exactly when it is the first index whose entry is due later.
pub proof fn lemma_due_count_unique<T>(s: Seq<(Time, T)>, t: u64, k: int)
    requires
        0 <= k <= s.len(),
        forall|i: int| 0 <= i < k ==> #[trigger] s[i].0.ns <= t,
        k < s.len() ==> s[k].0.ns > t,
    ensures
        due_count(s, t) == k,
    decreases s.len(),
{
    if s.len() > 0 && k > 0 {
        assert(s[0].0.ns <= t);
        assert forall|i: int| 0 <= i < k - 1 implies #[trigger] s.drop_first()[i].0.ns <= t by {
            assert(s.drop_first()[i] == s[i + 1]);
        }
        if k - 1 < s.drop_first().len() {
            assert(s.drop_first()[k - 1] == s[k]);
        }
        lemma_due_count_unique(s.drop_first(), t, k - 1);
    }
}

/// Adding an entry at its due position keeps a sorted queue sorted.
pub proof fn lemma_scheduled_sorted<T>(s: Seq<(Time, T)>, t: Time, x: T)
    requires
        times_sorted(s),
    ensures
        times_sorted(scheduled(s, t, x)),
        scheduled(s, t, x).len() == s.len() + 1,
{
    lemma_due_count(s, t.ns);
    let k = due_count(s, t.ns) as int;
    let r = scheduled(s, t, x);
    assert forall|i: int, j: int| 0 <= i <= j < r.len() implies #[trigger] r[i].0.ns
        <= #[trigger] r[j].0.ns by {
        let oi = if i < k { i } else { i - 1 };
        let oj = if j < k { j } else { j - 1 };
        if i != k && j != k {
            assert(r[i] == s[oi]);
            assert(r[j] == s[oj]);
        } else if i == k && j != k {
            assert(r[j] == s[oj]);
        } else if i != k && j == k {
            assert(r[i] == s[oi]);
        }
    }
}

/// Processing a queue at `t` splits it in two: the entries it runs, in
/// queue order, all due at or before `t`, and the entries it keeps, all due
/// later.
pub proof fn law_process_splits_queue<T>(s: Seq<(Time, T)>, t: u64)
    requires
        times_sorted(s),
    ensures
        due_entries(s, t) + after_due(s, t) == s,
        forall|i: int| 0 <= i < due_entries(s, t).len() ==> #[trigger] due_entries(s, t)[i].0.ns <= t,
        forall|i: int| 0 <= i < after_due(s, t).len() ==> #[trigger] after_due(s, t)[i].0.ns > t,
        times_sorted(after_due(s, t)),
        first_time(after_due(s, t)) matches Some(f) ==> f.ns > t,
{
    lemma_due_count(s, t);
    let k = due_count(s, t) as int;
    assert(due_entries(s, t) + after_due(s, t) =~= s);
    assert forall|i: int| 0 <= i < after_due(s, t).len() implies #[trigger] after_due(s, t)[i].0.ns
        > t by {
        assert(after_due(s, t)[i] == s[k + i]);
    }
    assert forall|i: int, j: int| 0 <= i <= j < after_due(s, t).len() implies #[trigger] after_due(
        s,
        t,
    )[i].0.ns <= #[trigger] after_due(s, t)[j].0.ns by {
        assert(after_due(s, t)[i] == s[k + i]);
        assert(after_due(s, t)[j] == s[k + j]);
    }
}

/// A task scheduled at `t` is run by processing at any instant from `t` on,
/// and kept by processing at any earlier instant.
pub proof fn law_scheduled_task_runs_when_due<T>(s: Seq<(Time, T)>, t: Time, x: T, now: u64)
    requires
        times_sorted(s),
    ensures
        t.ns <= now ==> due_entries(scheduled(s, t, x), now).contains((t, x)),
        now < t.ns ==> after_due(scheduled(s, t, x), now).contains((t, x)),
{
    lemma_due_count(s, t.ns);
    lemma_scheduled_sorted(s, t, x);
    let r = scheduled(s, t, x);
    let k = due_count(s, t.ns) as int;
    assert(r[k] == (t, x));
    lemma_due_count(r, now);
    let m = due_count(r, now) as int;
    if t.ns <= now {
        if k >= m {
            assert(r[k].0.ns > now);
        }
        assert(due_entries(r, now)[k] == (t, x));
    } else {
        if k < m {
            assert(r[k].0.ns <= now);
        }
        assert(after_due(r, now)[k - m] == (t, x));
    }
}

/// Tasks scheduled at the same instant run in the order they were
/// scheduled: the earlier one stands before the later one in the queue.
pub proof fn law_same_instant_first_come_first_run<T>(s: Seq<(Time, T)>, t: Time, x: T, y: T)
    requires
        times_sorted(s),
    ensures
        ({
            let r = scheduled(scheduled(s, t, x), t, y);
            let k = due_count(s, t.ns) as int;
            &&& r.len() == s.len() + 2
            &&& r[k] == (t, x)
            &&& r[k + 1] == (t, y)
        }),
{
    lemma_due_count(s, t.ns);
    lemma_scheduled_sorted(s, t, x);
    let k = due_count(s, t.ns) as int;
    let r1 = scheduled(s, t, x);
    assert forall|i: int| 0 <= i < k + 1 implies #[trigger] r1[i].0.ns <= t.ns by {
        if i < k {
            assert(r1[i] == s[i]);
        }
    }
    if k + 1 < r1.len() {
        assert(r1[k + 1] == s[k]);
    }
    lemma_due_count_unique(r1, t.ns, k + 1);
}

/// After scheduling a task at `t`, the earliest instant of the queue is the
/// earlier of `t` and the earliest instant before.
pub proof fn law_schedule_earliest<T>(s: Seq<(Time, T)>, t: Time, x: T)
    requires
        times_sorted(s),
    ensures
        first_time(scheduled(s, t, x)) == match first_time(s) {
            None => Some(t),
            Some(f) => if f.ns <= t.ns {
                Some(f)
            } else {
                Some(t)
            },
        },
{
    lemma_due_count(s, t.ns);
}

} // verus!
