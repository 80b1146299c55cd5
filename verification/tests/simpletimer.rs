use sio::simpletimer::SimpleTimer;
use sio::{Context, Time, Timer, TimerTask};
use std::cell::RefCell;
use std::rc::Rc;
use std::time::Duration;

struct Task {
    num: u64,
    vec: Rc<RefCell<Vec<u64>>>,
}

impl Task {
    fn new(num: u64, vec: Rc<RefCell<Vec<u64>>>) -> Self {
        Task { num: num, vec: vec }
    }
}

impl TimerTask for Task {
    fn run(&mut self, _ctx: &Context, _time: Time) {
        self.vec.borrow_mut().push(self.num);
    }
}

#[test]
fn basics() {
    let mut timer = SimpleTimer::new();
    let time = Time::min();
    let vec = Rc::new(RefCell::new(Vec::new()));
    let max = 2_000_000;

    let start = Time::now();
    for i in 0..max {
        let i = max - i;
        let task1 = Task::new(i, vec.clone());
        timer.schedule(Box::new(task1), time + Duration::new(i, 0));
    }
    let end = Time::now();
    println!("{:?}", end.ns.saturating_sub(start.ns));

    let start = Time::now();
    let ctx = Context::new(1);
    for _i in 0..max {
        timer.process(&ctx, time + Duration::new(max, 0));
        vec.borrow_mut().clear();
    }
    let end = Time::now();
    println!("{:?}", end.ns.saturating_sub(start.ns));
}

#[test]
fn it_works() {}

#[test]
fn simple_timer_runs_due_tasks_in_time_order() {
    let log = Rc::new(RefCell::new(Vec::new()));
    let mut timer = SimpleTimer::new();
    timer.schedule(Task::new(3, log.clone()), Time::new(30));
    timer.schedule(Task::new(1, log.clone()), Time::new(10));
    timer.schedule(Task::new(2, log.clone()), Time::new(20));
    assert_eq!(timer.peek_time(), Some(Time::new(10)));
    let ctx = Context::new(7);
    timer.process(&ctx, Time::new(20));
    assert_eq!(*log.borrow(), vec![1, 2]);
    assert_eq!(timer.peek_time(), Some(Time::new(30)));
    timer.process(&ctx, Time::new(29));
    assert_eq!(*log.borrow(), vec![1, 2]);
    timer.process(&ctx, Time::new(30));
    assert_eq!(*log.borrow(), vec![1, 2, 3]);
    assert_eq!(timer.peek_time(), None);
}

#[test]
fn simple_timer_same_instant_first_come_first_run() {
    let log = Rc::new(RefCell::new(Vec::new()));
    let mut timer = SimpleTimer::new();
    timer.schedule(Task::new(1, log.clone()), Time::new(5));
    timer.schedule(Task::new(2, log.clone()), Time::new(5));
    timer.schedule(Task::new(0, log.clone()), Time::new(4));
    timer.schedule(Task::new(3, log.clone()), Time::new(5));
    timer.process(&Context::new(0), Time::new(5));
    assert_eq!(*log.borrow(), vec![0, 1, 2, 3]);
}

#[test]
fn simple_timer_pop_due_takes_only_due_entries() {
    let log = Rc::new(RefCell::new(Vec::new()));
    let mut timer = SimpleTimer::new();
    assert!(timer.pop_due(Time::new(100)).is_none());
    timer.schedule(Task::new(9, log.clone()), Time::new(50));
    assert!(timer.pop_due(Time::new(49)).is_none());
    let (t, task) = timer.pop_due(Time::new(50)).unwrap();
    assert_eq!(t, Time::new(50));
    assert_eq!(task.num, 9);
}

struct Named {
    name: &'static str,
    log: Rc<RefCell<Vec<&'static str>>>,
}

impl TimerTask for Named {
    fn run(&mut self, _ctx: &Context, _time: Time) {
        self.log.borrow_mut().push(self.name);
    }
}

#[test]
fn same_instant_tasks_after_earlier_schedule() {
    let log = Rc::new(RefCell::new(Vec::new()));
    let mut t = SimpleTimer::new();
    t.schedule(Box::new(Named { name: "A", log: log.clone() }), Time::min() + Duration::new(0, 20));
    t.schedule(Box::new(Named { name: "B", log: log.clone() }), Time::min() + Duration::new(0, 10));
    t.schedule(Box::new(Named { name: "C", log: log.clone() }), Time::min() + Duration::new(0, 10));
    assert_eq!(t.peek_time(), Some(Time::min() + Duration::new(0, 10)));
    t.process(&Context::new(0), Time::min() + Duration::new(0, 20));
    assert_eq!(*log.borrow(), vec!["B", "C", "A"]);
}

#[test]
fn basics_with_three_tasks_runs_each_once_earliest_first() {
    let mut timer = SimpleTimer::new();
    let time = Time::min();
    let vec = Rc::new(RefCell::new(Vec::new()));
    for i in [3u64, 2, 1] {
        timer.schedule(Box::new(Task::new(i, vec.clone())), time + Duration::new(i, 0));
    }
    let ctx = Context::new(1);
    timer.process(&ctx, time + Duration::new(3, 0));
    assert_eq!(*vec.borrow(), vec![1, 2, 3]);
    assert_eq!(timer.peek_time(), None);
    timer.process(&ctx, time + Duration::new(3, 0));
    assert_eq!(*vec.borrow(), vec![1, 2, 3]);
}
